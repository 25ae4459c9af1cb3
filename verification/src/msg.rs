use vstd::prelude::*;

use crate::asset::{Asset, AssetInfo, AssetInfoV, AssetV};
use crate::state::{Listing, ListingV, Metadata, MetadataV, Royalty, RoyaltyV};

verus! {

/// The instantiation request carries nothing; the instantiator becomes the
/// owner.
#[derive(Debug)]
pub struct InstantiateMsg {}

/// The inner action a token contract's transfer notification can carry:
/// the attached token amount funds either a bid or a placement.
#[derive(Debug)]
pub enum Cw20HookMsg {
    PlaceListing { id: String },
    BidListing { listing_id: String },
}

/// Mathematical image of [`Cw20HookMsg`].
pub enum Cw20HookMsgV {
    PlaceListing { id: Seq<char> },
    BidListing { listing_id: Seq<char> },
}

impl View for Cw20HookMsg {
    type V = Cw20HookMsgV;

    open spec fn view(&self) -> Cw20HookMsgV {
        match self {
            Cw20HookMsg::PlaceListing { id } => Cw20HookMsgV::PlaceListing { id: id@ },
            Cw20HookMsg::BidListing { listing_id } => Cw20HookMsgV::BidListing {
                listing_id: listing_id@,
            },
        }
    }
}

/// The read-only queries.
#[derive(Debug)]
pub enum QueryMsg {
    Config {},
    ResolveListing { id: String },
    QueryMinter {},
    QueryNftInfo { token_id: String },
    AllTokens {},
}

/// A mint request: the recipient of the new token and its metadata,
/// including the royalty schedule used later at settlement.
#[derive(Debug)]
pub struct GFMintMsg {
    pub owner: String,
    pub name: String,
    pub image_uri: Option<String>,
    pub external_link: Option<String>,
    pub description: Option<String>,
    pub collection: Option<u128>,
    pub num_real_repr: u128,
    pub num_nfts: u128,
    pub royalties: Vec<Royalty>,
    pub init_price: u128,
}

/// Mathematical image of [`GFMintMsg`].
pub struct GFMintMsgV {
    pub owner: Seq<char>,
    pub name: Seq<char>,
    pub image_uri: Option<Seq<char>>,
    pub external_link: Option<Seq<char>>,
    pub description: Option<Seq<char>>,
    pub collection: Option<u128>,
    pub num_real_repr: u128,
    pub num_nfts: u128,
    pub royalties: Seq<RoyaltyV>,
    pub init_price: u128,
}

impl View for GFMintMsg {
    type V = GFMintMsgV;

    open spec fn view(&self) -> GFMintMsgV {
        GFMintMsgV {
            owner: self.owner@,
            name: self.name@,
            image_uri: self.image_uri.deep_view(),
            external_link: self.external_link.deep_view(),
            description: self.description.deep_view(),
            collection: self.collection,
            num_real_repr: self.num_real_repr,
            num_nfts: self.num_nfts,
            royalties: self.royalties.deep_view(),
            init_price: self.init_price,
        }
    }
}

/// Answer to [`QueryMsg::ResolveListing`]: the full listing record.
#[derive(Debug)]
pub struct ResolveListingResponse {
    pub token_id: String,
    pub contract_addr: String,
    pub seller: String,
    pub max_bid: Asset,
    pub max_bidder: Option<String>,
    pub block_limit: u64,
}

/// Mathematical image of [`ResolveListingResponse`].
pub struct ResolveListingResponseV {
    pub token_id: Seq<char>,
    pub contract_addr: Seq<char>,
    pub seller: Seq<char>,
    pub max_bid: AssetV,
    pub max_bidder: Option<Seq<char>>,
    pub block_limit: u64,
}

impl View for ResolveListingResponse {
    type V = ResolveListingResponseV;

    open spec fn view(&self) -> ResolveListingResponseV {
        ResolveListingResponseV {
            token_id: self.token_id@,
            contract_addr: self.contract_addr@,
            seller: self.seller@,
            max_bid: self.max_bid@,
            max_bidder: self.max_bidder.deep_view(),
            block_limit: self.block_limit,
        }
    }
}

/// The image of a listing record, for relating a response to the registry's
/// content.
pub open spec fn response_of(l: ListingV) -> ResolveListingResponseV {
    ResolveListingResponseV {
        token_id: l.token_id,
        contract_addr: l.contract_addr,
        seller: l.seller,
        max_bid: l.max_bid,
        max_bidder: l.max_bidder,
        block_limit: l.block_limit,
    }
}

/// One outbound side effect a handler asks the host to dispatch. The host
/// executes them in emission order, atomically with the state commit.
#[derive(Debug)]
pub enum OutboundMsg {
    /// Pay `amount` of the native currency `denom` to `recipient`.
    NativeTransfer { recipient: String, denom: String, amount: u128 },
    /// Instruct the token contract at `token_addr` to transfer `amount` to
    /// `recipient`.
    TokenTransfer { token_addr: String, recipient: String, amount: u128 },
    /// Grant `spender` transfer rights over `token_id` at the NFT registry,
    /// until the given height.
    NftApprove { registry: String, spender: String, token_id: String, expires_height: u64 },
    /// Transfer custody of `token_id` to `recipient` at the NFT registry.
    NftTransfer { registry: String, recipient: String, token_id: String },
    /// Ask the NFT registry to mint `token_id` for `owner` with the given
    /// media reference and metadata.
    NftMint {
        registry: String,
        token_id: String,
        owner: String,
        image_uri: Option<String>,
        metadata: Metadata,
    },
}

/// Mathematical image of [`OutboundMsg`].
pub enum OutboundMsgV {
    NativeTransfer { recipient: Seq<char>, denom: Seq<char>, amount: u128 },
    TokenTransfer { token_addr: Seq<char>, recipient: Seq<char>, amount: u128 },
    NftApprove { registry: Seq<char>, spender: Seq<char>, token_id: Seq<char>, expires_height: u64 },
    NftTransfer { registry: Seq<char>, recipient: Seq<char>, token_id: Seq<char> },
    NftMint {
        registry: Seq<char>,
        token_id: Seq<char>,
        owner: Seq<char>,
        image_uri: Option<Seq<char>>,
        metadata: MetadataV,
    },
}

impl View for OutboundMsg {
    type V = OutboundMsgV;

    open spec fn view(&self) -> OutboundMsgV {
        match self {
            OutboundMsg::NativeTransfer { recipient, denom, amount } => (
            OutboundMsgV::NativeTransfer { recipient: recipient@, denom: denom@, amount: *amount }),
            OutboundMsg::TokenTransfer { token_addr, recipient, amount } => (
            OutboundMsgV::TokenTransfer {
                token_addr: token_addr@,
                recipient: recipient@,
                amount: *amount,
            }),
            OutboundMsg::NftApprove { registry, spender, token_id, expires_height } => (
            OutboundMsgV::NftApprove {
                registry: registry@,
                spender: spender@,
                token_id: token_id@,
                expires_height: *expires_height,
            }),
            OutboundMsg::NftTransfer { registry, recipient, token_id } => (
            OutboundMsgV::NftTransfer {
                registry: registry@,
                recipient: recipient@,
                token_id: token_id@,
            }),
            OutboundMsg::NftMint { registry, token_id, owner, image_uri, metadata } => (
            OutboundMsgV::NftMint {
                registry: registry@,
                token_id: token_id@,
                owner: owner@,
                image_uri: image_uri.deep_view(),
                metadata: metadata@,
            }),
        }
    }
}

impl DeepView for OutboundMsg {
    type V = OutboundMsgV;

    open spec fn deep_view(&self) -> OutboundMsgV {
        self@
    }
}

/// The outbound payment that moves `asset` to `recipient`: a direct
/// currency transfer on the native rail, a transfer instruction to the
/// token contract on the token rail.
pub open spec fn transfer_msg(asset: AssetV, recipient: Seq<char>) -> OutboundMsgV {
    match asset.info {
        AssetInfoV::NativeToken { denom } => OutboundMsgV::NativeTransfer {
            recipient,
            denom,
            amount: asset.amount,
        },
        AssetInfoV::Token { contract_addr } => OutboundMsgV::TokenTransfer {
            token_addr: contract_addr,
            recipient,
            amount: asset.amount,
        },
    }
}

/// Builds the message that pays `asset` out to `recipient`. Side-effect
/// free: the caller emits the descriptor.
pub fn to_outbound_message(asset: &Asset, recipient: &String) -> (m: OutboundMsg)
    ensures
        m@ == transfer_msg(asset@, recipient@),
{
    match &asset.info {
        AssetInfo::NativeToken { denom } => OutboundMsg::NativeTransfer {
            recipient: recipient.clone(),
            denom: denom.clone(),
            amount: asset.amount,
        },
        AssetInfo::Token { contract_addr } => OutboundMsg::TokenTransfer {
            token_addr: contract_addr.clone(),
            recipient: recipient.clone(),
            amount: asset.amount,
        },
    }
}

/// The outcome of a withdrawal: an unsold listing returns the NFT to the
/// seller; a sold one hands custody to the winning bidder and settlement
/// follows from the removed record.
#[derive(Debug)]
pub enum Withdrawal {
    Unsold { return_nft: OutboundMsg },
    Sold { transfer_nft: OutboundMsg, listing: Listing },
}

/// Mathematical image of [`Withdrawal`].
pub enum WithdrawalV {
    Unsold { return_nft: OutboundMsgV },
    Sold { transfer_nft: OutboundMsgV, listing: ListingV },
}

impl View for Withdrawal {
    type V = WithdrawalV;

    open spec fn view(&self) -> WithdrawalV {
        match self {
            Withdrawal::Unsold { return_nft } => WithdrawalV::Unsold { return_nft: return_nft@ },
            Withdrawal::Sold { transfer_nft, listing } => WithdrawalV::Sold {
                transfer_nft: transfer_nft@,
                listing: listing@,
            },
        }
    }
}

} // verus!
