use vstd::prelude::*;

use crate::asset::{incoming_ok, validate_incoming, Asset, AssetInfo, AssetInfoV, AssetV, Coin};
use crate::error::ContractError;
use crate::msg::{
    response_of, to_outbound_message, transfer_msg, Cw20HookMsg, Cw20HookMsgV, GFMintMsg,
    OutboundMsg, OutboundMsgV, ResolveListingResponse, Withdrawal, WithdrawalV,
};
use crate::royalty::{
    can_distribute, cut_of, distribute, lemma_rates_sum_mono, rates_sum, rem_after, RATE_ONE,
};
use crate::state::{
    dec_rep, read_config, read_minter_info, read_minters, read_nft_address, remove_minter,
    store_config, store_minters, store_nft_address, u64_to_dec_string, Config, ConfigV, Listing,
    ListingV, MarketState, MarketStateV, Metadata, MetadataV, MinterInfo, DEFAULT_EXPIRE_BLOCKS,
};

verus! {

/// The registered NFT registry address of a state whose `nft_address` is
/// set; the empty sequence otherwise.
pub open spec fn registry_addr(s: MarketStateV) -> Seq<char> {
    match s.nft_address {
        Some(a) => a,
        None => Seq::empty(),
    }
}

/// A bid is accepted against a listing at `height` exactly when the
/// listing is still open, the bid is in the listing's currency, and it is
/// not below the current leading bid.
pub open spec fn bid_accepted(l: ListingV, bid: AssetV, height: u64) -> bool {
    &&& height <= l.block_limit
    &&& bid.info == l.max_bid.info
    &&& bid.amount >= l.max_bid.amount
}

/// The listing after an accepted bid: the bid and its sender strictly
/// replace the previous leader, everything else is untouched.
pub open spec fn bid_step(l: ListingV, bid: AssetV, sender: Seq<char>) -> ListingV {
    ListingV { max_bid: bid, max_bidder: Some(sender), ..l }
}

/// A fresh listing record as placement creates it: the minimum bid stands
/// as the leading bid and there is no leading bidder yet.
pub open spec fn placed_listing(
    token_id: Seq<char>,
    registry: Seq<char>,
    seller: Seq<char>,
    minimum_bid: AssetV,
    block_limit: u64,
) -> ListingV {
    ListingV {
        token_id,
        contract_addr: registry,
        seller,
        max_bid: minimum_bid,
        max_bidder: None,
        block_limit,
    }
}

/// Law: an accepted bid never lowers the leading bid, so over any run of
/// accepted bids the leading amount is non-decreasing.
pub proof fn lemma_accepted_bid_never_lowers_leader(
    l: ListingV,
    bid: AssetV,
    sender: Seq<char>,
    height: u64,
)
    requires
        bid_accepted(l, bid, height),
    ensures
        bid_step(l, bid, sender).max_bid.amount >= l.max_bid.amount,
{
}

/// The listing after a run of bids, each applied in turn; an entry carries
/// the bid, its sender and the height it arrived at.
pub open spec fn run_bids(l: ListingV, bids: Seq<(AssetV, Seq<char>, u64)>) -> ListingV
    decreases bids.len(),
{
    if bids.len() == 0 {
        l
    } else {
        bid_step(run_bids(l, bids.drop_last()), bids.last().0, bids.last().1)
    }
}

/// Every bid of the run is accepted against the listing as it stands at
/// that bid's turn.
pub open spec fn all_accepted(l: ListingV, bids: Seq<(AssetV, Seq<char>, u64)>) -> bool
    decreases bids.len(),
{
    if bids.len() == 0 {
        true
    } else {
        all_accepted(l, bids.drop_last()) && bid_accepted(
            run_bids(l, bids.drop_last()),
            bids.last().0,
            bids.last().2,
        )
    }
}

/// Law: over any run of accepted bids the leading amount never drops below
/// where it started — with the step law above, the whole sequence of
/// leading amounts is non-decreasing.
pub proof fn lemma_accepted_run_never_lowers_leader(
    l: ListingV,
    bids: Seq<(AssetV, Seq<char>, u64)>,
)
    requires
        all_accepted(l, bids),
    ensures
        run_bids(l, bids).max_bid.amount >= l.max_bid.amount,
    decreases bids.len(),
{
    if bids.len() > 0 {
        lemma_accepted_run_never_lowers_leader(l, bids.drop_last());
    }
}

/// Law: on a freshly placed listing the leading bid is the minimum bid, so
/// the first accepted bid is at least the listing's minimum.
pub proof fn lemma_first_accepted_bid_meets_minimum(
    token_id: Seq<char>,
    registry: Seq<char>,
    seller: Seq<char>,
    minimum_bid: AssetV,
    block_limit: u64,
    bid: AssetV,
    height: u64,
)
    requires
        bid_accepted(placed_listing(token_id, registry, seller, minimum_bid, block_limit), bid, height),
    ensures
        bid.amount >= minimum_bid.amount,
{
}

/// Law: a bid whose currency differs from the listing's is never accepted,
/// whatever its amount.
pub proof fn lemma_mismatched_currency_rejected(l: ListingV, bid: AssetV, height: u64)
    requires
        bid.info != l.max_bid.info,
    ensures
        !bid_accepted(l, bid, height),
{
}

/// Creates the initial state: the instantiator becomes the owner, both
/// counters start at zero, nothing is listed and nobody may mint.
pub fn instantiate(sender: String) -> (state: MarketState)
    ensures
        state.inv(),
        state@ == (MarketStateV {
            config: ConfigV {
                listing_count: 0,
                mint_count: 0,
                owner: sender@,
                max_auction_duration_blocks: DEFAULT_EXPIRE_BLOCKS,
            },
            nft_address: None,
            minters: Seq::empty(),
            listings: Map::empty(),
        }),
{
    let state = MarketState {
        config: Config {
            listing_count: 0,
            mint_count: 0,
            owner: sender,
            max_auction_duration_blocks: DEFAULT_EXPIRE_BLOCKS,
        },
        nft_address: None,
        minters: Vec::new(),
        listings: crate::state::ListingBook::new(),
    };
    proof {
        assert(state.minters.deep_view() =~= Seq::<Seq<char>>::empty());
    }
    state
}

/// Registers the external NFT registry's address; only the owner may.
pub fn set_nft_address(state: &mut MarketState, sender: &String, nft_address: String) -> (r:
    Result<(), ContractError>)
    ensures
        old(state).inv() ==> final(state).inv(),
        sender@ != old(state)@.config.owner ==> r == Err::<(), ContractError>(
            ContractError::Unauthorized,
        ) && final(state)@ == old(state)@,
        sender@ == old(state)@.config.owner ==> r is Ok && final(state)@ == (MarketStateV {
            nft_address: Some(nft_address@),
            ..old(state)@
        }),
{
    let config = read_config(state);
    if !(*sender == config.owner) {
        return Err(ContractError::Unauthorized);
    }
    store_nft_address(state, nft_address);
    Ok(())
}

/// Adds an address to the minter whitelist; only the owner may.
pub fn update_minters(state: &mut MarketState, sender: &String, minter: &String) -> (r: Result<
    (),
    ContractError,
>)
    ensures
        old(state).inv() ==> final(state).inv(),
        sender@ != old(state)@.config.owner ==> r == Err::<(), ContractError>(
            ContractError::Unauthorized,
        ) && final(state)@ == old(state)@,
        sender@ == old(state)@.config.owner ==> {
            &&& r is Ok
            &&& final(state)@.minters.contains(minter@)
            &&& old(state)@.minters.contains(minter@) ==> final(state)@ == old(state)@
            &&& !old(state)@.minters.contains(minter@) ==> final(state)@ == (MarketStateV {
                minters: old(state)@.minters.push(minter@),
                ..old(state)@
            })
        },
{
    let config = read_config(state);
    if !(*sender == config.owner) {
        return Err(ContractError::Unauthorized);
    }
    store_minters(state, minter.clone(), MinterInfo {  });
    Ok(())
}

/// Strikes an address from the minter whitelist; only the owner may.
pub fn unregister_minter(state: &mut MarketState, sender: &String, minter: &String) -> (r: Result<
    (),
    ContractError,
>)
    ensures
        old(state).inv() ==> final(state).inv(),
        sender@ != old(state)@.config.owner ==> r == Err::<(), ContractError>(
            ContractError::Unauthorized,
        ) && final(state)@ == old(state)@,
        sender@ == old(state)@.config.owner ==> {
            &&& r is Ok
            &&& !old(state)@.minters.contains(minter@) ==> final(state)@ == old(state)@
            &&& old(state)@.minters.contains(minter@) ==> exists|i: int|
                0 <= i < old(state)@.minters.len() && old(state)@.minters[i] == minter@
                    && final(state)@ == (MarketStateV {
                    minters: old(state)@.minters.remove(i),
                    ..old(state)@
                })
            &&& old(state).inv() ==> !final(state)@.minters.contains(minter@)
        },
{
    let config = read_config(state);
    if !(*sender == config.owner) {
        return Err(ContractError::Unauthorized);
    }
    remove_minter(state, minter);
    Ok(())
}

/// Hands back the whole minter whitelist.
pub fn query_minters(state: &MarketState) -> (r: Vec<String>)
    ensures
        r.deep_view() == state@.minters,
{
    read_minters(state)
}

/// Resolves one listing by key. A key without a record answers `NotFound`;
/// it never aborts.
pub fn query_list_resolver(state: &MarketState, id: &String) -> (r: Result<
    ResolveListingResponse,
    ContractError,
>)
    requires
        state.inv(),
    ensures
        !state@.listings.contains_key(id@) ==> r == Err::<ResolveListingResponse, ContractError>(
            ContractError::NotFound,
        ),
        state@.listings.contains_key(id@) ==> r is Ok && (r matches Ok(resp) ==> resp@
            == response_of(state@.listings[id@])),
{
    match state.listings.may_load(id) {
        None => Err(ContractError::NotFound),
        Some(l) => Ok(
            ResolveListingResponse {
                token_id: l.token_id,
                contract_addr: l.contract_addr,
                seller: l.seller,
                max_bid: l.max_bid,
                max_bidder: l.max_bidder,
                block_limit: l.block_limit,
            },
        ),
    }
}

/// Whitelist-gated minting: checks the sender against the whitelist and
/// the royalty schedule against the hundred-percent bound, then advances
/// the mint counter and emits one mint instruction whose token id is the
/// fixed prefix followed by the new counter value.
pub fn execute_mint(state: &mut MarketState, sender: &String, msg: GFMintMsg) -> (r: Result<
    OutboundMsg,
    ContractError,
>)
    requires
        old(state)@.config.mint_count < u64::MAX,
    ensures
        old(state).inv() ==> final(state).inv(),
        r is Err ==> final(state)@ == old(state)@,
        !old(state)@.minters.contains(sender@) ==> r == Err::<OutboundMsg, ContractError>(
            ContractError::Unauthorized,
        ),
        old(state)@.minters.contains(sender@) && old(state)@.nft_address is None ==> r == Err::<
            OutboundMsg,
            ContractError,
        >(ContractError::NotConfigured),
        old(state)@.minters.contains(sender@) && old(state)@.nft_address is Some && rates_sum(
            msg@.royalties,
            msg@.royalties.len() as int,
        ) > RATE_ONE ==> r == Err::<OutboundMsg, ContractError>(ContractError::InvalidRoyaltyRate),
        old(state)@.minters.contains(sender@) && old(state)@.nft_address is Some && rates_sum(
            msg@.royalties,
            msg@.royalties.len() as int,
        ) <= RATE_ONE ==> {
            &&& r is Ok
            &&& final(state)@ == (MarketStateV {
                config: (ConfigV {
                    mint_count: (old(state)@.config.mint_count + 1) as u64,
                    ..old(state)@.config
                }),
                ..old(state)@
            })
            &&& r matches Ok(m) ==> m@ == (OutboundMsgV::NftMint {
                registry: registry_addr(old(state)@),
                token_id: "GF."@ + dec_rep((old(state)@.config.mint_count + 1) as nat),
                owner: msg@.owner,
                image_uri: msg@.image_uri,
                metadata: (MetadataV {
                    name: msg@.name,
                    description: msg@.description,
                    external_link: msg@.external_link,
                    collection: Some(1u128),
                    num_real_repr: msg@.num_real_repr,
                    num_nfts: msg@.num_nfts,
                    royalties: msg@.royalties,
                    init_price: msg@.init_price,
                }),
            })
        },
{
    if read_minter_info(state, sender).is_none() {
        return Err(ContractError::Unauthorized);
    }
    let registry = match read_nft_address(state) {
        Ok(a) => a,
        Err(e) => {
            return Err(e);
        },
    };
    let ghost sch = msg.royalties.deep_view();
    let n = msg.royalties.len();
    let mut sum: u128 = 0;
    let mut i: usize = 0;
    while i < n
        invariant
            *state == *old(state),
            old(state)@.minters.contains(sender@),
            old(state)@.nft_address is Some,
            sch == msg.royalties.deep_view(),
            n == msg.royalties@.len(),
            0 <= i <= n,
            sum as int == rates_sum(sch, i as int),
            sum <= RATE_ONE,
        decreases n - i,
    {
        let rate = msg.royalties[i].royalty_rate;
        proof {
            assert(sch[i as int].royalty_rate == rate);
        }
        if rate > RATE_ONE - sum {
            proof {
                lemma_rates_sum_mono(sch, i + 1, n as int);
            }
            return Err(ContractError::InvalidRoyaltyRate);
        }
        sum = sum + rate;
        i += 1;
    }
    let mut config = read_config(state);
    config.mint_count = config.mint_count + 1;
    let count = config.mint_count;
    store_config(state, &config);
    let digits = u64_to_dec_string(count);
    let mut token_id = "GF.".to_owned();
    token_id.append(digits.as_str());
    Ok(
        OutboundMsg::NftMint {
            registry,
            token_id,
            owner: msg.owner,
            image_uri: msg.image_uri,
            metadata: Metadata {
                name: msg.name,
                description: msg.description,
                external_link: msg.external_link,
                collection: Some(1u128),
                num_real_repr: msg.num_real_repr,
                num_nfts: msg.num_nfts,
                royalties: msg.royalties,
                init_price: msg.init_price,
            },
        },
    )
}

/// Places an NFT on auction: creates a fresh listing under the next
/// listing key, persists the advanced listing counter, and emits the two
/// escrow messages — an approval for the marketplace until expiry, then a
/// custody transfer to the marketplace.
pub fn execute_place_listing(
    state: &mut MarketState,
    height: u64,
    contract_address: &String,
    id: String,
    minimum_bid: Asset,
    sender: String,
) -> (r: Result<Vec<OutboundMsg>, ContractError>)
    requires
        old(state).inv(),
        old(state)@.config.listing_count < u64::MAX,
        height + old(state)@.config.max_auction_duration_blocks <= u64::MAX,
    ensures
        final(state).inv(),
        r is Err ==> final(state)@ == old(state)@,
        old(state)@.nft_address is None ==> r == Err::<Vec<OutboundMsg>, ContractError>(
            ContractError::NotConfigured,
        ),
        old(state)@.nft_address is Some ==> {
            let registry = registry_addr(old(state)@);
            let key = dec_rep((old(state)@.config.listing_count + 1) as nat);
            let expiry = (height + old(state)@.config.max_auction_duration_blocks) as u64;
            &&& r is Ok
            &&& final(state)@ == (MarketStateV {
                config: (ConfigV {
                    listing_count: (old(state)@.config.listing_count + 1) as u64,
                    ..old(state)@.config
                }),
                listings: old(state)@.listings.insert(
                    key,
                    placed_listing(id@, registry, sender@, minimum_bid@, expiry),
                ),
                ..old(state)@
            })
            &&& r matches Ok(msgs) ==> msgs.deep_view() == seq![
                (OutboundMsgV::NftApprove {
                    registry,
                    spender: contract_address@,
                    token_id: id@,
                    expires_height: expiry,
                }),
                (OutboundMsgV::NftTransfer {
                    registry,
                    recipient: contract_address@,
                    token_id: id@,
                }),
            ]
        },
{
    let ghost idv = id@;
    let registry = match read_nft_address(state) {
        Ok(a) => a,
        Err(e) => {
            return Err(e);
        },
    };
    let mut config = read_config(state);
    config.listing_count = config.listing_count + 1;
    let expiry = height + config.max_auction_duration_blocks;
    let listing = Listing {
        token_id: id.clone(),
        contract_addr: registry.clone(),
        seller: sender,
        max_bid: minimum_bid,
        max_bidder: None,
        block_limit: expiry,
    };
    let key = u64_to_dec_string(config.listing_count);
    state.listings.save(&key, listing);
    store_config(state, &config);
    let mut msgs: Vec<OutboundMsg> = Vec::new();
    let ghost before0 = msgs.deep_view();
    msgs.push(
        OutboundMsg::NftApprove {
            registry: registry.clone(),
            spender: contract_address.clone(),
            token_id: id.clone(),
            expires_height: expiry,
        },
    );
    let ghost before1 = msgs.deep_view();
    msgs.push(
        OutboundMsg::NftTransfer { registry, recipient: contract_address.clone(), token_id: id },
    );
    proof {
        assert(msgs.deep_view() =~= seq![
            (OutboundMsgV::NftApprove {
                registry: registry_addr(old(state)@),
                spender: contract_address@,
                token_id: idv,
                expires_height: expiry,
            }),
            (OutboundMsgV::NftTransfer {
                registry: registry_addr(old(state)@),
                recipient: contract_address@,
                token_id: idv,
            }),
        ]);
    }
    Ok(msgs)
}

/// Accepts a bid against an open listing: validates the attached payment,
/// the listing's existence, its expiry, the currency and the amount, then
/// commits the new leader to the registry before building the refund of
/// the previous leading bid — the previous leader, if there was one,
/// receives exactly the bid it lost.
pub fn execute_bid_listing(
    state: &mut MarketState,
    height: u64,
    listing_id: &String,
    bid_price: Asset,
    sender: String,
    funds: &Vec<Coin>,
) -> (r: Result<Option<OutboundMsg>, ContractError>)
    requires
        old(state).inv(),
    ensures
        final(state).inv(),
        r is Err ==> final(state)@ == old(state)@,
        !incoming_ok(bid_price@, funds.deep_view()) ==> r == Err::<
            Option<OutboundMsg>,
            ContractError,
        >(ContractError::InsufficientFundsSend),
        incoming_ok(bid_price@, funds.deep_view()) && !old(state)@.listings.contains_key(
            listing_id@,
        ) ==> r == Err::<Option<OutboundMsg>, ContractError>(ContractError::NotFound),
        incoming_ok(bid_price@, funds.deep_view()) && old(state)@.listings.contains_key(
            listing_id@,
        ) ==> {
            let l = old(state)@.listings[listing_id@];
            &&& height > l.block_limit ==> r == Err::<Option<OutboundMsg>, ContractError>(
                ContractError::AuctionEnded,
            )
            &&& height <= l.block_limit && bid_price@.info != l.max_bid.info ==> r == Err::<
                Option<OutboundMsg>,
                ContractError,
            >(ContractError::AssetInfoMismatch)
            &&& height <= l.block_limit && bid_price@.info == l.max_bid.info && bid_price@.amount
                < l.max_bid.amount ==> r == Err::<Option<OutboundMsg>, ContractError>(
                ContractError::InsufficientFundsSend,
            )
            &&& bid_accepted(l, bid_price@, height) ==> {
                &&& r is Ok
                &&& final(state)@ == (MarketStateV {
                    listings: old(state)@.listings.insert(
                        listing_id@,
                        bid_step(l, bid_price@, sender@),
                    ),
                    ..old(state)@
                })
                &&& r matches Ok(refund) ==> match l.max_bidder {
                    Some(b) => refund matches Some(m) && m@ == transfer_msg(l.max_bid, b),
                    None => refund is None,
                }
            }
        },
{
    match validate_incoming(&bid_price, funds) {
        Ok(_) => {},
        Err(e) => {
            return Err(e);
        },
    }
    let listing = match state.listings.may_load(listing_id) {
        None => {
            return Err(ContractError::NotFound);
        },
        Some(l) => l,
    };
    if listing.block_limit < height {
        return Err(ContractError::AuctionEnded);
    }
    if !(bid_price.info == listing.max_bid.info) {
        return Err(ContractError::AssetInfoMismatch);
    }
    if bid_price.amount < listing.max_bid.amount {
        return Err(ContractError::InsufficientFundsSend);
    }
    let new_listing = Listing {
        token_id: listing.token_id.clone(),
        contract_addr: listing.contract_addr.clone(),
        seller: listing.seller.clone(),
        max_bid: bid_price,
        max_bidder: Some(sender),
        block_limit: listing.block_limit,
    };
    state.listings.save(listing_id, new_listing);
    let refund = match &listing.max_bidder {
        Some(b) => Some(to_outbound_message(&listing.max_bid, b)),
        None => None,
    };
    Ok(refund)
}

/// Ends an auction: the record leaves the registry before any message is
/// built, so a second withdrawal of the same key answers `NotFound`. An
/// unsold listing hands the NFT back to the seller; a sold one hands it to
/// the winning bidder, and settlement follows from the removed record.
pub fn execute_withdraw_listing(state: &mut MarketState, height: u64, listing_id: &String) -> (r:
    Result<Withdrawal, ContractError>)
    requires
        old(state).inv(),
    ensures
        final(state).inv(),
        r is Err ==> final(state)@ == old(state)@,
        !old(state)@.listings.contains_key(listing_id@) ==> r == Err::<Withdrawal, ContractError>(
            ContractError::NotFound,
        ),
        old(state)@.listings.contains_key(listing_id@) ==> {
            let l = old(state)@.listings[listing_id@];
            &&& l.block_limit >= height ==> r == Err::<Withdrawal, ContractError>(
                ContractError::AuctionNotEnded,
            )
            &&& l.block_limit < height ==> {
                &&& r is Ok
                &&& final(state)@ == (MarketStateV {
                    listings: old(state)@.listings.remove(listing_id@),
                    ..old(state)@
                })
                &&& r matches Ok(w) ==> match l.max_bidder {
                    None => w@ == (WithdrawalV::Unsold {
                        return_nft: (OutboundMsgV::NftTransfer {
                            registry: l.contract_addr,
                            recipient: l.seller,
                            token_id: l.token_id,
                        }),
                    }),
                    Some(b) => w@ == (WithdrawalV::Sold {
                        transfer_nft: (OutboundMsgV::NftTransfer {
                            registry: l.contract_addr,
                            recipient: b,
                            token_id: l.token_id,
                        }),
                        listing: l,
                    }),
                }
            }
        },
{
    let listing = match state.listings.may_load(listing_id) {
        None => {
            return Err(ContractError::NotFound);
        },
        Some(l) => l,
    };
    if listing.block_limit >= height {
        return Err(ContractError::AuctionNotEnded);
    }
    let _ = state.listings.remove(listing_id);
    let bidder = match &listing.max_bidder {
        Some(b) => Some(b.clone()),
        None => None,
    };
    match bidder {
        None => Ok(
            Withdrawal::Unsold {
                return_nft: OutboundMsg::NftTransfer {
                    registry: listing.contract_addr.clone(),
                    recipient: listing.seller.clone(),
                    token_id: listing.token_id.clone(),
                },
            },
        ),
        Some(b) => {
            let transfer = OutboundMsg::NftTransfer {
                registry: listing.contract_addr.clone(),
                recipient: b,
                token_id: listing.token_id.clone(),
            };
            Ok(Withdrawal::Sold { transfer_nft: transfer, listing })
        },
    }
}

/// Builds the settlement payments for a sold listing: one payment per
/// royalty-schedule entry, in schedule order, then the residual to the
/// seller, all in the listing's currency; together they pay out the
/// leading bid exactly. Fails with `ArithmeticUnderflow` exactly when the
/// schedule overdraws the proceeds.
pub fn settle_proceeds(listing: &Listing, royalties: &Vec<crate::state::Royalty>) -> (r: Result<
    Vec<OutboundMsg>,
    ContractError,
>)
    ensures
        r is Ok <==> can_distribute(listing@.max_bid.amount, royalties.deep_view()),
        r matches Ok(msgs) ==> {
            let sch = royalties.deep_view();
            let amt = listing@.max_bid.amount;
            &&& msgs.deep_view().len() == sch.len() + 1
            &&& forall|i: int|
                0 <= i < sch.len() ==> msgs.deep_view()[i] == transfer_msg(
                    (AssetV {
                        info: listing@.max_bid.info,
                        amount: cut_of(amt, sch[i].royalty_rate) as u128,
                    }),
                    sch[i].address,
                )
            &&& msgs.deep_view()[sch.len() as int] == transfer_msg(
                (AssetV {
                    info: listing@.max_bid.info,
                    amount: rem_after(amt, sch, sch.len() as int) as u128,
                }),
                listing@.seller,
            )
        },
        r is Err ==> r == Err::<Vec<OutboundMsg>, ContractError>(ContractError::ArithmeticUnderflow),
{
    let ghost sch = royalties.deep_view();
    let ghost amt = listing@.max_bid.amount;
    let (cuts, residual) = match distribute(listing.max_bid.amount, royalties) {
        Ok(p) => p,
        Err(e) => {
            return Err(e);
        },
    };
    let mut msgs: Vec<OutboundMsg> = Vec::new();
    let n = cuts.len();
    let mut i: usize = 0;
    while i < n
        invariant
            sch == royalties.deep_view(),
            amt == listing@.max_bid.amount,
            n == cuts@.len(),
            n == sch.len(),
            0 <= i <= n,
            forall|j: int|
                0 <= j < n ==> cuts.deep_view()[j] == (crate::royalty::RoyaltyPaymentV {
                    address: sch[j].address,
                    amount: cut_of(amt, sch[j].royalty_rate) as u128,
                }),
            msgs.deep_view().len() == i,
            forall|j: int|
                0 <= j < i ==> msgs.deep_view()[j] == transfer_msg(
                    (AssetV {
                        info: listing@.max_bid.info,
                        amount: cut_of(amt, sch[j].royalty_rate) as u128,
                    }),
                    sch[j].address,
                ),
        decreases n - i,
    {
        let asset = Asset { info: listing.max_bid.info.clone(), amount: cuts[i].amount };
        let ghost before = msgs.deep_view();
        let m = to_outbound_message(&asset, &cuts[i].address);
        let ghost mv = m@;
        msgs.push(m);
        proof {
            assert(cuts.deep_view()[i as int] == (crate::royalty::RoyaltyPaymentV {
                address: sch[i as int].address,
                amount: cut_of(amt, sch[i as int].royalty_rate) as u128,
            }));
            assert(mv == transfer_msg(
                (AssetV {
                    info: listing@.max_bid.info,
                    amount: cut_of(amt, sch[i as int].royalty_rate) as u128,
                }),
                sch[i as int].address,
            ));
            assert(msgs.deep_view() =~= before.push(mv));
        }
        i += 1;
    }
    let residual_asset = Asset { info: listing.max_bid.info.clone(), amount: residual };
    let ghost before = msgs.deep_view();
    let m = to_outbound_message(&residual_asset, &listing.seller);
    let ghost mv = m@;
    msgs.push(m);
    proof {
        assert(mv == transfer_msg(
            (AssetV {
                info: listing@.max_bid.info,
                amount: rem_after(amt, sch, sch.len() as int) as u128,
            }),
            listing@.seller,
        ));
        assert(msgs.deep_view() =~= before.push(mv));
    }
    Ok(msgs)
}

/// Handles a token contract's transfer notification: the attached amount
/// of the notifying contract's token, pre-validated by that contract,
/// funds either a bid or a placement, reusing those transitions.
pub fn receive_token(
    state: &mut MarketState,
    height: u64,
    contract_address: &String,
    token_contract: String,
    sender: String,
    amount: u128,
    msg: Cw20HookMsg,
) -> (r: Result<Vec<OutboundMsg>, ContractError>)
    requires
        old(state).inv(),
        old(state)@.config.listing_count < u64::MAX,
        height + old(state)@.config.max_auction_duration_blocks <= u64::MAX,
    ensures
        final(state).inv(),
        r is Err ==> final(state)@ == old(state)@,
        msg@ matches Cw20HookMsgV::BidListing { listing_id } ==> {
            let a = (AssetV {
                info: AssetInfoV::Token { contract_addr: token_contract@ },
                amount,
            });
            &&& !old(state)@.listings.contains_key(listing_id) ==> r == Err::<
                Vec<OutboundMsg>,
                ContractError,
            >(ContractError::NotFound)
            &&& old(state)@.listings.contains_key(listing_id) ==> {
                let l = old(state)@.listings[listing_id];
                &&& height > l.block_limit ==> r == Err::<Vec<OutboundMsg>, ContractError>(
                    ContractError::AuctionEnded,
                )
                &&& height <= l.block_limit && a.info != l.max_bid.info ==> r == Err::<
                    Vec<OutboundMsg>,
                    ContractError,
                >(ContractError::AssetInfoMismatch)
                &&& height <= l.block_limit && a.info == l.max_bid.info && a.amount
                    < l.max_bid.amount ==> r == Err::<Vec<OutboundMsg>, ContractError>(
                    ContractError::InsufficientFundsSend,
                )
                &&& bid_accepted(l, a, height) ==> {
                    &&& r is Ok
                    &&& final(state)@ == (MarketStateV {
                        listings: old(state)@.listings.insert(listing_id, bid_step(l, a, sender@)),
                        ..old(state)@
                    })
                    &&& r matches Ok(v) ==> match l.max_bidder {
                        Some(b) => v.deep_view() == seq![transfer_msg(l.max_bid, b)],
                        None => v.deep_view() == Seq::<OutboundMsgV>::empty(),
                    }
                }
            }
        },
        msg@ matches Cw20HookMsgV::PlaceListing { id } ==> {
            let a = (AssetV {
                info: AssetInfoV::Token { contract_addr: token_contract@ },
                amount,
            });
            &&& old(state)@.nft_address is None ==> r == Err::<Vec<OutboundMsg>, ContractError>(
                ContractError::NotConfigured,
            )
            &&& old(state)@.nft_address is Some ==> {
                let registry = registry_addr(old(state)@);
                let key = dec_rep((old(state)@.config.listing_count + 1) as nat);
                let expiry = (height + old(state)@.config.max_auction_duration_blocks) as u64;
                &&& r is Ok
                &&& final(state)@ == (MarketStateV {
                    config: (ConfigV {
                        listing_count: (old(state)@.config.listing_count + 1) as u64,
                        ..old(state)@.config
                    }),
                    listings: old(state)@.listings.insert(
                        key,
                        placed_listing(id, registry, sender@, a, expiry),
                    ),
                    ..old(state)@
                })
                &&& r matches Ok(msgs) ==> msgs.deep_view() == seq![
                    (OutboundMsgV::NftApprove {
                        registry,
                        spender: contract_address@,
                        token_id: id,
                        expires_height: expiry,
                    }),
                    (OutboundMsgV::NftTransfer {
                        registry,
                        recipient: contract_address@,
                        token_id: id,
                    }),
                ]
            }
        },
{
    let asset = Asset { info: AssetInfo::Token { contract_addr: token_contract }, amount };
    match msg {
        Cw20HookMsg::BidListing { listing_id } => {
            let empty_funds: Vec<Coin> = Vec::new();
            match execute_bid_listing(state, height, &listing_id, asset, sender, &empty_funds) {
                Ok(Some(m)) => {
                    let mut v: Vec<OutboundMsg> = Vec::new();
                    let ghost mv = m@;
                    v.push(m);
                    proof {
                        assert(v.deep_view() =~= seq![mv]);
                    }
                    Ok(v)
                },
                Ok(None) => {
                    let v: Vec<OutboundMsg> = Vec::new();
                    proof {
                        assert(v.deep_view() =~= Seq::<OutboundMsgV>::empty());
                    }
                    Ok(v)
                },
                Err(e) => Err(e),
            }
        },
        Cw20HookMsg::PlaceListing { id } => execute_place_listing(
            state,
            height,
            contract_address,
            id,
            asset,
            sender,
        ),
    }
}

} // verus!
