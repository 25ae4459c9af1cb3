use vstd::prelude::*;

use crate::asset::{Asset, AssetV};
use crate::error::ContractError;

verus! {

/// Auction duration applied to every listing, in host-chain height units.
pub const DEFAULT_EXPIRE_BLOCKS: u64 = 50_000;

/// Singleton configuration record. The two counters are independent: one
/// numbers minted tokens, the other numbers listings, and each is persisted
/// by the one handler that owns it, so two placements can never collide on
/// one key.
#[derive(Debug)]
pub struct Config {
    /// Number of listings placed so far; the next listing's key is the
    /// decimal representation of `listing_count + 1`.
    pub listing_count: u64,
    /// Number of tokens minted so far; the next token id is derived from
    /// `mint_count + 1`.
    pub mint_count: u64,
    /// The only address allowed to run the admin operations.
    pub owner: String,
    /// How many height units a listing stays open after placement.
    pub max_auction_duration_blocks: u64,
}

/// Mathematical image of [`Config`].
pub struct ConfigV {
    pub listing_count: u64,
    pub mint_count: u64,
    pub owner: Seq<char>,
    pub max_auction_duration_blocks: u64,
}

impl View for Config {
    type V = ConfigV;

    open spec fn view(&self) -> ConfigV {
        ConfigV {
            listing_count: self.listing_count,
            mint_count: self.mint_count,
            owner: self.owner@,
            max_auction_duration_blocks: self.max_auction_duration_blocks,
        }
    }
}

impl Clone for Config {
    fn clone(&self) -> (r: Config)
        ensures
            r@ == self@,
    {
        Config {
            listing_count: self.listing_count,
            mint_count: self.mint_count,
            owner: self.owner.clone(),
            max_auction_duration_blocks: self.max_auction_duration_blocks,
        }
    }
}

/// Marker record: its presence under an address authorizes that address to
/// mint.
#[derive(Clone, Copy, Debug, PartialEq, Eq, Structural)]
pub struct MinterInfo {}

/// One royalty-schedule entry: a recipient and its share of the settlement
/// amount, as a fixed-point fraction with denominator
/// [`crate::royalty::RATE_ONE`].
#[derive(Debug)]
pub struct Royalty {
    pub address: String,
    pub royalty_rate: u128,
}

/// Mathematical image of [`Royalty`].
pub struct RoyaltyV {
    pub address: Seq<char>,
    pub royalty_rate: u128,
}

impl View for Royalty {
    type V = RoyaltyV;

    open spec fn view(&self) -> RoyaltyV {
        RoyaltyV { address: self.address@, royalty_rate: self.royalty_rate }
    }
}

impl DeepView for Royalty {
    type V = RoyaltyV;

    open spec fn deep_view(&self) -> RoyaltyV {
        self@
    }
}

impl Clone for Royalty {
    fn clone(&self) -> (r: Royalty)
        ensures
            r@ == self@,
    {
        Royalty { address: self.address.clone(), royalty_rate: self.royalty_rate }
    }
}

/// Token metadata held by the external NFT registry; carried verbatim in the
/// mint instruction and read back at settlement for the royalty schedule.
#[derive(Debug)]
pub struct Metadata {
    pub name: String,
    pub description: Option<String>,
    pub external_link: Option<String>,
    pub collection: Option<u128>,
    pub num_real_repr: u128,
    pub num_nfts: u128,
    pub royalties: Vec<Royalty>,
    pub init_price: u128,
}

/// Mathematical image of [`Metadata`].
pub struct MetadataV {
    pub name: Seq<char>,
    pub description: Option<Seq<char>>,
    pub external_link: Option<Seq<char>>,
    pub collection: Option<u128>,
    pub num_real_repr: u128,
    pub num_nfts: u128,
    pub royalties: Seq<RoyaltyV>,
    pub init_price: u128,
}

impl View for Metadata {
    type V = MetadataV;

    open spec fn view(&self) -> MetadataV {
        MetadataV {
            name: self.name@,
            description: self.description.deep_view(),
            external_link: self.external_link.deep_view(),
            collection: self.collection,
            num_real_repr: self.num_real_repr,
            num_nfts: self.num_nfts,
            royalties: self.royalties.deep_view(),
            init_price: self.init_price,
        }
    }
}

/// An NFT held in escrow pending auction settlement.
///
/// `max_bidder` is `None` until the first bid is accepted; every accepted
/// bid strictly replaces bid and bidder. `block_limit` is fixed at creation
/// and never mutated.
#[derive(Debug)]
pub struct Listing {
    pub token_id: String,
    pub contract_addr: String,
    pub seller: String,
    pub max_bid: Asset,
    pub max_bidder: Option<String>,
    pub block_limit: u64,
}

/// Mathematical image of [`Listing`].
pub struct ListingV {
    pub token_id: Seq<char>,
    pub contract_addr: Seq<char>,
    pub seller: Seq<char>,
    pub max_bid: AssetV,
    pub max_bidder: Option<Seq<char>>,
    pub block_limit: u64,
}

impl View for Listing {
    type V = ListingV;

    open spec fn view(&self) -> ListingV {
        ListingV {
            token_id: self.token_id@,
            contract_addr: self.contract_addr@,
            seller: self.seller@,
            max_bid: self.max_bid@,
            max_bidder: self.max_bidder.deep_view(),
            block_limit: self.block_limit,
        }
    }
}

impl Clone for Listing {
    fn clone(&self) -> (r: Listing)
        ensures
            r@ == self@,
    {
        Listing {
            token_id: self.token_id.clone(),
            contract_addr: self.contract_addr.clone(),
            seller: self.seller.clone(),
            max_bid: self.max_bid.clone(),
            max_bidder: match &self.max_bidder {
                Some(b) => Some(b.clone()),
                None => None,
            },
            block_limit: self.block_limit,
        }
    }
}

struct BookEntry {
    key: String,
    listing: Listing,
}

/// The listing registry: a map from listing key to [`Listing`], stored as an
/// association list with pairwise-distinct keys.
pub struct ListingBook {
    entries: Vec<BookEntry>,
}

impl ListingBook {
    pub closed spec fn key_at(self, i: int) -> Seq<char> {
        self.entries@[i].key@
    }

    /// Keys are pairwise distinct.
    pub closed spec fn wf(self) -> bool {
        forall|i: int, j: int|
            0 <= i < j < self.entries@.len() ==> self.key_at(i) != self.key_at(j)
    }

    pub closed spec fn has_key(self, k: Seq<char>) -> bool {
        exists|i: int| 0 <= i < self.entries@.len() && self.key_at(i) == k
    }

    closed spec fn index_of(self, k: Seq<char>) -> int {
        choose|i: int| 0 <= i < self.entries@.len() && self.key_at(i) == k
    }

    proof fn lemma_key_unique(self, i: int, k: Seq<char>)
        requires
            self.wf(),
            0 <= i < self.entries@.len(),
            self.key_at(i) == k,
        ensures
            self.has_key(k),
            self@.contains_key(k),
            self.index_of(k) == i,
            self@[k] == self.entries@[i].listing@,
    {
        assert(self.has_key(k));
        let j = self.index_of(k);
        assert(0 <= j < self.entries@.len() && self.key_at(j) == k);
        if i < j {
            assert(self.key_at(i) != self.key_at(j));
        } else if j < i {
            assert(self.key_at(j) != self.key_at(i));
        }
    }

    pub fn new() -> (r: ListingBook)
        ensures
            r.wf(),
            r@ == Map::<Seq<char>, ListingV>::empty(),
    {
        let r = ListingBook { entries: Vec::new() };
        proof {
            assert(r@ =~= Map::<Seq<char>, ListingV>::empty());
        }
        r
    }

    /// Looks a listing up by key, handing back a copy.
    pub fn may_load(&self, key: &String) -> (r: Option<Listing>)
        requires
            self.wf(),
        ensures
            match r {
                Some(l) => self@.contains_key(key@) && l@ == self@[key@],
                None => !self@.contains_key(key@),
            },
    {
        let n = self.entries.len();
        let mut i: usize = 0;
        while i < n
            invariant
                self.wf(),
                n == self.entries@.len(),
                0 <= i <= n,
                forall|j: int| 0 <= j < i ==> self.key_at(j) != key@,
            decreases n - i,
        {
            if self.entries[i].key == *key {
                proof {
                    self.lemma_key_unique(i as int, key@);
                }
                return Some(self.entries[i].listing.clone());
            }
            i += 1;
        }
        proof {
            if self.has_key(key@) {
                let w = choose|j: int|
                    0 <= j < self.entries@.len() && self.key_at(j) == key@;
                assert(self.key_at(w) != key@);
            }
        }
        None
    }

    /// Removes the entry under `key`, handing back the listing that was
    /// stored there, if any.
    pub fn remove(&mut self, key: &String) -> (r: Option<Listing>)
        requires
            old(self).wf(),
        ensures
            final(self).wf(),
            final(self)@ == old(self)@.remove(key@),
            match r {
                Some(l) => old(self)@.contains_key(key@) && l@ == old(self)@[key@],
                None => !old(self)@.contains_key(key@),
            },
    {
        let n = self.entries.len();
        let mut i: usize = 0;
        while i < n
            invariant
                *self == *old(self),
                self.wf(),
                n == self.entries@.len(),
                0 <= i <= n,
                forall|j: int| 0 <= j < i ==> self.key_at(j) != key@,
            decreases n - i,
        {
            if self.entries[i].key == *key {
                proof {
                    self.lemma_key_unique(i as int, key@);
                }
                let e = self.entries.remove(i);
                proof {
                    self.lemma_after_removal(*old(self), i as int, key@);
                }
                return Some(e.listing);
            }
            i += 1;
        }
        proof {
            if self.has_key(key@) {
                let w = choose|j: int|
                    0 <= j < self.entries@.len() && self.key_at(j) == key@;
                assert(self.key_at(w) != key@);
            }
            assert(self@ =~= self@.remove(key@));
        }
        None
    }

    proof fn lemma_after_removal(self, prev: ListingBook, i: int, k: Seq<char>)
        requires
            prev.wf(),
            0 <= i < prev.entries@.len(),
            prev.key_at(i) == k,
            self.entries@ == prev.entries@.remove(i),
        ensures
            self.wf(),
            self@ == prev@.remove(k),
    {
        let s = prev.entries@;
        let s2 = self.entries@;
        assert forall|j: int| 0 <= j < s2.len() implies s2[j] == (
        if j < i {
            s[j]
        } else {
            s[j + 1]
        }) by {
            assert(s2 == s.subrange(0, i) + s.subrange(i + 1, s.len() as int));
        }
        assert(self.wf()) by {
            assert forall|a: int, b: int|
                0 <= a < b < s2.len() implies self.key_at(a) != self.key_at(b) by {
                let a2 = if a < i { a } else { a + 1 };
                let b2 = if b < i { b } else { b + 1 };
                assert(prev.key_at(a2) != prev.key_at(b2));
            }
        }
        assert forall|k2: Seq<char>| #[trigger] self.has_key(k2) implies prev.has_key(k2)
            && k2 != k by {
            let j = choose|j: int| 0 <= j < s2.len() && self.key_at(j) == k2;
            let j2 = if j < i { j } else { j + 1 };
            assert(prev.key_at(j2) == k2);
            if j2 != i {
                prev.lemma_key_unique(i, k);
                prev.lemma_key_unique(j2, k2);
            }
        }
        assert forall|k2: Seq<char>| prev.has_key(k2) && k2 != k implies #[trigger] self.has_key(
            k2,
        ) by {
            let j2 = choose|j: int| 0 <= j < s.len() && prev.key_at(j) == k2;
            if j2 != i {
                let j = if j2 < i { j2 } else { j2 - 1 };
                assert(self.key_at(j) == k2);
            }
        }
        assert(self@ =~= prev@.remove(k)) by {
            assert forall|k2: Seq<char>| #[trigger] self@.contains_key(k2) implies prev@.remove(
                k,
            ).contains_key(k2) && self@[k2] == prev@.remove(k)[k2] by {
                let j = choose|j: int| 0 <= j < s2.len() && self.key_at(j) == k2;
                let j2 = if j < i { j } else { j + 1 };
                self.lemma_key_unique(j, k2);
                prev.lemma_key_unique(j2, k2);
            }
            assert forall|k2: Seq<char>| prev@.remove(k).contains_key(k2) implies self@.contains_key(
                k2,
            ) by {
                assert(prev.has_key(k2));
            }
        }
    }

    /// The keys of all current listings, in storage order.
    pub fn keys(&self) -> (r: Vec<String>)
        requires
            self.wf(),
        ensures
            forall|i: int|
                0 <= i < r.deep_view().len() ==> self@.contains_key(#[trigger] r.deep_view()[i]),
            forall|k: Seq<char>| #[trigger] self@.contains_key(k) ==> r.deep_view().contains(k),
    {
        let n = self.entries.len();
        let mut out: Vec<String> = Vec::new();
        let mut i: usize = 0;
        while i < n
            invariant
                self.wf(),
                n == self.entries@.len(),
                0 <= i <= n,
                out.deep_view().len() == i,
                forall|j: int| 0 <= j < i ==> out.deep_view()[j] == self.key_at(j),
            decreases n - i,
        {
            let ghost before = out.deep_view();
            out.push(self.entries[i].key.clone());
            proof {
                assert(out.deep_view() =~= before.push(self.key_at(i as int)));
            }
            i += 1;
        }
        proof {
            assert forall|j: int|
                0 <= j < out.deep_view().len() implies self@.contains_key(
                #[trigger] out.deep_view()[j],
            ) by {
                self.lemma_key_unique(j, self.key_at(j));
            }
            assert forall|k: Seq<char>| #[trigger] self@.contains_key(k) implies out.deep_view()
                .contains(k) by {
                assert(self.has_key(k));
                let w = choose|w: int| 0 <= w < self.entries@.len() && self.key_at(w) == k;
                assert(out.deep_view()[w] == k);
            }
        }
        out
    }

    /// Writes `listing` under `key`, replacing what was there.
    pub fn save(&mut self, key: &String, listing: Listing)
        requires
            old(self).wf(),
        ensures
            final(self).wf(),
            final(self)@ == old(self)@.insert(key@, listing@),
    {
        let _ = self.remove(key);
        let ghost mid = *self;
        let ghost lv = listing@;
        let entry = BookEntry { key: key.clone(), listing };
        let ghost e = entry;
        self.entries.push(entry);
        proof {
            let s = mid.entries@;
            let s2 = self.entries@;
            assert(s2 == s.push(e));
            assert(s2.len() == s.len() + 1);
            assert(e.key@ == key@ && e.listing@ == lv);
            assert(self.key_at(s.len() as int) == key@);
            assert(!mid.has_key(key@)) by {
                if mid.has_key(key@) {
                    assert(mid@.contains_key(key@));
                }
            }
            assert(self.wf()) by {
                assert forall|a: int, b: int|
                    0 <= a < b < s2.len() implies self.key_at(a) != self.key_at(b) by {
                    if b < s.len() {
                        assert(mid.key_at(a) != mid.key_at(b));
                    } else {
                        if mid.key_at(a) == key@ {
                            assert(mid.has_key(key@));
                        }
                    }
                }
            }
            assert(self@ =~= mid@.insert(key@, lv)) by {
                assert forall|k2: Seq<char>| #[trigger] self@.contains_key(k2) implies mid@.insert(
                    key@,
                    lv,
                ).contains_key(k2) && self@[k2] == mid@.insert(key@, lv)[k2] by {
                    let j = choose|j: int| 0 <= j < s2.len() && self.key_at(j) == k2;
                    self.lemma_key_unique(j, k2);
                    if j < s.len() {
                        mid.lemma_key_unique(j, k2);
                        if k2 == key@ {
                            assert(mid.has_key(key@));
                        }
                    }
                }
                assert forall|k2: Seq<char>|
                    mid@.insert(key@, lv).contains_key(k2) implies self@.contains_key(k2) by {
                    if k2 == key@ {
                        assert(self.key_at(s.len() as int) == k2);
                    } else {
                        assert(mid.has_key(k2));
                        let j = choose|j: int| 0 <= j < s.len() && mid.key_at(j) == k2;
                        assert(self.key_at(j) == k2);
                    }
                }
            }
            assert(mid@.insert(key@, lv) =~= old(self)@.insert(key@, lv));
        }
    }
}

impl View for ListingBook {
    type V = Map<Seq<char>, ListingV>;

    closed spec fn view(&self) -> Map<Seq<char>, ListingV> {
        Map::new(|k: Seq<char>| self.has_key(k), |k: Seq<char>| self.entries@[self.index_of(k)].listing@)
    }
}

/// The whole persisted state of the marketplace: the configuration
/// singleton, the registered NFT-registry address, the minter whitelist and
/// the listing registry.
pub struct MarketState {
    pub config: Config,
    pub nft_address: Option<String>,
    pub minters: Vec<String>,
    pub listings: ListingBook,
}

/// Mathematical image of [`MarketState`].
pub struct MarketStateV {
    pub config: ConfigV,
    pub nft_address: Option<Seq<char>>,
    pub minters: Seq<Seq<char>>,
    pub listings: Map<Seq<char>, ListingV>,
}

impl View for MarketState {
    type V = MarketStateV;

    open spec fn view(&self) -> MarketStateV {
        MarketStateV {
            config: self.config@,
            nft_address: self.nft_address.deep_view(),
            minters: self.minters.deep_view(),
            listings: self.listings@,
        }
    }
}

impl MarketState {
    /// Structural well-formedness: listing keys and whitelist entries are
    /// pairwise distinct. Established at instantiation, preserved by every
    /// handler.
    pub open spec fn inv(self) -> bool {
        &&& self.listings.wf()
        &&& forall|i: int, j: int|
            0 <= i < j < self.minters@.len() ==> self.minters.deep_view()[i]
                != self.minters.deep_view()[j]
    }
}

/// Overwrites the configuration singleton.
pub fn store_config(state: &mut MarketState, data: &Config)
    ensures
        final(state)@ == (MarketStateV { config: data@, ..old(state)@ }),
        old(state).inv() ==> final(state).inv(),
{
    state.config = data.clone();
}

/// Reads the configuration singleton.
pub fn read_config(state: &MarketState) -> (c: Config)
    ensures
        c@ == state@.config,
{
    state.config.clone()
}

/// Registers an address as a whitelisted minter; registering an address a
/// second time changes nothing.
pub fn store_minters(state: &mut MarketState, minter: String, _minter_info: MinterInfo)
    ensures
        old(state)@.minters.contains(minter@) ==> final(state)@ == old(state)@,
        !old(state)@.minters.contains(minter@) ==> final(state)@ == (MarketStateV {
            minters: old(state)@.minters.push(minter@),
            ..old(state)@
        }),
        final(state)@.minters.contains(minter@),
        old(state).inv() ==> final(state).inv(),
{
    let n = state.minters.len();
    let mut i: usize = 0;
    while i < n
        invariant
            *state == *old(state),
            n == state.minters@.len(),
            0 <= i <= n,
            forall|j: int| 0 <= j < i ==> state.minters.deep_view()[j] != minter@,
        decreases n - i,
    {
        if state.minters[i] == minter {
            proof {
                assert(state.minters.deep_view()[i as int] == minter@);
            }
            return ;
        }
        i += 1;
    }
    proof {
        if state.minters.deep_view().contains(minter@) {
            let w = choose|j: int|
                0 <= j < state.minters.deep_view().len() && state.minters.deep_view()[j]
                    == minter@;
            assert(state.minters.deep_view()[w] != minter@);
        }
    }
    let ghost mv = minter@;
    let ghost prev = *state;
    state.minters.push(minter);
    proof {
        assert(state.minters.deep_view() =~= prev.minters.deep_view().push(mv));
        assert(state.minters.deep_view()[state.minters@.len() - 1] == mv);
        if prev.inv() {
            assert forall|i2: int, j2: int|
                0 <= i2 < j2 < state.minters@.len() implies state.minters.deep_view()[i2]
                != state.minters.deep_view()[j2] by {
                if j2 < prev.minters@.len() {
                    assert(prev.minters.deep_view()[i2] != prev.minters.deep_view()[j2]);
                } else {
                    assert(state.minters.deep_view()[i2] == prev.minters.deep_view()[i2]);
                }
            }
        }
    }
}

/// Strikes an address from the minter whitelist; removing an address that
/// is not listed changes nothing.
pub fn remove_minter(state: &mut MarketState, minter: &String)
    ensures
        !old(state)@.minters.contains(minter@) ==> final(state)@ == old(state)@,
        old(state)@.minters.contains(minter@) ==> exists|i: int|
            0 <= i < old(state)@.minters.len() && old(state)@.minters[i] == minter@
                && final(state)@ == (MarketStateV {
                minters: old(state)@.minters.remove(i),
                ..old(state)@
            }),
        old(state).inv() ==> final(state).inv() && !final(state)@.minters.contains(minter@),
{
    let n = state.minters.len();
    let mut i: usize = 0;
    while i < n
        invariant
            *state == *old(state),
            n == state.minters@.len(),
            0 <= i <= n,
            forall|j: int| 0 <= j < i ==> state.minters.deep_view()[j] != minter@,
        decreases n - i,
    {
        if state.minters[i] == *minter {
            proof {
                assert(state.minters.deep_view()[i as int] == minter@);
            }
            let ghost prev = *state;
            let _ = state.minters.remove(i);
            proof {
                let dv = prev.minters.deep_view();
                let dv2 = state.minters.deep_view();
                assert(dv2 =~= dv.remove(i as int)) by {
                    assert(state.minters@ == prev.minters@.remove(i as int));
                    assert forall|j: int| 0 <= j < dv2.len() implies dv2[j] == dv.remove(
                        i as int,
                    )[j] by {
                        assert(state.minters@[j] == prev.minters@.remove(i as int)[j]);
                    }
                }
                assert(dv.contains(minter@)) by {
                    assert(dv[i as int] == minter@);
                }
                if prev.inv() {
                    assert forall|a: int, b: int|
                        0 <= a < b < dv2.len() implies dv2[a] != dv2[b] by {
                        let a2 = if a < i { a } else { a + 1 };
                        let b2 = if b < i { b } else { b + 1 };
                        assert(dv[a2] != dv[b2]);
                    }
                    if dv2.contains(minter@) {
                        let w = choose|j: int| 0 <= j < dv2.len() && dv2[j] == minter@;
                        let w2 = if w < i { w } else { w + 1 };
                        assert(dv[w2] == minter@ && dv[i as int] == minter@ && w2 != i);
                        assert(false);
                    }
                }
            }
            return ;
        }
        i += 1;
    }
    proof {
        if state.minters.deep_view().contains(minter@) {
            let w = choose|j: int|
                0 <= j < state.minters.deep_view().len() && state.minters.deep_view()[j]
                    == minter@;
            assert(state.minters.deep_view()[w] != minter@);
        }
    }
}

/// Registers the external NFT registry's address.
pub fn store_nft_address(state: &mut MarketState, nft_address: String)
    ensures
        final(state)@ == (MarketStateV {
            nft_address: Some(nft_address@),
            ..old(state)@
        }),
        old(state).inv() ==> final(state).inv(),
{
    state.nft_address = Some(nft_address);
}

/// Reads the registered NFT registry address; fails with `NotConfigured`
/// while none has been set.
pub fn read_nft_address(state: &MarketState) -> (r: Result<String, ContractError>)
    ensures
        match state@.nft_address {
            Some(a) => r is Ok && (r matches Ok(s) ==> s@ == a),
            None => r == Err::<String, ContractError>(ContractError::NotConfigured),
        },
{
    match &state.nft_address {
        Some(a) => Ok(a.clone()),
        None => Err(ContractError::NotConfigured),
    }
}

/// Hands back the full minter whitelist, in registration order.
pub fn read_minters(state: &MarketState) -> (r: Vec<String>)
    ensures
        r.deep_view() == state@.minters,
{
    let n = state.minters.len();
    let mut out: Vec<String> = Vec::new();
    let mut i: usize = 0;
    while i < n
        invariant
            n == state.minters@.len(),
            0 <= i <= n,
            out.deep_view() == state.minters.deep_view().take(i as int),
        decreases n - i,
    {
        let ghost before = out.deep_view();
        out.push(state.minters[i].clone());
        proof {
            assert(out.deep_view() =~= before.push(state.minters.deep_view()[i as int]));
            assert(state.minters.deep_view().take(i + 1) =~= state.minters.deep_view().take(
                i as int,
            ).push(state.minters.deep_view()[i as int]));
        }
        i += 1;
    }
    proof {
        assert(state.minters.deep_view().take(n as int) =~= state.minters.deep_view());
    }
    out
}

/// Tells whether an address is a whitelisted minter.
pub fn read_minter_info(state: &MarketState, minter: &String) -> (r: Option<MinterInfo>)
    ensures
        r is Some <==> state@.minters.contains(minter@),
{
    let n = state.minters.len();
    let mut i: usize = 0;
    while i < n
        invariant
            n == state.minters@.len(),
            0 <= i <= n,
            forall|j: int| 0 <= j < i ==> state.minters.deep_view()[j] != minter@,
        decreases n - i,
    {
        if state.minters[i] == *minter {
            proof {
                assert(state.minters.deep_view()[i as int] == minter@);
            }
            return Some(MinterInfo {  });
        }
        i += 1;
    }
    proof {
        if state.minters.deep_view().contains(minter@) {
            let w = choose|j: int|
                0 <= j < state.minters.deep_view().len() && state.minters.deep_view()[j]
                    == minter@;
            assert(state.minters.deep_view()[w] != minter@);
        }
    }
    None
}

/// The decimal digit for one value below ten.
pub open spec fn dec_digit(d: nat) -> char {
    if d == 0 {
        '0'
    } else if d == 1 {
        '1'
    } else if d == 2 {
        '2'
    } else if d == 3 {
        '3'
    } else if d == 4 {
        '4'
    } else if d == 5 {
        '5'
    } else if d == 6 {
        '6'
    } else if d == 7 {
        '7'
    } else if d == 8 {
        '8'
    } else {
        '9'
    }
}

/// The base-10 representation of `n`: most significant digit first, no
/// sign and no leading zero.
pub open spec fn dec_rep(n: nat) -> Seq<char>
    decreases n,
{
    if n < 10 {
        seq![dec_digit(n)]
    } else {
        dec_rep(n / 10).push(dec_digit(n % 10))
    }
}

/// Relies on std's `ToString` for `u64`: the base-10 digits of the value,
/// most significant first, with no sign, no padding and no leading zero.
#[verifier::external_body]
pub(crate) fn u64_to_dec_string(n: u64) -> (r: String)
    ensures
        r@ == dec_rep(n as nat),
{
    n.to_string()
}

} // verus!
