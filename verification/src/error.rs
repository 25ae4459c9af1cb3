use vstd::prelude::*;

verus! {

/// Every way a handler invocation can fail. A failure aborts the whole
/// invocation: no state mutation and no outbound message survives it.
#[derive(Clone, Copy, Debug, PartialEq, Eq, Structural)]
pub enum ContractError {
    /// The sender fails an owner or whitelist check.
    Unauthorized,
    /// The NFT registry address has not been configured yet.
    NotConfigured,
    /// A bid arrived after the listing's expiry height.
    AuctionEnded,
    /// A withdrawal was attempted at or before the expiry height.
    AuctionNotEnded,
    /// The bid's currency differs from the listing's currency.
    AssetInfoMismatch,
    /// The bid is below the current leading bid, or the attached native
    /// payment does not match the declared amount.
    InsufficientFundsSend,
    /// A royalty schedule's rates sum to more than one.
    InvalidRoyaltyRate,
    /// No listing exists under the given key.
    NotFound,
    /// Royalty settlement would pay out more than the proceeds.
    ArithmeticUnderflow,
}

} // verus!
