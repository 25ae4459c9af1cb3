//! Transactional core of an NFT auction marketplace: listing escrow,
//! competitive bidding, settlement with royalty distribution, and a
//! whitelist-gated minting path.
//!
//! The library is pure: every handler is a function from the current
//! market state and the inbound request to the next state and a list of
//! outbound message descriptors. The host shell around it performs the
//! actual storage, serialization and cross-contract calls.

pub mod asset;
pub mod contract;
pub mod error;
pub mod msg;
pub mod royalty;
pub mod state;

pub use error::ContractError;
