//! Construction, fee balancing and key-path signing of Taproot (P2TR)
//! transactions for a custodial wallet.

pub mod types;
pub mod select;
pub mod builder;
pub mod bitcoin_ops;
pub mod sign;
pub mod fee;
pub mod wallet;
