//! Delegated-custody authorization engine: portfolios owned by public keys,
//! agent delegation, nonce-gated authorization, intent validation, canonical
//! digests and the aggregation of threshold-signing results.

pub mod error;
pub mod flows;
pub mod hashing;
pub mod intents;
pub mod keys;
pub mod laws;
pub mod registry;
pub mod signature;
pub mod signing;
pub mod utils;
