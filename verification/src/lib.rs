//! Core of a cross-chain NFT bridge: a single trusted gateway identity may
//! trigger mints of supply-one asset-instances on the home ledger, and holders
//! may lock an instance into bridge custody to move it to another chain.
//!
//! The crate models the bridge deployment as an explicit state machine:
//! configuration (trusted gateway, derived signing identity), the token
//! ledger's holder bookkeeping, and the metadata registry. The two handlers,
//! inbound mint and outbound lock, are verified against that model.

pub mod bridge;
pub mod codec;
pub mod config;
pub mod errors;
pub mod identity;
pub mod laws;
pub mod ledger;
pub mod registry;
