//! Deposit and vault settlement pipeline.
//!
//! The library tracks user deposits destined for on-chain vaults: it encodes
//! arbitrary-precision decimal amounts into the fixed-width pair used by the
//! chain's calldata convention, predicts and records deposits, and drives the
//! settlement state machine that verifies on-chain balances and marks deposits
//! settled.

pub mod api;
pub mod bignum;
pub mod chain;
pub mod codec;
pub mod decimal;
pub mod errors;
pub mod registrar;
pub mod store;
pub mod watcher;
