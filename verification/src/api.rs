//! Plain data shells exchanged with the HTTP front door and the process
//! configuration.
//!
//! The front door itself (routing, serialization) lives outside the library;
//! it converts its wire types into these and back.

use vstd::prelude::*;

verus! {

/// Outcome tag carried by every API response.
#[derive(Clone, Copy, Debug, PartialEq, Eq, Structural)]
pub enum Status {
    /// The operation completed successfully.
    Success,
    /// The operation failed.
    Error,
}

/// Query for a user's positions with the lending protocol.
pub struct VesuPositionsQuery {
    /// The wallet address to look up.
    pub wallet_address: String,
}

/// Query for the lending protocol's pools.
pub struct VesuPoolsQuery {
    /// A single pool to look up; all pools when absent.
    pub pool_address: Option<String>,
}

/// Request to attach a swap identifier to a deposit.
pub struct UpdateAtomiqSwapIdRequest {
    /// The swap identifier to record.
    pub atomiq_swap_id: String,
}

/// Settings of the fiat price provider.
pub struct CoingeckoSettings {
    /// Base URL of the price API.
    pub price_api_url: String,
    /// API key sent with each request.
    pub api_key: String,
    /// Seconds between price refreshes, when configured.
    pub update_interval_secs: Option<u64>,
    /// Seconds a cached price stays valid, when configured.
    pub cache_ttl_secs: Option<u64>,
}

} // verus!
