//! The typed commands a request facade hands to the registry.

use vstd::prelude::*;

verus! {

/// A request for creating a cache.
#[derive(Debug)]
pub struct CreateCacheRequest {
    /// The name the new cache will be registered under.
    pub name: String,
    /// The policy identifier: one of "lru", "fifo", "mru", "ttl".
    pub cache_type: String,
    /// The maximum number of entries the cache retains.
    pub capacity: u64,
    /// Seconds an entry lives (time-to-live policy only; default 60).
    pub ttl: Option<u64>,
    /// Seconds between expiry checks (time-to-live policy only; default 10).
    pub check_interval: Option<u64>,
    /// Jitter bound on the expiry check (time-to-live policy only; default 0).
    pub jitter: Option<u64>,
}

/// A request for deleting a cache.
#[derive(Debug)]
pub struct DeleteCacheRequest {
    /// The name of the cache to delete.
    pub name: String,
}

} // verus!
