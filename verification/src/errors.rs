//! The error taxonomy of the registry and its caches.
//!
//! Every failure of a registry or key-level operation is one of these
//! kinds; none is fatal and none leaves the registry in a partially
//! mutated state.

use vstd::prelude::*;
use vstd::string::StringExecFns;

verus! {

/// What a registry or key-level operation can fail with.
#[derive(Debug, Clone, Copy, PartialEq, Eq, Structural)]
pub enum CacheError {
    /// A lookup, removal or key-level operation named a cache that is absent.
    CacheNotFound,
    /// A creation named a cache that is already present.
    CacheAlreadyExists,
    /// A creation asked for a policy identifier outside the known four.
    UnknownCacheType,
    /// A value lookup named a key that is absent from an existing cache.
    KeyNotFound,
    /// The shared state was corrupted; never reached by the verified paths.
    Internal,
}

impl CacheError {
    /// A short human-readable description of the error.
    pub fn message(&self) -> (r: String)
        ensures
            *self is CacheNotFound ==> r@ == "Cache not found"@,
            *self is CacheAlreadyExists ==> r@ == "Cache already exists"@,
            *self is UnknownCacheType ==> r@ == "Unknown cache type"@,
            *self is KeyNotFound ==> r@ == "Key not found"@,
            *self is Internal ==> r@ == "Internal error"@,
    {
        match self {
            CacheError::CacheNotFound => String::from_str("Cache not found"),
            CacheError::CacheAlreadyExists => String::from_str("Cache already exists"),
            CacheError::UnknownCacheType => String::from_str("Unknown cache type"),
            CacheError::KeyNotFound => String::from_str("Key not found"),
            CacheError::Internal => String::from_str("Internal error"),
        }
    }

    /// The HTTP status code a request/response facade reports for the error.
    pub fn status_code(&self) -> (r: u16)
        ensures
            r == match *self {
                CacheError::CacheNotFound => 404u16,
                CacheError::CacheAlreadyExists => 409u16,
                CacheError::UnknownCacheType => 400u16,
                CacheError::KeyNotFound => 404u16,
                CacheError::Internal => 500u16,
            },
    {
        match self {
            CacheError::CacheNotFound => 404,
            CacheError::CacheAlreadyExists => 409,
            CacheError::UnknownCacheType => 400,
            CacheError::KeyNotFound => 404,
            CacheError::Internal => 500,
        }
    }
}

} // verus!
