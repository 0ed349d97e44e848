//! What each registry endpoint computes, free of transport concerns: a
//! request facade decodes a request, calls the matching function here,
//! and encodes the outcome.

use vstd::prelude::*;
use vstd::string::StringExecFns;

use crate::cache::spec_policy_of;
use crate::errors::CacheError;
use crate::request_types::{CreateCacheRequest, DeleteCacheRequest};
use crate::state::AppState;
use crate::store::CacheStats;
use crate::text::{spec_decimal, u64_to_string};

verus! {

/// Creates a new named cache: fails on a taken name or an unknown policy
/// identifier, in that order of checking, and registers nothing on failure.
pub fn create_cache(state: &AppState, req: &CreateCacheRequest) -> (r: Result<(), CacheError>)
    ensures
        r == Err::<(), CacheError>(CacheError::UnknownCacheType) ==> spec_policy_of(
            req.cache_type@,
        ) is None,
        spec_policy_of(req.cache_type@) is None ==> r == Err::<(), CacheError>(
            CacheError::UnknownCacheType,
        ) || r == Err::<(), CacheError>(CacheError::CacheAlreadyExists),
        r is Err ==> r == Err::<(), CacheError>(CacheError::UnknownCacheType) || r == Err::<
            (),
            CacheError,
        >(CacheError::CacheAlreadyExists),
{
    match state.cache_exists(req.name.as_str()) {
        Ok(_) => {
            return Err(CacheError::CacheAlreadyExists);
        },
        Err(_) => {},
    }
    state.create_cache(req)
}

/// Deletes a named cache; fails if and only if the name was absent from
/// the registry state the call observed.
pub fn delete_cache(state: &AppState, req: &DeleteCacheRequest) -> (r: Result<(), CacheError>)
    ensures
        r is Err ==> r == Err::<(), CacheError>(CacheError::CacheNotFound),
{
    match state.remove_cache(req.name.as_str()) {
        Ok(_) => Ok(()),
        Err(e) => Err(e),
    }
}

/// Retrieves the value under `key` in the cache named `cache_name`.
pub fn get_value(state: &AppState, cache_name: &str, key: &str) -> (r: Result<Vec<u8>, CacheError>)
    ensures
        r is Err ==> r == Err::<Vec<u8>, CacheError>(CacheError::CacheNotFound) || r == Err::<
            Vec<u8>,
            CacheError,
        >(CacheError::KeyNotFound),
{
    let cache = match state.get_cache(cache_name) {
        Ok(c) => c,
        Err(e) => {
            return Err(e);
        },
    };
    match cache.get(key) {
        Some(val) => Ok(val),
        None => Err(CacheError::KeyNotFound),
    }
}

/// Stores `value` under `key` in the cache named `cache_name`; a set on an
/// existing cache always succeeds.
pub fn set_value(state: &AppState, cache_name: &str, key: String, value: Vec<u8>) -> (r: Result<
    (),
    CacheError,
>)
    ensures
        r is Err ==> r == Err::<(), CacheError>(CacheError::CacheNotFound),
{
    let cache = match state.get_cache(cache_name) {
        Ok(c) => c,
        Err(e) => {
            return Err(e);
        },
    };
    cache.set(key, value);
    Ok(())
}

/// Removes `key` from the cache named `cache_name`; an absent key is no
/// error.
pub fn delete_value(state: &AppState, cache_name: &str, key: &str) -> (r: Result<(), CacheError>)
    ensures
        r is Err ==> r == Err::<(), CacheError>(CacheError::CacheNotFound),
{
    let cache = match state.get_cache(cache_name) {
        Ok(c) => c,
        Err(e) => {
            return Err(e);
        },
    };
    cache.remove(key);
    Ok(())
}

/// A statistics snapshot of the cache named `cache_name`. On success the
/// capacity is the configured one and the size never exceeds it.
pub fn stats(state: &AppState, cache_name: &str) -> (r: Result<CacheStats, CacheError>)
    ensures
        r is Err ==> r == Err::<CacheStats, CacheError>(CacheError::CacheNotFound),
        (r matches Ok(s) ==> s.size <= s.capacity),
{
    let cache = match state.get_cache(cache_name) {
        Ok(c) => c,
        Err(e) => {
            return Err(e);
        },
    };
    Ok(cache.stats())
}

/// The JSON rendering of a statistics snapshot.
pub open spec fn spec_stats_json(s: CacheStats) -> Seq<char> {
    "{\"hits\":"@ + spec_decimal(s.hits as nat) + ",\"misses\":"@ + spec_decimal(s.misses as nat)
        + ",\"size\":"@ + spec_decimal(s.size as nat) + ",\"capacity\":"@ + spec_decimal(
        s.capacity as nat,
    ) + "}"@
}

/// Renders a statistics snapshot as the JSON object the stats endpoint
/// reports.
pub fn stats_json(s: CacheStats) -> (r: String)
    ensures
        r@ == spec_stats_json(s),
{
    let mut out = String::from_str("{\"hits\":");
    let hits = u64_to_string(s.hits);
    out.append(hits.as_str());
    out.append(",\"misses\":");
    let misses = u64_to_string(s.misses);
    out.append(misses.as_str());
    out.append(",\"size\":");
    let size = u64_to_string(s.size);
    out.append(size.as_str());
    out.append(",\"capacity\":");
    let capacity = u64_to_string(s.capacity);
    out.append(capacity.as_str());
    out.append("}");
    proof {
        assert(out@ =~= spec_stats_json(s));
    }
    out
}

} // verus!
