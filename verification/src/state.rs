//! The shared application state: one registry behind a verified
//! reader-writer lock.
//!
//! The lock is the single synchronization point for the name map, so
//! create, remove and lookup are linearizable with respect to each other;
//! in particular the check-then-insert of a creation happens under one
//! write acquisition and no interleaved creation of the same name can
//! slip between the check and the insert. The lock's invariant keeps
//! every reachable registry state well-formed — names stay unique forever.
//! The lock is held only for the map operation itself, never across a
//! key-level call on an instance: those go to the reference-counted
//! handle after release, which stays valid even if the entry is removed
//! concurrently.

use std::sync::Arc;

use vstd::prelude::*;
use vstd::rwlock::{RwLock, RwLockPredicate};

use crate::cache::{spec_policy_of, Cache};
use crate::errors::CacheError;
use crate::registry::Registry;
use crate::request_types::CreateCacheRequest;

verus! {

/// What every state of the shared registry satisfies.
pub ghost struct RegistryPred {}

impl RwLockPredicate<Registry> for RegistryPred {
    open spec fn inv(self, r: Registry) -> bool {
        r.wf()
    }
}

/// The process-wide set of named caches, safe to share across workers.
pub struct AppState {
    caches: RwLock<Registry, RegistryPred>,
}

impl AppState {
    /// A fresh state holding an empty registry.
    pub fn new() -> AppState {
        AppState { caches: RwLock::new(Registry::new(), Ghost(RegistryPred {})) }
    }

    /// Hands back a shared handle to the cache named `name`, or reports
    /// that no such cache exists in the registry state this call observed.
    /// The exact success condition is `Registry::lookup`'s contract.
    pub fn get_cache(&self, name: &str) -> (r: Result<Arc<Cache>, CacheError>)
        ensures
            r is Err ==> r == Err::<Arc<Cache>, CacheError>(CacheError::CacheNotFound),
    {
        let handle = self.caches.acquire_read();
        let r = handle.borrow().lookup(name);
        handle.release_read();
        r
    }

    /// Removes the cache named `name` and hands its instance back, or
    /// reports that no such cache existed. In-flight operations holding
    /// the instance keep it alive until they complete. The exact effect
    /// on the map is `Registry::remove`'s contract.
    pub fn remove_cache(&self, name: &str) -> (r: Result<Arc<Cache>, CacheError>)
        ensures
            r is Err ==> r == Err::<Arc<Cache>, CacheError>(CacheError::CacheNotFound),
    {
        let (mut reg, handle) = self.caches.acquire_write();
        let r = reg.remove(name);
        handle.release_write(reg);
        r
    }

    /// Registers `cache` under `name` unless the name is taken; the check
    /// and the insert happen under one write acquisition. The exact effect
    /// on the map is `Registry::create`'s contract.
    pub fn insert_cache(&self, name: String, cache: Arc<Cache>) -> (r: Result<(), CacheError>)
        ensures
            r is Err ==> r == Err::<(), CacheError>(CacheError::CacheAlreadyExists),
    {
        let (mut reg, handle) = self.caches.acquire_write();
        let r = reg.create(name, cache);
        handle.release_write(reg);
        r
    }

    /// Whether a cache named `name` was present in the registry state this
    /// call observed: a pre-validation convenience; `create_cache` re-checks
    /// atomically in any case.
    pub fn cache_exists(&self, name: &str) -> (r: Result<(), CacheError>)
        ensures
            r is Err ==> r == Err::<(), CacheError>(CacheError::CacheNotFound),
    {
        let handle = self.caches.acquire_read();
        let present = handle.borrow().contains(name);
        handle.release_read();
        if present {
            Ok(())
        } else {
            Err(CacheError::CacheNotFound)
        }
    }

    /// The whole creation step under one write acquisition: rejects a
    /// taken name, then an unknown policy identifier, and otherwise builds
    /// and registers a fresh instance, per `Registry::create_cache`.
    pub fn create_cache(&self, req: &CreateCacheRequest) -> (r: Result<(), CacheError>)
        ensures
            r == Err::<(), CacheError>(CacheError::UnknownCacheType) ==> spec_policy_of(
                req.cache_type@,
            ) is None,
            spec_policy_of(req.cache_type@) is None ==> r == Err::<(), CacheError>(
                CacheError::UnknownCacheType,
            ) || r == Err::<(), CacheError>(CacheError::CacheAlreadyExists),
            r is Err ==> r == Err::<(), CacheError>(CacheError::UnknownCacheType) || r
                == Err::<(), CacheError>(CacheError::CacheAlreadyExists),
    {
        let (mut reg, handle) = self.caches.acquire_write();
        let r = reg.create_cache(req);
        handle.release_write(reg);
        r
    }
}

} // verus!
