//! A shareable cache instance and the factory that builds one.
//!
//! A [`Cache`] is a policy store behind its own verified reader-writer
//! lock, so any number of concurrent callers may operate on one instance;
//! the lock's invariant pins the configuration chosen at creation and the
//! well-formedness of every state a caller can observe. What each
//! operation does to the state it found is specified exactly on
//! [`Store`](crate::store::Store); the methods here only add the clock
//! second and the locking.

use vstd::prelude::*;
use vstd::rwlock::{RwLock, RwLockPredicate};

use crate::errors::CacheError;
use crate::store::{CacheStats, Policy, Store};
use crate::text::str_eq;

verus! {

/// What every state of a cache's store satisfies: well-formedness, and the
/// configuration fixed when the cache was built.
pub ghost struct CachePred {
    pub policy: Policy,
    pub capacity: u64,
    pub ttl: u64,
    pub check_interval: u64,
    pub jitter: u64,
}

impl RwLockPredicate<Store> for CachePred {
    open spec fn inv(self, s: Store) -> bool {
        &&& s.wf()
        &&& s.policy() == self.policy
        &&& s.capacity() == self.capacity
        &&& s.ttl_secs() == self.ttl
        &&& s.check_interval_secs() == self.check_interval
        &&& s.jitter_secs() == self.jitter
    }
}

/// One cache instance, safe to share across concurrent callers.
pub struct Cache {
    store: RwLock<Store, CachePred>,
}

impl Cache {
    /// The invariant every observable store state satisfies.
    pub closed spec fn pred(self) -> CachePred {
        self.store.pred()
    }

    /// The eviction policy chosen at creation.
    pub open spec fn policy(self) -> Policy {
        self.pred().policy
    }

    /// The configured maximum number of entries.
    pub open spec fn capacity(self) -> u64 {
        self.pred().capacity
    }

    /// Seconds an entry lives under the time-to-live policy.
    pub open spec fn ttl_secs(self) -> u64 {
        self.pred().ttl
    }

    /// The configured expiry-check interval, in seconds.
    pub open spec fn check_interval_secs(self) -> u64 {
        self.pred().check_interval
    }

    /// The configured expiry-check jitter bound, in seconds.
    pub open spec fn jitter_secs(self) -> u64 {
        self.pred().jitter
    }

    /// Wraps a well-formed store; its configuration becomes the lock's
    /// invariant for the life of the instance.
    pub fn new(store: Store) -> (c: Cache)
        requires
            store.wf(),
        ensures
            c.policy() == store.policy(),
            c.capacity() == store.capacity(),
            c.ttl_secs() == store.ttl_secs(),
            c.check_interval_secs() == store.check_interval_secs(),
            c.jitter_secs() == store.jitter_secs(),
    {
        let ghost pred = CachePred {
            policy: store.policy(),
            capacity: store.capacity(),
            ttl: store.ttl_secs(),
            check_interval: store.check_interval_secs(),
            jitter: store.jitter_secs(),
        };
        Cache { store: RwLock::new(store, Ghost(pred)) }
    }

    /// Looks `key` up at the current clock second. The outcome is the one
    /// `Store::get_at` specifies for the state this call found under the
    /// lock; no stronger promise can be made, since other callers mutate
    /// the same instance concurrently.
    pub fn get(&self, key: &str) -> Option<Vec<u8>> {
        let now = now_seconds();
        let (mut s, handle) = self.store.acquire_write();
        let r = s.get_at(key, now);
        handle.release_write(s);
        r
    }

    /// Inserts or overwrites `key` at the current clock second, as
    /// `Store::set_at` specifies for the state this call found.
    pub fn set(&self, key: String, value: Vec<u8>) {
        let now = now_seconds();
        let (mut s, handle) = self.store.acquire_write();
        s.set_at(key, value, now);
        handle.release_write(s);
    }

    /// Removes `key` at the current clock second, as `Store::remove_at`
    /// specifies for the state this call found; absent keys are no error.
    pub fn remove(&self, key: &str) {
        let now = now_seconds();
        let (mut s, handle) = self.store.acquire_write();
        s.remove_at(key, now);
        handle.release_write(s);
    }

    /// A statistics snapshot. The capacity is the configured one and the
    /// size never exceeds it, whatever state the call found.
    pub fn stats(&self) -> (r: CacheStats)
        ensures
            r.capacity == self.capacity(),
            r.size <= self.capacity(),
    {
        let now = now_seconds();
        let handle = self.store.acquire_read();
        let s = handle.borrow();
        let r = s.stats_at(now);
        proof {
            crate::store::lemma_live_len(s.entries(), now);
        }
        handle.release_read();
        r
    }
}

/// The policy a creation-time identifier names, if any. The four known
/// identifiers are matched case-sensitively.
pub open spec fn spec_policy_of(s: Seq<char>) -> Option<Policy> {
    if s == "lru"@ {
        Some(Policy::Lru)
    } else if s == "fifo"@ {
        Some(Policy::Fifo)
    } else if s == "mru"@ {
        Some(Policy::Mru)
    } else if s == "ttl"@ {
        Some(Policy::Ttl)
    } else {
        None
    }
}

/// The value of an optional configuration field, or its documented default.
pub open spec fn or_default(v: Option<u64>, d: u64) -> u64 {
    match v {
        Some(x) => x,
        None => d,
    }
}

/// Maps a policy identifier to the policy it names.
pub fn parse_policy(s: &str) -> (r: Option<Policy>)
    ensures
        r == spec_policy_of(s@),
{
    if str_eq(s, "lru") {
        Some(Policy::Lru)
    } else if str_eq(s, "fifo") {
        Some(Policy::Fifo)
    } else if str_eq(s, "mru") {
        Some(Policy::Mru)
    } else if str_eq(s, "ttl") {
        Some(Policy::Ttl)
    } else {
        None
    }
}

/// Builds a cache instance from a policy identifier and a configuration,
/// or rejects an unknown identifier before anything is constructed.
///
/// The three duration fields matter only to the time-to-live policy and
/// default to 60, 10 and 0 seconds when omitted; every other policy stores
/// zeroes there. A fresh instance starts empty with zeroed statistics.
pub fn build_cache(
    cache_type: &str,
    capacity: u64,
    ttl: Option<u64>,
    check_interval: Option<u64>,
    jitter: Option<u64>,
) -> (r: Result<Cache, CacheError>)
    ensures
        r is Err <==> spec_policy_of(cache_type@) is None,
        r is Err ==> r == Err::<Cache, CacheError>(CacheError::UnknownCacheType),
        (r matches Ok(c) ==> {
            &&& Some(c.policy()) == spec_policy_of(cache_type@)
            &&& c.capacity() == capacity
            &&& c.policy() is Ttl ==> c.ttl_secs() == or_default(ttl, 60)
                && c.check_interval_secs() == or_default(check_interval, 10) && c.jitter_secs()
                == or_default(jitter, 0)
            &&& !(c.policy() is Ttl) ==> c.ttl_secs() == 0 && c.check_interval_secs() == 0
                && c.jitter_secs() == 0
        }),
{
    let policy = match parse_policy(cache_type) {
        Some(p) => p,
        None => {
            return Err(CacheError::UnknownCacheType);
        },
    };
    let is_ttl = match policy {
        Policy::Ttl => true,
        _ => false,
    };
    let ttl_value: u64 = if is_ttl {
        match ttl {
            Some(v) => v,
            None => 60,
        }
    } else {
        0
    };
    let check_value: u64 = if is_ttl {
        match check_interval {
            Some(v) => v,
            None => 10,
        }
    } else {
        0
    };
    let jitter_value: u64 = if is_ttl {
        match jitter {
            Some(v) => v,
            None => 0,
        }
    } else {
        0
    };
    Ok(Cache::new(Store::new(policy, capacity, ttl_value, check_value, jitter_value)))
}

/// Relies on std::time::SystemTime::now and duration_since: the system
/// clock's seconds since the Unix epoch. Nothing is assumed of the result;
/// every caller is verified for every value it could take.
#[verifier::external_body]
fn now_seconds() -> u64 {
    match std::time::SystemTime::now().duration_since(std::time::UNIX_EPOCH) {
        Ok(d) => d.as_secs(),
        Err(_) => 0,
    }
}

} // verus!
