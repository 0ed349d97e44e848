//! One in-memory key/value cache: a capacity-bounded store with a fixed
//! eviction policy and hit/miss statistics.
//!
//! The model of a store is the sequence of its entries, ordered from the
//! entry the policy would evict first to the one it would evict last:
//! by recency of access for the recency-ordered policies, by insertion
//! for the others. Every operation's contract says exactly how it moves
//! that sequence and the two counters.

use vstd::prelude::*;

use crate::text::str_eq;

verus! {

/// The eviction policy of a cache, fixed at creation.
#[derive(Debug, Clone, Copy, PartialEq, Eq, Structural)]
pub enum Policy {
    /// Evicts the least-recently-accessed entry when capacity is exceeded.
    Lru,
    /// Evicts the oldest-inserted entry when capacity is exceeded.
    Fifo,
    /// Evicts the most-recently-accessed entry when capacity is exceeded.
    Mru,
    /// Entries lapse a fixed number of seconds after insertion; the store is
    /// also bounded by capacity, evicting the oldest-inserted entry.
    Ttl,
}

/// A snapshot of a cache's statistics.
#[derive(Debug, Clone, Copy, PartialEq, Eq, Structural)]
pub struct CacheStats {
    /// How many value lookups found their key, since creation.
    pub hits: u64,
    /// How many value lookups missed, since creation.
    pub misses: u64,
    /// How many entries are currently live.
    pub size: u64,
    /// The configured maximum number of entries.
    pub capacity: u64,
}

/// One cache entry. `expires` is the second (since the Unix epoch) at which
/// the entry lapses; it is `u64::MAX` for policies without expiry.
pub struct Entry {
    pub key: String,
    pub value: Vec<u8>,
    pub expires: u64,
}

/// Whether some entry of `s` has key `k`.
pub open spec fn has_key(s: Seq<Entry>, k: Seq<char>) -> bool {
    exists|i: int| 0 <= i < s.len() && s[i].key@ == k
}

/// The position of the entry with key `k`; meaningful only when
/// `has_key(s, k)` holds and the keys of `s` are distinct.
pub open spec fn idx_of(s: Seq<Entry>, k: Seq<char>) -> int {
    choose|i: int| 0 <= i < s.len() && s[i].key@ == k
}

/// The value stored under key `k`.
pub open spec fn val_of(s: Seq<Entry>, k: Seq<char>) -> Seq<u8> {
    s[idx_of(s, k)].value@
}

/// The expiry second of the entry with key `k`.
pub open spec fn exp_of(s: Seq<Entry>, k: Seq<char>) -> u64 {
    s[idx_of(s, k)].expires
}

/// No two entries of `s` share a key.
pub open spec fn distinct_keys(s: Seq<Entry>) -> bool {
    forall|i: int, j: int| 0 <= i < j < s.len() ==> s[i].key@ != s[j].key@
}

/// Whether the entry has not lapsed at second `now`.
pub open spec fn entry_live(e: Entry, now: u64) -> bool {
    now < e.expires
}

/// The subsequence of `s` whose entries have not lapsed at second `now`.
pub open spec fn live_ttl(s: Seq<Entry>, now: u64) -> Seq<Entry>
    decreases s.len(),
{
    if s.len() == 0 {
        Seq::empty()
    } else if entry_live(s.last(), now) {
        live_ttl(s.drop_last(), now).push(s.last())
    } else {
        live_ttl(s.drop_last(), now)
    }
}

/// The entries of `s` still live at second `now`: for the time-to-live
/// policy the lapsed ones are dropped, for every other policy all stay.
pub open spec fn live(s: Seq<Entry>, policy: Policy, now: u64) -> Seq<Entry> {
    if policy is Ttl {
        live_ttl(s, now)
    } else {
        s
    }
}

/// Addition on `u64` that stops at `u64::MAX` instead of wrapping.
pub open spec fn sat_add(a: u64, b: u64) -> u64 {
    if a + b > u64::MAX {
        u64::MAX
    } else {
        (a + b) as u64
    }
}

/// The entry with the given parts.
pub open spec fn entry_with(key: String, value: Vec<u8>, expires: u64) -> Entry {
    Entry { key, value, expires }
}

/// In a sequence with distinct keys, a position holding `k` is the unique
/// match, so `idx_of` lands on it.
pub proof fn lemma_idx_unique(s: Seq<Entry>, k: Seq<char>, i: int)
    requires
        distinct_keys(s),
        0 <= i < s.len(),
        s[i].key@ == k,
    ensures
        has_key(s, k),
        idx_of(s, k) == i,
{
    assert(has_key(s, k));
    let j = idx_of(s, k);
    assert(0 <= j < s.len() && s[j].key@ == k);
    if j < i {
        assert(s[j].key@ != s[i].key@);
    } else if i < j {
        assert(s[i].key@ != s[j].key@);
    }
}

/// Removing an entry keeps the remaining keys distinct.
pub proof fn lemma_distinct_remove(s: Seq<Entry>, i: int)
    requires
        distinct_keys(s),
        0 <= i < s.len(),
    ensures
        distinct_keys(s.remove(i)),
{
    let t = s.remove(i);
    assert forall|a: int, b: int| 0 <= a < b < t.len() implies t[a].key@ != t[b].key@ by {
        let a0 = if a < i { a } else { a + 1 };
        let b0 = if b < i { b } else { b + 1 };
        assert(t[a] == s[a0]);
        assert(t[b] == s[b0]);
    }
}

/// After removing position `i`, no remaining entry carries its key.
pub proof fn lemma_remove_kills_key(s: Seq<Entry>, i: int)
    requires
        distinct_keys(s),
        0 <= i < s.len(),
    ensures
        !has_key(s.remove(i), s[i].key@),
{
    let t = s.remove(i);
    assert forall|a: int| 0 <= a < t.len() implies t[a].key@ != s[i].key@ by {
        let a0 = if a < i { a } else { a + 1 };
        assert(t[a] == s[a0]);
    }
}

/// Appending an entry whose key is absent keeps the keys distinct.
pub proof fn lemma_distinct_push(s: Seq<Entry>, e: Entry)
    requires
        distinct_keys(s),
        !has_key(s, e.key@),
    ensures
        distinct_keys(s.push(e)),
{
    let t = s.push(e);
    assert forall|a: int, b: int| 0 <= a < b < t.len() implies t[a].key@ != t[b].key@ by {
        if b < s.len() {
            assert(t[a] == s[a] && t[b] == s[b]);
        } else {
            assert(t[a] == s[a] && t[b] == e);
        }
    }
}

/// One step of the live subsequence along a prefix of `s`.
pub proof fn lemma_live_take_step(s: Seq<Entry>, now: u64, k: int)
    requires
        0 <= k < s.len(),
    ensures
        live_ttl(s.take(k + 1), now) == if entry_live(s[k], now) {
            live_ttl(s.take(k), now).push(s[k])
        } else {
            live_ttl(s.take(k), now)
        },
{
    assert(s.take(k + 1).drop_last() =~= s.take(k));
    assert(s.take(k + 1).last() == s[k]);
}

/// The live subsequence of an empty prefix is empty.
pub proof fn lemma_live_take_zero(s: Seq<Entry>, now: u64)
    ensures
        live_ttl(s.take(0), now) == Seq::<Entry>::empty(),
{
    assert(s.take(0) =~= Seq::<Entry>::empty());
}

/// A capacity-bounded key/value cache with one eviction policy.
pub struct Store {
    policy: Policy,
    capacity: u64,
    ttl: u64,
    check_interval: u64,
    jitter: u64,
    entries: Vec<Entry>,
    hits: u64,
    misses: u64,
}

impl Store {
    /// The eviction policy chosen at creation.
    pub closed spec fn policy(self) -> Policy {
        self.policy
    }

    /// The configured maximum number of entries.
    pub closed spec fn capacity(self) -> u64 {
        self.capacity
    }

    /// Seconds an entry lives under the time-to-live policy.
    pub closed spec fn ttl_secs(self) -> u64 {
        self.ttl
    }

    /// The configured expiry-check interval, in seconds.
    pub closed spec fn check_interval_secs(self) -> u64 {
        self.check_interval
    }

    /// The configured expiry-check jitter bound, in seconds.
    pub closed spec fn jitter_secs(self) -> u64 {
        self.jitter
    }

    /// The entries, ordered from evicted-first to evicted-last.
    pub closed spec fn entries(self) -> Seq<Entry> {
        self.entries@
    }

    /// Lookups that found their key, since creation.
    pub closed spec fn hits(self) -> u64 {
        self.hits
    }

    /// Lookups that missed, since creation.
    pub closed spec fn misses(self) -> u64 {
        self.misses
    }

    /// The configuration fixed at creation.
    pub open spec fn same_config(self, other: Store) -> bool {
        &&& self.policy() == other.policy()
        &&& self.capacity() == other.capacity()
        &&& self.ttl_secs() == other.ttl_secs()
        &&& self.check_interval_secs() == other.check_interval_secs()
        &&& self.jitter_secs() == other.jitter_secs()
    }

    /// Well-formedness: keys are unique and capacity is respected.
    pub open spec fn wf(self) -> bool {
        &&& distinct_keys(self.entries())
        &&& self.entries().len() <= self.capacity()
    }

    /// A fresh store: empty, with zeroed statistics.
    pub fn new(policy: Policy, capacity: u64, ttl: u64, check_interval: u64, jitter: u64) -> (s:
        Store)
        ensures
            s.wf(),
            s.policy() == policy,
            s.capacity() == capacity,
            s.ttl_secs() == ttl,
            s.check_interval_secs() == check_interval,
            s.jitter_secs() == jitter,
            s.entries() == Seq::<Entry>::empty(),
            s.hits() == 0,
            s.misses() == 0,
    {
        Store {
            policy,
            capacity,
            ttl,
            check_interval,
            jitter,
            entries: Vec::new(),
            hits: 0,
            misses: 0,
        }
    }

    /// Drops every lapsed entry (a no-op for policies without expiry).
    fn purge(&mut self, now: u64)
        requires
            old(self).wf(),
        ensures
            final(self).wf(),
            final(self).same_config(*old(self)),
            final(self).hits() == old(self).hits(),
            final(self).misses() == old(self).misses(),
            final(self).entries() == live(old(self).entries(), old(self).policy(), now),
    {
        match self.policy {
            Policy::Ttl => {},
            _ => {
                return ;
            },
        }
        let ghost orig = self.entries@;
        let ghost mut k: int = 0;
        let mut i: usize = 0;
        proof {
            lemma_live_take_zero(orig, now);
            assert(self.entries@ =~= live_ttl(orig.take(0), now) + orig.skip(0));
        }
        while i < self.entries.len()
            invariant
                self.policy() is Ttl,
                self.same_config(*old(self)),
                self.hits() == old(self).hits(),
                self.misses() == old(self).misses(),
                orig == old(self).entries(),
                distinct_keys(orig),
                self.entries@.len() <= orig.len(),
                0 <= k <= orig.len(),
                i == live_ttl(orig.take(k), now).len(),
                self.entries@ == live_ttl(orig.take(k), now) + orig.skip(k),
                distinct_keys(self.entries@),
            decreases self.entries@.len() - i,
        {
            proof {
                assert(k < orig.len());
                assert(self.entries@[i as int] == orig.skip(k)[i - live_ttl(
                    orig.take(k),
                    now,
                ).len()]);
                assert(self.entries@[i as int] == orig[k]);
            }
            if now < self.entries[i].expires {
                proof {
                    lemma_live_take_step(orig, now, k);
                    assert(entry_live(orig[k], now));
                    k = k + 1;
                    assert(self.entries@ =~= live_ttl(orig.take(k), now) + orig.skip(k));
                }
                i = i + 1;
            } else {
                proof {
                    lemma_distinct_remove(self.entries@, i as int);
                }
                let _ = self.entries.remove(i);
                proof {
                    lemma_live_take_step(orig, now, k);
                    assert(!entry_live(orig[k], now));
                    k = k + 1;
                    assert(self.entries@ =~= live_ttl(orig.take(k), now) + orig.skip(k));
                }
            }
        }
        proof {
            assert(k == orig.len());
            assert(orig.take(k) =~= orig);
            assert(self.entries@ =~= live_ttl(orig, now));
            assert(self.entries@.len() <= self.capacity);
        }
    }

    /// Finds the position of `key` among the entries.
    fn find(&self, key: &str) -> (r: Option<usize>)
        requires
            distinct_keys(self.entries()),
        ensures
            (match r {
                Some(i) => i < self.entries().len() && self.entries()[i as int].key@ == key@
                    && has_key(self.entries(), key@) && idx_of(self.entries(), key@) == i,
                None => !has_key(self.entries(), key@),
            }),
    {
        let mut i: usize = 0;
        while i < self.entries.len()
            invariant
                i <= self.entries@.len(),
                distinct_keys(self.entries@),
                forall|j: int| 0 <= j < i ==> self.entries@[j].key@ != key@,
            decreases self.entries@.len() - i,
        {
            if str_eq(self.entries[i].key.as_str(), key) {
                proof {
                    lemma_idx_unique(self.entries@, key@, i as int);
                }
                return Some(i);
            }
            i = i + 1;
        }
        proof {
            assert forall|j: int| 0 <= j < self.entries@.len() implies self.entries@[j].key@
                != key@ by {}
        }
        None
    }

    /// Looks `key` up at second `now`, counting a hit or a miss and, for the
    /// recency-ordered policies, marking the entry as the one to evict last.
    pub fn get_at(&mut self, key: &str, now: u64) -> (r: Option<Vec<u8>>)
        requires
            old(self).wf(),
        ensures
            final(self).wf(),
            final(self).same_config(*old(self)),
            ({
                let live0 = live(old(self).entries(), old(self).policy(), now);
                &&& has_key(live0, key@) ==> {
                    &&& (r matches Some(v) && v@ == val_of(live0, key@))
                    &&& final(self).hits() == sat_add(old(self).hits(), 1)
                    &&& final(self).misses() == old(self).misses()
                    &&& final(self).entries() == (if old(self).policy() is Lru || old(self).policy()
                        is Mru {
                        live0.remove(idx_of(live0, key@)).push(live0[idx_of(live0, key@)])
                    } else {
                        live0
                    })
                }
                &&& !has_key(live0, key@) ==> {
                    &&& r is None
                    &&& final(self).misses() == sat_add(old(self).misses(), 1)
                    &&& final(self).hits() == old(self).hits()
                    &&& final(self).entries() == live0
                }
            }),
    {
        self.purge(now);
        match self.find(key) {
            Some(i) => {
                self.hits = sat_add_u64(self.hits, 1);
                let reorder = match self.policy {
                    Policy::Lru | Policy::Mru => true,
                    _ => false,
                };
                if reorder {
                    proof {
                        lemma_distinct_remove(self.entries@, i as int);
                        lemma_remove_kills_key(self.entries@, i as int);
                    }
                    let ghost pre = self.entries@;
                    let e = self.entries.remove(i);
                    let v = clone_bytes(&e.value);
                    self.entries.push(e);
                    proof {
                        lemma_distinct_push(pre.remove(i as int), pre[i as int]);
                    }
                    Some(v)
                } else {
                    let v = clone_bytes(&self.entries[i].value);
                    Some(v)
                }
            },
            None => {
                self.misses = sat_add_u64(self.misses, 1);
                None
            },
        }
    }

    /// Inserts or overwrites `key` at second `now`. A new key placed in a
    /// full cache evicts exactly one other entry: the first of the order for
    /// every policy but the most-recently-used one, which evicts the last.
    /// With capacity zero nothing is ever retained.
    pub fn set_at(&mut self, key: String, value: Vec<u8>, now: u64)
        requires
            old(self).wf(),
        ensures
            final(self).wf(),
            final(self).same_config(*old(self)),
            final(self).hits() == old(self).hits(),
            final(self).misses() == old(self).misses(),
            old(self).capacity() > 0 ==> has_key(final(self).entries(), key@) && val_of(
                final(self).entries(),
                key@,
            ) == value@,
            old(self).capacity() > 0 && old(self).policy() is Ttl ==> exp_of(
                final(self).entries(),
                key@,
            ) == sat_add(now, old(self).ttl_secs()),
            ({
                let live0 = live(old(self).entries(), old(self).policy(), now);
                let exp = if old(self).policy() is Ttl {
                    sat_add(now, old(self).ttl_secs())
                } else {
                    u64::MAX
                };
                let j = idx_of(live0, key@);
                &&& has_key(live0, key@) ==> final(self).entries() == (match old(self).policy() {
                    Policy::Fifo => live0.update(j, entry_with(key, value, live0[j].expires)),
                    Policy::Lru | Policy::Mru => live0.remove(j).push(
                        entry_with(key, value, live0[j].expires),
                    ),
                    Policy::Ttl => live0.remove(j).push(entry_with(key, value, exp)),
                })
                &&& !has_key(live0, key@) && old(self).capacity() == 0 ==> final(self).entries()
                    == live0
                &&& !has_key(live0, key@) && live0.len() < old(self).capacity()
                    ==> final(self).entries() == live0.push(entry_with(key, value, exp))
                &&& !has_key(live0, key@) && 0 < old(self).capacity() == live0.len()
                    ==> final(self).entries() == (if old(self).policy() is Mru {
                    live0.drop_last()
                } else {
                    live0.remove(0)
                }).push(entry_with(key, value, exp))
            }),
    {
        self.purge(now);
        let exp = match self.policy {
            Policy::Ttl => sat_add_u64(now, self.ttl),
            _ => u64::MAX,
        };
        match self.find(key.as_str()) {
            Some(i) => {
                proof {
                    lemma_distinct_remove(self.entries@, i as int);
                    lemma_remove_kills_key(self.entries@, i as int);
                }
                let ghost pre = self.entries@;
                let old_entry = self.entries.remove(i);
                match self.policy {
                    Policy::Fifo => {
                        self.entries.insert(i, Entry { key, value, expires: old_entry.expires });
                        proof {
                            lemma_key_after_update(
                                pre,
                                i as int,
                                entry_with(key, value, pre[i as int].expires),
                            );
                            assert(self.entries@ =~= pre.update(
                                i as int,
                                entry_with(key, value, pre[i as int].expires),
                            ));
                        }
                    },
                    Policy::Lru | Policy::Mru => {
                        self.entries.push(Entry { key, value, expires: old_entry.expires });
                        proof {
                            lemma_key_after_push(
                                pre.remove(i as int),
                                entry_with(key, value, pre[i as int].expires),
                            );
                        }
                    },
                    Policy::Ttl => {
                        self.entries.push(Entry { key, value, expires: exp });
                        proof {
                            lemma_key_after_push(pre.remove(i as int), entry_with(key, value, exp));
                        }
                    },
                }
            },
            None => {
                if self.capacity == 0 {
                    return ;
                }
                let ghost pre = self.entries@;
                if self.entries.len() as u64 >= self.capacity {
                    let evict_last = match self.policy {
                        Policy::Mru => true,
                        _ => false,
                    };
                    if evict_last {
                        proof {
                            lemma_distinct_remove(self.entries@, self.entries@.len() - 1);
                        }
                        let _ = self.entries.pop();
                        proof {
                            assert(self.entries@ =~= pre.drop_last());
                        }
                    } else {
                        proof {
                            lemma_distinct_remove(self.entries@, 0);
                        }
                        let _ = self.entries.remove(0);
                    }
                    proof {
                        lemma_sub_has_key(pre, self.entries@, key@);
                    }
                }
                proof {
                    lemma_key_after_push(self.entries@, entry_with(key, value, exp));
                }
                self.entries.push(Entry { key, value, expires: exp });
            },
        }
    }

    /// Removes `key` at second `now`; absent keys are left alone.
    pub fn remove_at(&mut self, key: &str, now: u64)
        requires
            old(self).wf(),
        ensures
            final(self).wf(),
            final(self).same_config(*old(self)),
            final(self).hits() == old(self).hits(),
            final(self).misses() == old(self).misses(),
            !has_key(final(self).entries(), key@),
            ({
                let live0 = live(old(self).entries(), old(self).policy(), now);
                &&& has_key(live0, key@) ==> final(self).entries() == live0.remove(
                    idx_of(live0, key@),
                )
                &&& !has_key(live0, key@) ==> final(self).entries() == live0
            }),
    {
        self.purge(now);
        match self.find(key) {
            Some(i) => {
                proof {
                    lemma_distinct_remove(self.entries@, i as int);
                    lemma_remove_kills_key(self.entries@, i as int);
                }
                let _ = self.entries.remove(i);
            },
            None => {},
        }
    }

    /// A statistics snapshot at second `now`: the counters so far, the live
    /// entry count and the configured capacity. No side effect.
    pub fn stats_at(&self, now: u64) -> (r: CacheStats)
        requires
            self.wf(),
        ensures
            r.hits == self.hits(),
            r.misses == self.misses(),
            r.capacity == self.capacity(),
            r.size == live(self.entries(), self.policy(), now).len(),
    {
        let is_ttl = match self.policy {
            Policy::Ttl => true,
            _ => false,
        };
        let size: u64 = if is_ttl {
            let mut n: u64 = 0;
            let mut i: usize = 0;
            proof {
                lemma_live_take_zero(self.entries@, now);
            }
            while i < self.entries.len()
                invariant
                    self.policy() is Ttl,
                    i <= self.entries@.len(),
                    self.entries@.len() <= self.capacity(),
                    n == live_ttl(self.entries@.take(i as int), now).len(),
                decreases self.entries@.len() - i,
            {
                proof {
                    lemma_live_take_step(self.entries@, now, i as int);
                    lemma_live_len_bound(self.entries@, now, i as int + 1);
                }
                if now < self.entries[i].expires {
                    n = n + 1;
                }
                i = i + 1;
            }
            proof {
                assert(self.entries@.take(i as int) =~= self.entries@);
            }
            n
        } else {
            self.entries.len() as u64
        };
        CacheStats { hits: self.hits, misses: self.misses, size, capacity: self.capacity }
    }
}

/// The live subsequence of a prefix is no longer than the prefix itself.
pub proof fn lemma_live_len_bound(s: Seq<Entry>, now: u64, k: int)
    requires
        0 <= k <= s.len(),
    ensures
        live_ttl(s.take(k), now).len() <= k,
    decreases k,
{
    if k > 0 {
        lemma_live_len_bound(s, now, k - 1);
        lemma_live_take_step(s, now, k - 1);
    } else {
        lemma_live_take_zero(s, now);
    }
}

/// The live subsequence is no longer than the sequence itself.
pub proof fn lemma_live_len(s: Seq<Entry>, now: u64)
    ensures
        live_ttl(s, now).len() <= s.len(),
{
    lemma_live_len_bound(s, now, s.len() as int);
    assert(s.take(s.len() as int) =~= s);
}

/// Removing then re-inserting at the same position with an entry carrying
/// the same key keeps the keys distinct.
pub proof fn lemma_distinct_insert_back(s: Seq<Entry>, i: int, e: Entry)
    requires
        distinct_keys(s),
        0 <= i < s.len(),
        e.key@ == s[i].key@,
    ensures
        distinct_keys(s.update(i, e)),
{
    let t = s.update(i, e);
    assert forall|a: int, b: int| 0 <= a < b < t.len() implies t[a].key@ != t[b].key@ by {
        assert(s[a].key@ != s[b].key@);
    }
}

/// A key absent from a sequence is absent from the sequence with its first
/// or last element dropped.
pub proof fn lemma_sub_has_key(s: Seq<Entry>, t: Seq<Entry>, k: Seq<char>)
    requires
        !has_key(s, k),
        t == s.remove(0) || t == s.drop_last(),
        s.len() > 0,
    ensures
        !has_key(t, k),
{
    assert forall|a: int| 0 <= a < t.len() implies t[a].key@ != k by {
        if t == s.remove(0) {
            assert(t[a] == s[a + 1]);
        } else {
            assert(t[a] == s[a]);
        }
    }
}

/// A key absent from a sequence is absent from its live subsequence.
pub proof fn lemma_live_not_has(s: Seq<Entry>, now: u64, k: Seq<char>)
    requires
        !has_key(s, k),
    ensures
        !has_key(live_ttl(s, now), k),
    decreases s.len(),
{
    if s.len() > 0 {
        assert forall|a: int| 0 <= a < s.drop_last().len() implies s.drop_last()[a].key@ != k by {
            assert(s.drop_last()[a] == s[a]);
        }
        assert(!has_key(s.drop_last(), k));
        lemma_live_not_has(s.drop_last(), now, k);
        if entry_live(s.last(), now) {
            let sub = live_ttl(s.drop_last(), now);
            let t = sub.push(s.last());
            assert(s.last().key@ != k);
            assert forall|a: int| 0 <= a < t.len() implies t[a].key@ != k by {
                if a < sub.len() {
                    assert(t[a] == sub[a]);
                }
            }
            assert(!has_key(t, k));
        }
    }
}

/// The live subsequence of a sequence with distinct keys has distinct keys.
pub proof fn lemma_live_distinct(s: Seq<Entry>, now: u64)
    requires
        distinct_keys(s),
    ensures
        distinct_keys(live_ttl(s, now)),
    decreases s.len(),
{
    if s.len() > 0 {
        assert forall|a: int, b: int|
            0 <= a < b < s.drop_last().len() implies s.drop_last()[a].key@
            != s.drop_last()[b].key@ by {
            assert(s.drop_last()[a] == s[a] && s.drop_last()[b] == s[b]);
        }
        lemma_live_distinct(s.drop_last(), now);
        if entry_live(s.last(), now) {
            assert forall|a: int| 0 <= a < s.drop_last().len() implies s.drop_last()[a].key@
                != s.last().key@ by {
                assert(s.drop_last()[a] == s[a]);
            }
            assert(!has_key(s.drop_last(), s.last().key@));
            lemma_live_not_has(s.drop_last(), now, s.last().key@);
            lemma_distinct_push(live_ttl(s.drop_last(), now), s.last());
        }
    }
}

/// An entry that has not lapsed keeps its key, value and expiry in the
/// live subsequence.
pub proof fn lemma_live_preserves(s: Seq<Entry>, now: u64, i: int)
    requires
        distinct_keys(s),
        0 <= i < s.len(),
        entry_live(s[i], now),
    ensures
        has_key(live_ttl(s, now), s[i].key@),
        val_of(live_ttl(s, now), s[i].key@) == s[i].value@,
        exp_of(live_ttl(s, now), s[i].key@) == s[i].expires,
    decreases s.len(),
{
    lemma_live_distinct(s, now);
    assert forall|a: int, b: int|
        0 <= a < b < s.drop_last().len() implies s.drop_last()[a].key@
        != s.drop_last()[b].key@ by {
        assert(s.drop_last()[a] == s[a] && s.drop_last()[b] == s[b]);
    }
    if i == s.len() - 1 {
        let t = live_ttl(s.drop_last(), now).push(s.last());
        assert(live_ttl(s, now) == t);
        lemma_idx_unique(t, s[i].key@, t.len() - 1);
    } else {
        assert(s.drop_last()[i] == s[i]);
        lemma_live_preserves(s.drop_last(), now, i);
        if entry_live(s.last(), now) {
            let sub = live_ttl(s.drop_last(), now);
            let t = sub.push(s.last());
            let j = idx_of(sub, s[i].key@);
            assert(0 <= j < sub.len() && sub[j].key@ == s[i].key@);
            assert(t[j] == sub[j]);
            lemma_idx_unique(t, s[i].key@, j);
        }
    }
}

/// Appending an entry under a fresh key makes that key present, holding
/// exactly the appended value and expiry.
pub proof fn lemma_key_after_push(s: Seq<Entry>, e: Entry)
    requires
        distinct_keys(s),
        !has_key(s, e.key@),
    ensures
        distinct_keys(s.push(e)),
        has_key(s.push(e), e.key@),
        val_of(s.push(e), e.key@) == e.value@,
        exp_of(s.push(e), e.key@) == e.expires,
{
    lemma_distinct_push(s, e);
    lemma_idx_unique(s.push(e), e.key@, s.len() as int);
}

/// Overwriting position `i` in place leaves its key present, holding
/// exactly the new value and expiry.
pub proof fn lemma_key_after_update(s: Seq<Entry>, i: int, e: Entry)
    requires
        distinct_keys(s),
        0 <= i < s.len(),
        e.key@ == s[i].key@,
    ensures
        distinct_keys(s.update(i, e)),
        has_key(s.update(i, e), e.key@),
        val_of(s.update(i, e), e.key@) == e.value@,
        exp_of(s.update(i, e), e.key@) == e.expires,
{
    lemma_distinct_insert_back(s, i, e);
    lemma_idx_unique(s.update(i, e), e.key@, i);
}

/// LAW: a stored key that has not lapsed is found by a lookup. Combined
/// with `Store::set_at`'s contract — which makes the key present with the
/// set value — and `Store::get_at`'s — which returns the live value of a
/// present key and counts a hit — this says a set followed by a get of
/// the same key yields the value that was set.
pub proof fn law_set_then_get(s: Store, k: Seq<char>, now: u64)
    requires
        s.wf(),
        has_key(s.entries(), k),
        s.policy() is Ttl ==> entry_live(s.entries()[idx_of(s.entries(), k)], now),
    ensures
        has_key(live(s.entries(), s.policy(), now), k),
        val_of(live(s.entries(), s.policy(), now), k) == val_of(s.entries(), k),
{
    if s.policy() is Ttl {
        let i = idx_of(s.entries(), k);
        assert(0 <= i < s.entries().len() && s.entries()[i].key@ == k);
        lemma_live_preserves(s.entries(), now, i);
    }
}

/// LAW: a key absent from the store misses at every second. Combined with
/// `Store::remove_at`'s contract — which makes the key absent — and
/// `Store::get_at`'s — which returns nothing for an absent key and counts
/// a miss — this says a remove followed by a get of the same key fails.
pub proof fn law_remove_then_get(s: Store, k: Seq<char>, now: u64)
    requires
        s.wf(),
        !has_key(s.entries(), k),
    ensures
        !has_key(live(s.entries(), s.policy(), now), k),
{
    if s.policy() is Ttl {
        lemma_live_not_has(s.entries(), now, k);
    }
}

/// LAW: a freshly created store has no live entries at any second, so —
/// by `Store::new`'s and `Store::stats_at`'s contracts — its statistics
/// snapshot reports zero hits, zero misses, size zero and the configured
/// capacity.
pub proof fn law_fresh_stats(s: Store, now: u64)
    requires
        s.entries() == Seq::<Entry>::empty(),
    ensures
        live(s.entries(), s.policy(), now).len() == 0,
{
    assert(live_ttl(s.entries(), now) =~= Seq::<Entry>::empty());
}

/// LAW: one hit- or miss-producing lookup moves its counter up by exactly
/// one until the counter saturates at `u64::MAX`: the counter updates in
/// `Store::get_at`'s contract are `sat_add(_, 1)`, which below saturation
/// is plain addition.
pub proof fn law_counter_increment(a: u64)
    requires
        a < u64::MAX,
    ensures
        sat_add(a, 1) == a + 1,
{
}

/// LAW: a set of a new key grows the entry count by exactly one while the
/// cache is below capacity, keeps it unchanged by evicting exactly one
/// entry when full, and retains nothing with capacity zero: the counts of
/// the three new-key outcomes of `Store::set_at`'s contract.
pub proof fn law_set_new_key_size(live0: Seq<Entry>, e: Entry, cap: u64)
    ensures
        live0.len() < cap ==> live0.push(e).len() == live0.len() + 1,
        live0.len() == cap && cap > 0 ==> live0.drop_last().push(e).len() == cap && live0.remove(
            0,
        ).push(e).len() == cap,
{
}

/// Copies a byte vector.
fn clone_bytes(v: &Vec<u8>) -> (r: Vec<u8>)
    ensures
        r@ == v@,
{
    let mut r: Vec<u8> = Vec::new();
    let mut i: usize = 0;
    while i < v.len()
        invariant
            i <= v@.len(),
            r@ == v@.take(i as int),
        decreases v@.len() - i,
    {
        r.push(v[i]);
        proof {
            assert(r@ =~= v@.take(i as int + 1));
        }
        i = i + 1;
    }
    proof {
        assert(v@.take(v@.len() as int) =~= v@);
    }
    r
}

/// Addition on `u64` that stops at `u64::MAX` instead of wrapping.
fn sat_add_u64(a: u64, b: u64) -> (r: u64)
    ensures
        r == sat_add(a, b),
{
    if a <= u64::MAX - b {
        a + b
    } else {
        u64::MAX
    }
}

} // verus!
