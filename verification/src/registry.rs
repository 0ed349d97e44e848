//! The registry's name map: which cache lives under which name.
//!
//! A [`Registry`] is the sequential core: a collection of (name, instance)
//! pairs with pairwise-distinct names, viewed as a map from names to
//! shared instance handles. Its operations carry exact contracts: creation
//! succeeds if and only if the name is absent, removal and lookup succeed
//! if and only if it is present, and a failed operation leaves the map
//! untouched. The concurrent wrapper lives in [`crate::state`].

use std::sync::Arc;

use vstd::prelude::*;

use crate::cache::{build_cache, or_default, spec_policy_of, Cache};
use crate::errors::CacheError;
use crate::request_types::CreateCacheRequest;
use crate::text::str_eq;

verus! {

/// Whether some pair of `s` carries name `n`.
pub open spec fn has_name(s: Seq<(String, Arc<Cache>)>, n: Seq<char>) -> bool {
    exists|i: int| 0 <= i < s.len() && s[i].0@ == n
}

/// The position of the pair carrying name `n`; meaningful only when
/// `has_name(s, n)` holds and the names of `s` are distinct.
pub open spec fn name_idx(s: Seq<(String, Arc<Cache>)>, n: Seq<char>) -> int {
    choose|i: int| 0 <= i < s.len() && s[i].0@ == n
}

/// No two pairs of `s` share a name.
pub open spec fn distinct_names(s: Seq<(String, Arc<Cache>)>) -> bool {
    forall|i: int, j: int| 0 <= i < j < s.len() ==> s[i].0@ != s[j].0@
}

/// The map the pair sequence stands for.
pub open spec fn map_of(s: Seq<(String, Arc<Cache>)>) -> Map<Seq<char>, Arc<Cache>>
    decreases s.len(),
{
    if s.len() == 0 {
        Map::empty()
    } else {
        map_of(s.drop_last()).insert(s.last().0@, s.last().1)
    }
}

/// The map contains exactly the names the sequence carries.
pub proof fn lemma_map_of_contains(s: Seq<(String, Arc<Cache>)>, n: Seq<char>)
    ensures
        map_of(s).contains_key(n) <==> has_name(s, n),
    decreases s.len(),
{
    if s.len() > 0 {
        lemma_map_of_contains(s.drop_last(), n);
        if has_name(s, n) && s.last().0@ != n {
            let i = name_idx(s, n);
            assert(s.drop_last()[i] == s[i]);
        }
    }
}

/// With distinct names, the map sends each name to the instance paired
/// with it.
pub proof fn lemma_map_of_get(s: Seq<(String, Arc<Cache>)>, i: int)
    requires
        distinct_names(s),
        0 <= i < s.len(),
    ensures
        map_of(s).contains_key(s[i].0@),
        map_of(s)[s[i].0@] == s[i].1,
    decreases s.len(),
{
    if i == s.len() - 1 {
        lemma_map_of_contains(s, s[i].0@);
    } else {
        assert(s.drop_last()[i] == s[i]);
        assert(distinct_names(s.drop_last()));
        lemma_map_of_get(s.drop_last(), i);
        assert(s[i].0@ != s.last().0@);
    }
}

/// Appending a pair with a fresh name inserts it into the map.
pub proof fn lemma_map_of_push(s: Seq<(String, Arc<Cache>)>, name: String, c: Arc<Cache>)
    ensures
        map_of(s.push((name, c))) == map_of(s).insert(name@, c),
{
    let t = s.push((name, c));
    assert(t.drop_last() =~= s);
    assert(t.last() == (name, c));
}

/// With distinct names, removing the pair at `i` removes its name from
/// the map.
pub proof fn lemma_map_of_remove(s: Seq<(String, Arc<Cache>)>, i: int)
    requires
        distinct_names(s),
        0 <= i < s.len(),
    ensures
        map_of(s.remove(i)) == map_of(s).remove(s[i].0@),
    decreases s.len(),
{
    if i == s.len() - 1 {
        assert(s.remove(i) =~= s.drop_last());
        lemma_map_of_contains(s.drop_last(), s[i].0@);
        assert forall|a: int| 0 <= a < s.drop_last().len() implies s.drop_last()[a].0@
            != s[i].0@ by {
            assert(s.drop_last()[a] == s[a]);
        }
        assert(!map_of(s.drop_last()).contains_key(s[i].0@));
        assert(map_of(s.drop_last()).insert(s[i].0@, s[i].1).remove(s[i].0@) =~= map_of(
            s.drop_last(),
        ));
    } else {
        let t = s.remove(i);
        assert(t.drop_last() =~= s.drop_last().remove(i));
        assert(t.last() == s.last());
        assert(distinct_names(s.drop_last()));
        lemma_map_of_remove(s.drop_last(), i);
        assert(s.drop_last()[i] == s[i]);
        assert(s[i].0@ != s.last().0@);
        assert(map_of(s.drop_last()).remove(s[i].0@).insert(s.last().0@, s.last().1) =~= map_of(
            s.drop_last(),
        ).insert(s.last().0@, s.last().1).remove(s[i].0@));
    }
}

/// With distinct names, a name occurring at position `i` is the unique
/// match, so `name_idx` lands on it.
pub proof fn lemma_name_idx_unique(s: Seq<(String, Arc<Cache>)>, n: Seq<char>, i: int)
    requires
        distinct_names(s),
        0 <= i < s.len(),
        s[i].0@ == n,
    ensures
        has_name(s, n),
        name_idx(s, n) == i,
{
    assert(has_name(s, n));
    let j = name_idx(s, n);
    assert(0 <= j < s.len() && s[j].0@ == n);
    if j < i {
        assert(s[j].0@ != s[i].0@);
    } else if i < j {
        assert(s[i].0@ != s[j].0@);
    }
}

/// Removing a pair keeps the remaining names distinct.
pub proof fn lemma_distinct_names_remove(s: Seq<(String, Arc<Cache>)>, i: int)
    requires
        distinct_names(s),
        0 <= i < s.len(),
    ensures
        distinct_names(s.remove(i)),
{
    let t = s.remove(i);
    assert forall|a: int, b: int| 0 <= a < b < t.len() implies t[a].0@ != t[b].0@ by {
        let a0 = if a < i { a } else { a + 1 };
        let b0 = if b < i { b } else { b + 1 };
        assert(t[a] == s[a0]);
        assert(t[b] == s[b0]);
    }
}

/// Appending a pair with a fresh name keeps the names distinct.
pub proof fn lemma_distinct_names_push(s: Seq<(String, Arc<Cache>)>, name: String, c: Arc<Cache>)
    requires
        distinct_names(s),
        !has_name(s, name@),
    ensures
        distinct_names(s.push((name, c))),
{
    let t = s.push((name, c));
    assert forall|a: int, b: int| 0 <= a < b < t.len() implies t[a].0@ != t[b].0@ by {
        if b < s.len() {
            assert(t[a] == s[a] && t[b] == s[b]);
        } else {
            assert(t[a] == s[a]);
        }
    }
}

/// The sequential name map: every cache lives under exactly one name.
pub struct Registry {
    entries: Vec<(String, Arc<Cache>)>,
}

impl View for Registry {
    type V = Map<Seq<char>, Arc<Cache>>;

    closed spec fn view(&self) -> Map<Seq<char>, Arc<Cache>> {
        map_of(self.entries@)
    }
}

impl Registry {
    /// Well-formedness: no name is registered twice.
    pub closed spec fn wf(self) -> bool {
        distinct_names(self.entries@)
    }

    /// A fresh, empty registry.
    pub fn new() -> (r: Registry)
        ensures
            r.wf(),
            r@ == Map::<Seq<char>, Arc<Cache>>::empty(),
    {
        Registry { entries: Vec::new() }
    }

    /// Finds the position of `name` among the pairs.
    fn find(&self, name: &str) -> (r: Option<usize>)
        requires
            self.wf(),
        ensures
            (match r {
                Some(i) => i < self.entries@.len() && self.entries@[i as int].0@ == name@
                    && has_name(self.entries@, name@) && name_idx(self.entries@, name@) == i
                    && self@.contains_key(name@) && self@[name@] == self.entries@[i as int].1,
                None => !has_name(self.entries@, name@) && !self@.contains_key(name@),
            }),
    {
        let mut i: usize = 0;
        while i < self.entries.len()
            invariant
                i <= self.entries@.len(),
                self.wf(),
                forall|j: int| 0 <= j < i ==> self.entries@[j].0@ != name@,
            decreases self.entries@.len() - i,
        {
            if str_eq(self.entries[i].0.as_str(), name) {
                proof {
                    lemma_name_idx_unique(self.entries@, name@, i as int);
                    lemma_map_of_get(self.entries@, i as int);
                }
                return Some(i);
            }
            i = i + 1;
        }
        proof {
            assert(!has_name(self.entries@, name@));
            lemma_map_of_contains(self.entries@, name@);
        }
        None
    }

    /// Whether a cache named `name` is present.
    pub fn contains(&self, name: &str) -> (r: bool)
        requires
            self.wf(),
        ensures
            r == self@.contains_key(name@),
    {
        match self.find(name) {
            Some(_) => true,
            None => false,
        }
    }

    /// Registers `cache` under `name`: succeeds if and only if the name is
    /// absent, and fails without touching the map otherwise.
    pub fn create(&mut self, name: String, cache: Arc<Cache>) -> (r: Result<(), CacheError>)
        requires
            old(self).wf(),
        ensures
            final(self).wf(),
            old(self)@.contains_key(name@) ==> r == Err::<(), CacheError>(
                CacheError::CacheAlreadyExists,
            ) && final(self)@ == old(self)@,
            !old(self)@.contains_key(name@) ==> r == Ok::<(), CacheError>(()) && final(self)@
                == old(self)@.insert(name@, cache),
    {
        match self.find(name.as_str()) {
            Some(_) => Err(CacheError::CacheAlreadyExists),
            None => {
                proof {
                    lemma_distinct_names_push(self.entries@, name, cache);
                    lemma_map_of_push(self.entries@, name, cache);
                }
                self.entries.push((name, cache));
                Ok(())
            },
        }
    }

    /// Removes the cache named `name` and hands its instance back:
    /// succeeds if and only if the name is present, and fails without
    /// touching the map otherwise.
    pub fn remove(&mut self, name: &str) -> (r: Result<Arc<Cache>, CacheError>)
        requires
            old(self).wf(),
        ensures
            final(self).wf(),
            old(self)@.contains_key(name@) ==> (r matches Ok(c) && c == old(self)@[name@])
                && final(self)@ == old(self)@.remove(name@),
            !old(self)@.contains_key(name@) ==> r == Err::<Arc<Cache>, CacheError>(
                CacheError::CacheNotFound,
            ) && final(self)@ == old(self)@,
    {
        match self.find(name) {
            Some(i) => {
                proof {
                    lemma_distinct_names_remove(self.entries@, i as int);
                    lemma_map_of_remove(self.entries@, i as int);
                }
                let (_, cache) = self.entries.remove(i);
                Ok(cache)
            },
            None => Err(CacheError::CacheNotFound),
        }
    }

    /// Hands back a shared handle to the cache named `name`, without
    /// removing it: succeeds if and only if the name is present.
    pub fn lookup(&self, name: &str) -> (r: Result<Arc<Cache>, CacheError>)
        requires
            self.wf(),
        ensures
            self@.contains_key(name@) ==> (r matches Ok(c) && c == self@[name@]),
            !self@.contains_key(name@) ==> r == Err::<Arc<Cache>, CacheError>(
                CacheError::CacheNotFound,
            ),
    {
        match self.find(name) {
            Some(i) => Ok(self.entries[i].1.clone()),
            None => Err(CacheError::CacheNotFound),
        }
    }

    /// The whole creation step: rejects a present name, then an unknown
    /// policy identifier — before any instance is constructed — and only
    /// then builds and registers a fresh instance. A failure of either
    /// kind leaves the map untouched.
    pub fn create_cache(&mut self, req: &CreateCacheRequest) -> (r: Result<(), CacheError>)
        requires
            old(self).wf(),
        ensures
            final(self).wf(),
            old(self)@.contains_key(req.name@) ==> r == Err::<(), CacheError>(
                CacheError::CacheAlreadyExists,
            ) && final(self)@ == old(self)@,
            !old(self)@.contains_key(req.name@) && spec_policy_of(req.cache_type@) is None ==> r
                == Err::<(), CacheError>(CacheError::UnknownCacheType) && final(self)@ == old(
                self,
            )@,
            !old(self)@.contains_key(req.name@) && spec_policy_of(req.cache_type@) is Some ==> {
                &&& r == Ok::<(), CacheError>(())
                &&& final(self)@.contains_key(req.name@)
                &&& final(self)@ == old(self)@.insert(req.name@, final(self)@[req.name@])
                &&& ({
                    let c = final(self)@[req.name@];
                    &&& Some(c.policy()) == spec_policy_of(req.cache_type@)
                    &&& c.capacity() == req.capacity
                    &&& c.policy() is Ttl ==> c.ttl_secs() == or_default(req.ttl, 60)
                        && c.check_interval_secs() == or_default(req.check_interval, 10)
                        && c.jitter_secs() == or_default(req.jitter, 0)
                })
            },
    {
        if self.contains(req.name.as_str()) {
            return Err(CacheError::CacheAlreadyExists);
        }
        let cache = match build_cache(
            req.cache_type.as_str(),
            req.capacity,
            req.ttl,
            req.check_interval,
            req.jitter,
        ) {
            Ok(c) => c,
            Err(e) => {
                return Err(e);
            },
        };
        let name = clone_string(&req.name);
        self.create(name, Arc::new(cache))
    }
}

/// LAW: creation is exclusive. For a name not present, a creation
/// registers its instance — an existence check right after yields true and
/// finds exactly that instance — and by `Registry::create`'s contract any
/// later creation of the same name fails with `CacheAlreadyExists`,
/// leaving the map, in particular the first instance, untouched. Under
/// the shared lock of `crate::state::AppState` creations are
/// linearizable, so of concurrent creations of one name exactly the first
/// in the linearization order succeeds.
pub proof fn law_exclusive_create(m: Map<Seq<char>, Arc<Cache>>, n: Seq<char>, c: Arc<Cache>)
    requires
        !m.contains_key(n),
    ensures
        m.insert(n, c).contains_key(n),
        m.insert(n, c)[n] == c,
{
}

/// Copies a string.
fn clone_string(s: &String) -> (r: String)
    ensures
        r@ == s@,
{
    s.clone()
}

} // verus!
