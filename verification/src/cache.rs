//! A small read-cache abstraction.
//!
//! All operations are best-effort: a cache that fails misses or does nothing, and
//! never fails its caller, for whom the store remains the source of truth. What a
//! cache may do is therefore stated in two parts. Any cache hands out only what
//! was last set under a key. Whether it also keeps what it is given
//! ([`Cache::retains`]) and drops what it is told to drop ([`Cache::evicts`])
//! depends on the cache.
//!
//! - [`NoOpCache`] is caching disabled.
//! - [`InMemoryCache`] is a process-local map.

use vstd::hash_map::StringHashMap;
use vstd::prelude::*;

verus! {

/// Read-cache port.
pub trait Cache<V: Clone>: Sized {
    /// What may be handed out, by key.
    spec fn entries(&self) -> Map<Seq<char>, V>;

    /// For how many seconds each of them was set, by key.
    spec fn lifetimes(&self) -> Map<Seq<char>, u64>;

    /// Whether everything that is set is kept, and found, until it is deleted.
    spec fn retains(&self) -> bool;

    /// Whether everything that is deleted is gone.
    spec fn evicts(&self) -> bool;

    /// What is cached under `key`, or `None` for a miss.
    fn get(&self, key: &str) -> (hit: Option<V>)
        ensures
            hit matches Some(v) ==> self.entries().contains_key(key@) && cloned(
                self.entries()[key@],
                v,
            ),
            self.retains() && self.entries().contains_key(key@) ==> hit is Some,
    ;

    /// Caches `value` under `key` for at most `ttl_secs` seconds.
    fn set(&mut self, key: &str, value: V, ttl_secs: u64)
        ensures
            final(self).retains() == old(self).retains(),
            final(self).evicts() == old(self).evicts(),
            ({
                ||| final(self).entries() == old(self).entries().insert(key@, value)
                    && final(self).lifetimes() == old(self).lifetimes().insert(key@, ttl_secs)
                ||| !old(self).retains() && final(self).entries() == old(self).entries()
                    && final(self).lifetimes() == old(self).lifetimes()
            }),
    ;

    /// Drops what is cached under `key`.
    fn delete(&mut self, key: &str)
        ensures
            final(self).retains() == old(self).retains(),
            final(self).evicts() == old(self).evicts(),
            ({
                ||| final(self).entries() == old(self).entries().remove(key@)
                    && final(self).lifetimes() == old(self).lifetimes().remove(key@)
                ||| !old(self).evicts() && final(self).entries() == old(self).entries()
                    && final(self).lifetimes() == old(self).lifetimes()
            }),
    ;
}

/// Caching disabled: every read misses; writes are no-ops.
#[derive(Debug, Clone, Copy)]
pub struct NoOpCache;

impl Default for NoOpCache {
    fn default() -> Self {
        NoOpCache
    }
}

impl<V: Clone> Cache<V> for NoOpCache {
    open spec fn entries(&self) -> Map<Seq<char>, V> {
        Map::empty()
    }

    open spec fn lifetimes(&self) -> Map<Seq<char>, u64> {
        Map::empty()
    }

    open spec fn retains(&self) -> bool {
        false
    }

    open spec fn evicts(&self) -> bool {
        true
    }

    fn get(&self, _key: &str) -> Option<V> {
        None
    }

    fn set(&mut self, _key: &str, _value: V, _ttl_secs: u64) {
    }

    fn delete(&mut self, key: &str) {
        assert(Map::<Seq<char>, V>::empty().remove(key@) =~= Map::<Seq<char>, V>::empty());
        assert(Map::<Seq<char>, u64>::empty().remove(key@) =~= Map::<Seq<char>, u64>::empty());
    }
}

/// Process-local cache (ignores the time to live). For tests and single-instance
/// local runs.
#[verifier::reject_recursive_types(V)]
pub struct InMemoryCache<V> {
    map: StringHashMap<V>,
    lives: Ghost<Map<Seq<char>, u64>>,
}

impl<V> Default for InMemoryCache<V> {
    fn default() -> (c: Self)
        ensures
            c.contents() == Map::<Seq<char>, V>::empty(),
            c.lives() == Map::<Seq<char>, u64>::empty(),
    {
        InMemoryCache { map: StringHashMap::new(), lives: Ghost(Map::empty()) }
    }
}

impl<V> InMemoryCache<V> {
    /// What is cached, by key.
    pub closed spec fn contents(&self) -> Map<Seq<char>, V> {
        self.map@
    }

    /// The times to live that came with what is cached, by key. They are ignored.
    pub closed spec fn lives(&self) -> Map<Seq<char>, u64> {
        self.lives@
    }
}

impl<V: Clone> Cache<V> for InMemoryCache<V> {
    open spec fn entries(&self) -> Map<Seq<char>, V> {
        self.contents()
    }

    open spec fn lifetimes(&self) -> Map<Seq<char>, u64> {
        self.lives()
    }

    open spec fn retains(&self) -> bool {
        true
    }

    open spec fn evicts(&self) -> bool {
        true
    }

    fn get(&self, key: &str) -> (hit: Option<V>)
        ensures
            hit is Some <==> self.contents().contains_key(key@),
    {
        match self.map.get(key) {
            Some(v) => Some(v.clone()),
            None => None,
        }
    }

    fn set(&mut self, key: &str, value: V, ttl_secs: u64) {
        self.map.insert(key.to_owned(), value);
        proof {
            self.lives@ = self.lives@.insert(key@, ttl_secs);
        }
    }

    fn delete(&mut self, key: &str) {
        self.map.remove(key);
        proof {
            self.lives@ = self.lives@.remove(key@);
        }
    }
}

/// What is set in a local cache is found under its key, whatever its time to live, until
/// it is set anew or deleted; the entries under other keys stay. What is deleted is not
/// found.
pub proof fn local_cache_finds_what_was_set<V: Clone>(
    c: &mut InMemoryCache<V>,
    d: &mut InMemoryCache<V>,
    key: &str,
    value: V,
    ttl_secs: u64,
    hit: Option<V>,
    gone: Option<V>,
    other: Seq<char>,
)
    requires
        call_ensures(InMemoryCache::<V>::set, (c, key, value, ttl_secs), ()),
        call_ensures(InMemoryCache::<V>::get, (final(c), key), hit),
        *old(d) == *final(c),
        call_ensures(InMemoryCache::<V>::delete, (d, key), ()),
        call_ensures(InMemoryCache::<V>::get, (final(d), key), gone),
    ensures
        hit is Some && cloned(value, hit->Some_0),
        gone is None,
        other != key@ ==> {
            &&& final(c).entries().contains_key(other) <==> old(c).entries().contains_key(other)
            &&& final(d).entries().contains_key(other) <==> old(c).entries().contains_key(other)
            &&& old(c).entries().contains_key(other) ==> final(c).entries()[other]
                == old(c).entries()[other] && final(d).entries()[other]
                == old(c).entries()[other]
        },
        old(c).retains() && old(c).evicts(),
{
}

/// Without a cache nothing is ever found.
pub proof fn disabled_cache_finds_nothing<V: Clone>(c: NoOpCache, key: &str, hit: Option<V>)
    requires
        call_ensures(<NoOpCache as Cache<V>>::get, (&c, key), hit),
    ensures
        hit is None,
{
}

} // verus!
