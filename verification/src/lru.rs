//! A bounded least-recently-used map from 32-byte keys to 64-bit values,
//! backed by the `lru-cache` crate.
//!
//! The cache is modelled by the sequence of its pairs in order of use, the
//! least recently used pair first. Everything stated here about the crate's
//! methods is taken on trust; the code that uses the cache is proved against
//! these statements.

use vstd::prelude::*;
use std::collections::hash_map::RandomState;
use std::hash::BuildHasher;
use std::hash::Hash;
use lru_cache::LruCache;
use crate::primitives::Byte32;
use crate::primitives::lemma_position;
use crate::primitives::position;

verus! {

/// `LruCache` of `lru-cache`, carried as a value that is not looked into.
#[verifier::external_type_specification]
#[verifier::external_body]
#[verifier::reject_recursive_types(K)]
#[verifier::reject_recursive_types(V)]
#[verifier::reject_recursive_types(S)]
pub struct ExLruCache<K: Eq + Hash, V, S: BuildHasher>(LruCache<K, V, S>);

/// The pairs held by a cache, least recently used first.
pub uninterp spec fn lru_entries(cache: LruCache<[u8; 32], u64, RandomState>) -> Seq<(Seq<u8>, u64)>;

/// The number of pairs a cache was made to hold.
pub uninterp spec fn lru_limit(cache: LruCache<[u8; 32], u64, RandomState>) -> nat;

/// The keys of `entries`, in their order.
pub open spec fn entry_keys(entries: Seq<(Seq<u8>, u64)>) -> Seq<Seq<u8>> {
    Seq::new(entries.len(), |i: int| entries[i].0)
}

/// The position of `key` among `entries`, or -1 where it is absent.
pub open spec fn find_key(entries: Seq<(Seq<u8>, u64)>, key: Seq<u8>) -> int {
    position(entry_keys(entries), key)
}

/// The value stored under `key`, if any.
pub open spec fn lookup(entries: Seq<(Seq<u8>, u64)>, key: Seq<u8>) -> Option<u64> {
    let i = find_key(entries, key);
    if i >= 0 {
        Some(entries[i].1)
    } else {
        None
    }
}

/// `entries` after `key` was used: its pair moves to the most recent end.
pub open spec fn touched(entries: Seq<(Seq<u8>, u64)>, key: Seq<u8>) -> Seq<(Seq<u8>, u64)> {
    let i = find_key(entries, key);
    if i >= 0 {
        entries.remove(i).push(entries[i])
    } else {
        entries
    }
}

/// `entries` without the pair of `key`.
pub open spec fn without(entries: Seq<(Seq<u8>, u64)>, key: Seq<u8>) -> Seq<(Seq<u8>, u64)> {
    let i = find_key(entries, key);
    if i >= 0 {
        entries.remove(i)
    } else {
        entries
    }
}

/// `entries` after `key` was stored with `value` in a cache that holds at
/// most `limit` pairs: the pair becomes the most recent one, and the least
/// recent pair leaves where the limit is exceeded.
pub open spec fn stored(entries: Seq<(Seq<u8>, u64)>, limit: nat, key: Seq<u8>, value: u64) -> Seq<
    (Seq<u8>, u64),
> {
    let grown = without(entries, key).push((key, value));
    if grown.len() > limit {
        grown.drop_first()
    } else {
        grown
    }
}

/// No key occurs twice in `entries`.
pub open spec fn distinct_keys(entries: Seq<(Seq<u8>, u64)>) -> bool {
    forall|i: int, j: int|
        0 <= i < entries.len() && 0 <= j < entries.len() && i != j ==> entries[i].0
            != entries[j].0
}

/// `LruCache::new`: an empty cache with the given capacity.
#[verifier::external_body]
pub(crate) fn lru_new(capacity: usize) -> (r: LruCache<[u8; 32], u64, RandomState>)
    ensures
        lru_entries(r) == Seq::<(Seq<u8>, u64)>::empty(),
        lru_limit(r) == capacity as nat,
{
    LruCache::new(capacity)
}

/// `LruCache::len`: the number of pairs held.
#[verifier::external_body]
pub(crate) fn lru_len(cache: &LruCache<[u8; 32], u64, RandomState>) -> (r: usize)
    ensures
        r as nat == lru_entries(*cache).len(),
{
    cache.len()
}

/// `LruCache::capacity`: the limit the cache was made with.
#[verifier::external_body]
pub(crate) fn lru_capacity(cache: &LruCache<[u8; 32], u64, RandomState>) -> (r: usize)
    ensures
        r as nat == lru_limit(*cache),
{
    cache.capacity()
}

/// `LruCache::get_mut`: the value under `key`, whose pair becomes the most
/// recently used one; nothing changes where the key is absent.
#[verifier::external_body]
pub(crate) fn lru_get(cache: &mut LruCache<[u8; 32], u64, RandomState>, key: &[u8; 32]) -> (r:
    Option<u64>)
    ensures
        r == lookup(lru_entries(*old(cache)), key@),
        lru_entries(*final(cache)) == touched(lru_entries(*old(cache)), key@),
        lru_limit(*final(cache)) == lru_limit(*old(cache)),
{
    cache.get_mut(key).copied()
}

/// `LruCache::insert`: stores the pair as the most recently used one,
/// replacing an earlier pair of the same key, then drops the least recently
/// used pair if the capacity is exceeded. Returns the replaced value.
#[verifier::external_body]
pub(crate) fn lru_insert(
    cache: &mut LruCache<[u8; 32], u64, RandomState>,
    key: [u8; 32],
    value: u64,
) -> (r: Option<u64>)
    ensures
        r == lookup(lru_entries(*old(cache)), key@),
        lru_entries(*final(cache)) == stored(
            lru_entries(*old(cache)),
            lru_limit(*old(cache)),
            key@,
            value,
        ),
        lru_limit(*final(cache)) == lru_limit(*old(cache)),
{
    cache.insert(key, value)
}

/// `LruCache::remove`: takes the pair of `key` out and returns its value.
#[verifier::external_body]
pub(crate) fn lru_remove(cache: &mut LruCache<[u8; 32], u64, RandomState>, key: &[u8; 32]) -> (r:
    Option<u64>)
    ensures
        r == lookup(lru_entries(*old(cache)), key@),
        lru_entries(*final(cache)) == without(lru_entries(*old(cache)), key@),
        lru_limit(*final(cache)) == lru_limit(*old(cache)),
{
    cache.remove(key)
}

/// With distinct keys, a key's value is the value of any pair that holds
/// the key.
pub proof fn lemma_lookup(entries: Seq<(Seq<u8>, u64)>, key: Seq<u8>)
    requires
        distinct_keys(entries),
    ensures
        lookup(entries, key).is_none() <==> forall|i: int|
            0 <= i < entries.len() ==> (#[trigger] entries[i]).0 != key,
        forall|i: int|
            0 <= i < entries.len() && (#[trigger] entries[i]).0 == key ==> lookup(entries, key)
                == Some(entries[i].1),
{
    lemma_position(entry_keys(entries), key);
    let p = find_key(entries, key);
    if p >= 0 {
        assert(entry_keys(entries)[p] == key);
        assert(entries[p].0 == key);
    }
    assert forall|i: int| 0 <= i < entries.len() implies (#[trigger] entries[i]).0
        == entry_keys(entries)[i] by {}
}

/// Using a key keeps the keys distinct and every key's value.
pub proof fn lemma_touched(entries: Seq<(Seq<u8>, u64)>, key: Seq<u8>)
    requires
        distinct_keys(entries),
    ensures
        distinct_keys(touched(entries, key)),
        touched(entries, key).len() == entries.len(),
        forall|other: Seq<u8>| lookup(touched(entries, key), other) == lookup(entries, other),
{
    lemma_position(entry_keys(entries), key);
    let p = find_key(entries, key);
    let after = touched(entries, key);
    if p >= 0 {
        let n = entries.len() as int;
        assert(after.len() == n);
        assert forall|j: int| 0 <= j < n implies #[trigger] after[j] == (if j < p {
            entries[j]
        } else if j < n - 1 {
            entries[j + 1]
        } else {
            entries[p]
        }) by {}
        assert(distinct_keys(after));
        assert forall|other: Seq<u8>| lookup(after, other) == lookup(entries, other) by {
            lemma_lookup(entries, other);
            lemma_lookup(after, other);
            if lookup(entries, other).is_some() {
                let i = choose|i: int| 0 <= i < n && (#[trigger] entries[i]).0 == other;
                let j = if i < p {
                    i
                } else if i == p {
                    n - 1
                } else {
                    i - 1
                };
                assert(after[j] == entries[i]);
            } else {
                assert forall|j: int| 0 <= j < n implies (#[trigger] after[j]).0 != other by {
                    let i = if j < p {
                        j
                    } else if j < n - 1 {
                        j + 1
                    } else {
                        p
                    };
                    assert(after[j] == entries[i]);
                }
            }
        }
    }
}

/// Storing a pair keeps the keys distinct and stays within the limit.
pub proof fn lemma_stored(entries: Seq<(Seq<u8>, u64)>, limit: nat, key: Seq<u8>, value: u64)
    requires
        distinct_keys(entries),
        entries.len() <= limit,
    ensures
        distinct_keys(stored(entries, limit, key, value)),
        stored(entries, limit, key, value).len() <= limit,
{
    lemma_position(entry_keys(entries), key);
    let p = find_key(entries, key);
    let base = without(entries, key);
    let n = entries.len() as int;
    if p >= 0 {
        assert forall|j: int| 0 <= j < n - 1 implies #[trigger] base[j] == (if j < p {
            entries[j]
        } else {
            entries[j + 1]
        }) by {}
    }
    assert forall|j: int| 0 <= j < base.len() implies (#[trigger] base[j]).0 != key by {
        if p >= 0 {
            let i = if j < p {
                j
            } else {
                j + 1
            };
            assert(base[j] == entries[i]);
        } else {
            assert(entry_keys(entries)[j] != key);
        }
    }
    assert(distinct_keys(base));
    let grown = base.push((key, value));
    assert(distinct_keys(grown));
    if grown.len() > limit {
        let cut = grown.drop_first();
        assert forall|j: int| 0 <= j < cut.len() implies #[trigger] cut[j] == grown[j + 1] by {}
        assert(distinct_keys(cut));
    }
}

/// A pair that was stored in a cache with room for at least one pair is
/// found under its key.
pub proof fn lemma_stored_is_found(
    entries: Seq<(Seq<u8>, u64)>,
    limit: nat,
    key: Seq<u8>,
    value: u64,
)
    requires
        distinct_keys(entries),
        entries.len() <= limit,
        limit > 0,
    ensures
        lookup(stored(entries, limit, key, value), key) == Some(value),
{
    lemma_stored(entries, limit, key, value);
    let after = stored(entries, limit, key, value);
    let grown = without(entries, key).push((key, value));
    lemma_position(entry_keys(entries), key);
    assert(grown.last() == (key, value));
    if grown.len() > limit {
        assert(grown.len() >= 2);
        assert(after[after.len() - 1] == grown[grown.len() - 1]);
    }
    assert(after[after.len() - 1].0 == key);
    lemma_lookup(after, key);
}

/// The cycles that transactions took when they were last verified, by
/// transaction hash; the least recently used entries leave first.
pub struct CycleCache {
    pub inner: LruCache<[u8; 32], u64, RandomState>,
}

impl CycleCache {
    /// The pairs held, least recently used first.
    pub open spec fn entries(&self) -> Seq<(Seq<u8>, u64)> {
        lru_entries(self.inner)
    }

    /// The number of pairs the cache may hold.
    pub open spec fn limit(&self) -> nat {
        lru_limit(self.inner)
    }

    /// No key occurs twice and the limit is kept.
    pub open spec fn wf(&self) -> bool {
        distinct_keys(self.entries()) && self.entries().len() <= self.limit()
    }

    /// The cycles cached for the transaction with hash `hash`.
    pub open spec fn spec_cycles(&self, hash: Seq<u8>) -> Option<u64> {
        lookup(self.entries(), hash)
    }

    /// An empty cache for `capacity` transactions.
    pub fn new(capacity: usize) -> (r: CycleCache)
        ensures
            r.wf(),
            r.entries().len() == 0,
            r.limit() == capacity as nat,
    {
        CycleCache { inner: lru_new(capacity) }
    }

    /// The number of hashes held.
    pub fn len(&self) -> (r: usize)
        ensures
            r as nat == self.entries().len(),
    {
        lru_len(&self.inner)
    }

    /// The number of hashes the cache was made to hold.
    pub fn capacity(&self) -> (r: usize)
        ensures
            r as nat == self.limit(),
    {
        lru_capacity(&self.inner)
    }

    /// The cycles cached for `hash`; a hit makes the entry the most
    /// recently used one and changes nothing else.
    pub fn get(&mut self, hash: &Byte32) -> (r: Option<u64>)
        requires
            old(self).wf(),
        ensures
            final(self).wf(),
            r == old(self).spec_cycles(hash@),
            final(self).entries() == touched(old(self).entries(), hash@),
            final(self).limit() == old(self).limit(),
            forall|other: Seq<u8>|
                #![trigger final(self).spec_cycles(other)]
                final(self).spec_cycles(other) == old(self).spec_cycles(other),
    {
        proof {
            lemma_touched(self.entries(), hash@);
        }
        lru_get(&mut self.inner, &hash.bytes)
    }

    /// Caches `cycles` for `hash` as the most recently used entry; the
    /// least recently used entry leaves where the limit is exceeded.
    pub fn insert(&mut self, hash: Byte32, cycles: u64) -> (r: Option<u64>)
        requires
            old(self).wf(),
        ensures
            final(self).wf(),
            r == old(self).spec_cycles(hash@),
            final(self).entries() == stored(
                old(self).entries(),
                old(self).limit(),
                hash@,
                cycles,
            ),
            final(self).limit() == old(self).limit(),
            final(self).limit() > 0 ==> final(self).spec_cycles(hash@) == Some(cycles),
    {
        proof {
            lemma_stored(self.entries(), self.limit(), hash@, cycles);
            if self.limit() > 0 {
                lemma_stored_is_found(self.entries(), self.limit(), hash@, cycles);
            }
        }
        lru_insert(&mut self.inner, hash.bytes, cycles)
    }
}

} // verus!
