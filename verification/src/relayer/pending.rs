//! Compact blocks that wait for transactions: a bounded pool from which
//! the least recently used block leaves first.
//!
//! The order of use is kept by an `LruCache` over the block hashes; the
//! blocks themselves lie beside it in the same order.

use vstd::prelude::*;
use std::collections::hash_map::RandomState;
use lru_cache::LruCache;
use crate::lru::entry_keys;
use crate::lru::lru_capacity;
use crate::lru::lru_entries;
use crate::lru::lru_get;
use crate::lru::lru_insert;
use crate::lru::lru_limit;
use crate::lru::lru_new;
use crate::lru::lru_remove;
use crate::peers::PeerIndex;
use crate::primitives::Byte32;
use crate::primitives::lemma_position;
use crate::primitives::lemma_position_is;
use crate::primitives::lemma_position_none;
use crate::primitives::position;
use crate::relayer::compact_block::CompactBlock;
use crate::types::Header;

verus! {

/// The places of a block that a peer was asked to send.
#[derive(Clone, Debug, PartialEq, Eq)]
pub struct PeerRequest {
    pub peer: PeerIndex,
    pub indexes: Vec<usize>,
}

/// A compact block with the peers from which transactions are awaited.
#[derive(Clone, Debug, PartialEq, Eq)]
pub struct PendingEntry {
    pub compact_block: CompactBlock,
    pub peers: Vec<PeerRequest>,
}

/// The compact blocks that wait for missing transactions, the least recently
/// used first to leave.
pub struct PendingCompactBlocks {
    pub order: LruCache<[u8; 32], u64, RandomState>,
    pub entries: Vec<PendingEntry>,
}

/// The place of the request made of `peer` in a list of requests, or -1.
pub open spec fn request_position(requests: Seq<PeerRequest>, peer: PeerIndex) -> int
    decreases requests.len(),
{
    if requests.len() == 0 {
        -1
    } else if requests.last().peer == peer {
        if request_position(requests.drop_last(), peer) >= 0 {
            request_position(requests.drop_last(), peer)
        } else {
            requests.len() - 1
        }
    } else {
        request_position(requests.drop_last(), peer)
    }
}

/// The position of a peer's request is the first index that holds the peer.
pub proof fn lemma_request_position(requests: Seq<PeerRequest>, peer: PeerIndex)
    ensures
        request_position(requests, peer) == -1 || 0 <= request_position(requests, peer)
            < requests.len(),
        request_position(requests, peer) >= 0 ==> requests[request_position(requests, peer)].peer
            == peer && forall|j: int|
            0 <= j < request_position(requests, peer) ==> requests[j].peer != peer,
        request_position(requests, peer) == -1 ==> forall|j: int|
            0 <= j < requests.len() ==> requests[j].peer != peer,
    decreases requests.len(),
{
    if requests.len() > 0 {
        lemma_request_position(requests.drop_last(), peer);
        assert forall|j: int| 0 <= j < requests.len() - 1 implies requests[j]
            == requests.drop_last()[j] by {}
    }
}

/// The first request made of `peer`.
pub fn find_request(requests: &Vec<PeerRequest>, peer: PeerIndex) -> (r: Option<usize>)
    ensures
        r.is_none() <==> request_position(requests@, peer) == -1,
        r.is_some() ==> r.unwrap() as int == request_position(requests@, peer) && r.unwrap()
            < requests@.len(),
{
    let mut i: usize = 0;
    while i < requests.len()
        invariant
            0 <= i <= requests.len(),
            forall|j: int| 0 <= j < i ==> requests@[j].peer != peer,
        decreases requests.len() - i,
    {
        if requests[i].peer == peer {
            proof {
                lemma_request_position(requests@, peer);
            }
            return Some(i);
        }
        i += 1;
    }
    proof {
        lemma_request_position(requests@, peer);
    }
    None
}

/// The hashes of pending blocks, least recently used first.
pub open spec fn pending_keys(entries: Seq<PendingEntry>) -> Seq<Seq<u8>> {
    Seq::new(entries.len(), |i: int| entries[i].compact_block.header.hash@)
}

/// `entries` after the block with hash `key` was used: it moves to the
/// most recent end.
pub open spec fn refreshed(entries: Seq<PendingEntry>, key: Seq<u8>) -> Seq<PendingEntry> {
    let p = position(pending_keys(entries), key);
    if p >= 0 {
        entries.remove(p).push(entries[p])
    } else {
        entries
    }
}

/// `entries` without the block with hash `key`.
pub open spec fn dropped(entries: Seq<PendingEntry>, key: Seq<u8>) -> Seq<PendingEntry> {
    let p = position(pending_keys(entries), key);
    if p >= 0 {
        entries.remove(p)
    } else {
        entries
    }
}

/// `entries` after `entry` was put into a pool of at most `limit` blocks:
/// it replaces a block of the same hash, becomes the most recently used
/// one, and the least recently used block leaves where the limit is
/// exceeded.
pub open spec fn put(entries: Seq<PendingEntry>, limit: nat, entry: PendingEntry) -> Seq<
    PendingEntry,
> {
    let grown = dropped(entries, entry.compact_block.header.hash@).push(entry);
    if grown.len() > limit {
        grown.drop_first()
    } else {
        grown
    }
}

/// No hash occurs twice among the blocks.
pub open spec fn distinct_hashes(entries: Seq<PendingEntry>) -> bool {
    forall|i: int, j: int|
        0 <= i < j < entries.len() ==> entries[i].compact_block.header.hash@
            != entries[j].compact_block.header.hash@
}

/// No peer occurs twice among the requests.
pub open spec fn distinct_requests(requests: Seq<PeerRequest>) -> bool {
    forall|i: int, j: int| 0 <= i < j < requests.len() ==> requests[i].peer != requests[j].peer
}

/// Once the first request made of a peer is taken off a list in which no
/// peer has two requests, none is left for the peer.
pub proof fn lemma_no_request_after_take(requests: Seq<PeerRequest>, peer: PeerIndex)
    requires
        request_position(requests, peer) >= 0,
        distinct_requests(requests),
    ensures
        request_position(requests.remove(request_position(requests, peer)), peer) == -1,
        distinct_requests(requests.remove(request_position(requests, peer))),
{
    lemma_request_position(requests, peer);
    let k = request_position(requests, peer);
    let rest = requests.remove(k);
    lemma_request_position(rest, peer);
    assert forall|i: int| 0 <= i < rest.len() implies #[trigger] rest[i] == (if i < k {
        requests[i]
    } else {
        requests[i + 1]
    }) by {}
    if request_position(rest, peer) >= 0 {
        let j = request_position(rest, peer);
        if j < k {
            assert(rest[j] == requests[j]);
        } else {
            assert(rest[j] == requests[j + 1]);
        }
    }
}

/// A pool from which the block of a hash was dropped does not hold that
/// hash, provided no hash occurred twice.
pub proof fn lemma_dropped_gone(after: Seq<PendingEntry>, before: Seq<PendingEntry>, key: Seq<u8>)
    requires
        position(pending_keys(before), key) >= 0,
        after == dropped(before, key),
        distinct_hashes(before),
    ensures
        position(pending_keys(after), key) == -1,
        after.len() + 1 == before.len(),
{
    lemma_position(pending_keys(before), key);
    lemma_position(pending_keys(after), key);
    let p = position(pending_keys(before), key);
    let q = position(pending_keys(after), key);
    assert(pending_keys(before)[p] == before[p].compact_block.header.hash@);
    if q >= 0 {
        if q < p {
            assert(after[q] == before[q]);
            assert(pending_keys(after)[q] == before[q].compact_block.header.hash@);
        } else {
            assert(after[q] == before[q + 1]);
            assert(pending_keys(after)[q] == before[q + 1].compact_block.header.hash@);
        }
    }
}

/// Dropping or using a block keeps the blocks distinct and their requests
/// in order.
pub proof fn lemma_pool_steps(entries: Seq<PendingEntry>, key: Seq<u8>)
    requires
        distinct_hashes(entries),
        forall|i: int| 0 <= i < entries.len() ==> distinct_requests((#[trigger] entries[i]).peers@),
    ensures
        distinct_hashes(dropped(entries, key)),
        distinct_hashes(refreshed(entries, key)),
        forall|i: int|
            0 <= i < dropped(entries, key).len() ==> distinct_requests(
                (#[trigger] dropped(entries, key)[i]).peers@,
            ),
        forall|i: int|
            0 <= i < refreshed(entries, key).len() ==> distinct_requests(
                (#[trigger] refreshed(entries, key)[i]).peers@,
            ),
        forall|i: int|
            0 <= i < dropped(entries, key).len() ==> (#[trigger] dropped(
                entries,
                key,
            )[i]).compact_block.header.hash@ != key,
{
    lemma_position(pending_keys(entries), key);
    let p = position(pending_keys(entries), key);
    let d = dropped(entries, key);
    let r = refreshed(entries, key);
    let n = entries.len() as int;
    if p >= 0 {
        assert(pending_keys(entries)[p] == entries[p].compact_block.header.hash@);
        assert forall|i: int| 0 <= i < d.len() implies #[trigger] d[i] == (if i < p {
            entries[i]
        } else {
            entries[i + 1]
        }) by {}
        assert forall|i: int| 0 <= i < r.len() implies #[trigger] r[i] == (if i < p {
            entries[i]
        } else if i < n - 1 {
            entries[i + 1]
        } else {
            entries[p]
        }) by {}
        assert(distinct_hashes(d));
        assert(distinct_hashes(r));
        assert forall|i: int| 0 <= i < d.len() implies (#[trigger] d[i]).compact_block.header.hash@
            != key by {
            if i < p {
                assert(d[i] == entries[i]);
            } else {
                assert(d[i] == entries[i + 1]);
            }
        }
    } else {
        assert forall|i: int| 0 <= i < d.len() implies (#[trigger] d[i]).compact_block.header.hash@
            != key by {
            assert(pending_keys(entries)[i] == entries[i].compact_block.header.hash@);
        }
    }
}

/// A block put into a pool that can hold a block is the most recently used
/// one afterwards, and is found under its hash.
pub proof fn lemma_put_is_held(entries: Seq<PendingEntry>, limit: nat, entry: PendingEntry)
    requires
        distinct_hashes(entries),
        forall|i: int| 0 <= i < entries.len() ==> distinct_requests((#[trigger] entries[i]).peers@),
        limit > 0,
    ensures
        put(entries, limit, entry).len() > 0,
        put(entries, limit, entry).last() == entry,
        position(pending_keys(put(entries, limit, entry)), entry.compact_block.header.hash@)
            == put(entries, limit, entry).len() - 1,
{
    let key = entry.compact_block.header.hash@;
    let base = dropped(entries, key);
    let grown = base.push(entry);
    let after = put(entries, limit, entry);
    lemma_pool_steps(entries, key);
    assert forall|i: int| 0 <= i < after.len() - 1 implies (#[trigger] pending_keys(after)[i])
        != key by {
        if grown.len() > limit {
            assert(after[i] == grown[i + 1]);
            assert(grown[i + 1] == base[i + 1]);
        } else {
            assert(after[i] == grown[i]);
            assert(grown[i] == base[i]);
        }
    }
    assert(pending_keys(after)[after.len() - 1] == key);
    lemma_position_is(pending_keys(after), key, after.len() - 1);
}

impl PendingCompactBlocks {
    /// Whether a request made of `peer` for the block with hash `hash` is
    /// open.
    pub open spec fn spec_awaits(&self, hash: Seq<u8>, peer: PeerIndex) -> bool {
        let p = position(pending_keys(self.entries@), hash);
        p >= 0 && request_position(self.entries@[p].peers@, peer) >= 0
    }

    /// The blocks lie in the order that the cache keeps, no block is held
    /// twice, and no peer has two requests open for one block.
    pub open spec fn wf(&self) -> bool {
        &&& entry_keys(lru_entries(self.order)) == pending_keys(self.entries@)
        &&& distinct_hashes(self.entries@)
        &&& forall|i: int|
            0 <= i < self.entries@.len() ==> distinct_requests((#[trigger] self.entries@[i]).peers@)
    }

    /// The most blocks that the pool holds.
    pub open spec fn limit(&self) -> nat {
        lru_limit(self.order)
    }

    /// Whether the pool holds the block with hash `hash`.
    pub open spec fn spec_contains(&self, hash: Seq<u8>) -> bool {
        position(pending_keys(self.entries@), hash) >= 0
    }

    /// The pending block with hash `hash`.
    pub open spec fn spec_get(&self, hash: Seq<u8>) -> Option<PendingEntry> {
        let p = position(pending_keys(self.entries@), hash);
        if p >= 0 {
            Some(self.entries@[p])
        } else {
            None
        }
    }

    /// An empty pool for `capacity` blocks.
    pub fn new(capacity: usize) -> (r: Self)
        ensures
            r.wf(),
            r.entries@.len() == 0,
            r.limit() == capacity as nat,
    {
        let r = PendingCompactBlocks { order: lru_new(capacity), entries: Vec::new() };
        assert(entry_keys(lru_entries(r.order)) =~= pending_keys(r.entries@));
        r
    }

    /// The number of compact blocks held.
    pub fn len(&self) -> (r: usize)
        ensures
            r == self.entries@.len(),
    {
        self.entries.len()
    }

    /// The place of the block with hash `hash` in the order of use.
    pub fn find(&self, hash: &Byte32) -> (r: Option<usize>)
        ensures
            r.is_none() <==> position(pending_keys(self.entries@), hash@) == -1,
            r.is_some() ==> r.unwrap() as int == position(pending_keys(self.entries@), hash@)
                && r.unwrap() < self.entries@.len(),
    {
        let mut i: usize = 0;
        while i < self.entries.len()
            invariant
                0 <= i <= self.entries.len(),
                forall|j: int| 0 <= j < i ==> pending_keys(self.entries@)[j] != hash@,
            decreases self.entries.len() - i,
        {
            if self.entries[i].compact_block.header.hash.same(hash) {
                proof {
                    lemma_position_is(pending_keys(self.entries@), hash@, i as int);
                }
                return Some(i);
            }
            i += 1;
        }
        proof {
            lemma_position_none(pending_keys(self.entries@), hash@);
        }
        None
    }

    /// The pending block with hash `hash`, without counting as a use.
    pub fn get(&self, hash: &Byte32) -> (r: Option<&PendingEntry>)
        ensures
            r.is_some() == self.spec_contains(hash@),
            r.is_some() ==> *r.unwrap() == self.spec_get(hash@).unwrap(),
    {
        match self.find(hash) {
            Some(i) => Some(&self.entries[i]),
            None => None,
        }
    }

    /// Whether the pool holds the block with hash `hash`; a hit counts as
    /// a use of the block.
    pub fn contains_key(&mut self, hash: &Byte32) -> (r: bool)
        requires
            old(self).wf(),
        ensures
            final(self).wf(),
            final(self).limit() == old(self).limit(),
            r == old(self).spec_contains(hash@),
            final(self).entries@ == refreshed(old(self).entries@, hash@),
    {
        proof {
            lemma_pool_steps(self.entries@, hash@);
        }
        let found = self.find(hash);
        let hit = lru_get(&mut self.order, &hash.bytes);
        match found {
            Some(p) => {
                let ghost before = self.entries@;
                let ghost keys = lru_entries(old(self).order);
                let entry = self.entries.remove(p);
                self.entries.push(entry);
                proof {
                    assert(keys.remove(p as int).push(keys[p as int]).len() == before.len());
                    assert(entry_keys(lru_entries(self.order)) =~= pending_keys(self.entries@)) by {
                        assert forall|j: int| 0 <= j < before.len() implies entry_keys(
                            lru_entries(self.order),
                        )[j] == pending_keys(self.entries@)[j] by {
                            if j < p {
                                assert(entry_keys(keys)[j] == pending_keys(before)[j]);
                            } else if j < before.len() - 1 {
                                assert(entry_keys(keys)[j + 1] == pending_keys(before)[j + 1]);
                            } else {
                                assert(entry_keys(keys)[p as int] == pending_keys(before)[p as int]);
                            }
                        }
                    }
                }
                true
            },
            None => false,
        }
    }

    /// Puts a block into the pool as the most recently used one.
    pub fn insert(&mut self, entry: PendingEntry)
        requires
            old(self).wf(),
            distinct_requests(entry.peers@),
        ensures
            final(self).wf(),
            final(self).limit() == old(self).limit(),
            final(self).entries@ == put(old(self).entries@, old(self).limit(), entry),
            final(self).limit() > 0 ==> final(self).spec_get(entry.compact_block.header.hash@)
                == Some(entry),
    {
        proof {
            if self.limit() > 0 {
                lemma_put_is_held(self.entries@, self.limit(), entry);
            }
        }
        let hash = entry.compact_block.header.hash;
        let number = entry.compact_block.header.number;
        proof {
            lemma_pool_steps(self.entries@, hash@);
        }
        let found = self.find(&hash);
        let capacity = lru_capacity(&self.order);
        let ghost keys = lru_entries(self.order);
        let ghost before = self.entries@;
        lru_insert(&mut self.order, hash.bytes, number);
        match found {
            Some(p) => {
                self.entries.remove(p);
            },
            None => {},
        }
        let ghost base = self.entries@;
        let ghost key_base = crate::lru::without(keys, hash@);
        proof {
            assert(entry_keys(key_base) =~= pending_keys(base)) by {
                assert(key_base.len() == base.len());
                assert forall|j: int| 0 <= j < base.len() implies entry_keys(key_base)[j]
                    == pending_keys(base)[j] by {
                    if found.is_some() {
                        let p = found.unwrap() as int;
                        if j < p {
                            assert(entry_keys(keys)[j] == pending_keys(before)[j]);
                        } else {
                            assert(entry_keys(keys)[j + 1] == pending_keys(before)[j + 1]);
                        }
                    } else {
                        assert(entry_keys(keys)[j] == pending_keys(before)[j]);
                    }
                }
            }
        }
        assert(base == dropped(before, hash@));
        self.entries.push(entry);
        let ghost grown = self.entries@;
        let ghost key_grown = key_base.push((hash@, number));
        proof {
            assert forall|j: int| 0 <= j < base.len() implies grown[j] == base[j] by {}
            assert(distinct_hashes(grown));
            assert forall|i: int| 0 <= i < grown.len() implies distinct_requests(
                (#[trigger] grown[i]).peers@,
            ) by {
                if i < base.len() {
                    assert(grown[i] == base[i]);
                }
            }
            assert(entry_keys(key_grown) =~= pending_keys(grown)) by {
                assert forall|j: int| 0 <= j < grown.len() implies entry_keys(key_grown)[j]
                    == pending_keys(grown)[j] by {
                    if j < base.len() {
                        assert(entry_keys(key_base)[j] == pending_keys(base)[j]);
                    }
                }
            }
        }
        if self.entries.len() > capacity {
            self.entries.remove(0);
            proof {
                assert(self.entries@ =~= grown.drop_first());
                assert forall|j: int| 0 <= j < self.entries@.len() implies self.entries@[j]
                    == grown[j + 1] by {}
                assert(distinct_hashes(self.entries@));
                assert forall|i: int| 0 <= i < self.entries@.len() implies distinct_requests(
                    (#[trigger] self.entries@[i]).peers@,
                ) by {
                    assert(self.entries@[i] == grown[i + 1]);
                }
                assert(entry_keys(key_grown.drop_first()) =~= pending_keys(self.entries@)) by {
                    assert forall|j: int| 0 <= j < self.entries@.len() implies entry_keys(
                        key_grown.drop_first(),
                    )[j] == pending_keys(self.entries@)[j] by {
                        assert(entry_keys(key_grown)[j + 1] == pending_keys(grown)[j + 1]);
                    }
                }
            }
        }
    }

    /// Takes the block with hash `hash` out of the pool.
    pub fn remove(&mut self, hash: &Byte32) -> (r: Option<PendingEntry>)
        requires
            old(self).wf(),
        ensures
            final(self).wf(),
            final(self).limit() == old(self).limit(),
            r == old(self).spec_get(hash@),
            final(self).entries@ == dropped(old(self).entries@, hash@),
    {
        proof {
            lemma_pool_steps(self.entries@, hash@);
        }
        let found = self.find(hash);
        let ghost keys = lru_entries(self.order);
        let ghost before = self.entries@;
        lru_remove(&mut self.order, &hash.bytes);
        match found {
            Some(p) => {
                let entry = self.entries.remove(p);
                proof {
                    assert(entry_keys(lru_entries(self.order)) =~= pending_keys(self.entries@)) by {
                        assert forall|j: int| 0 <= j < self.entries@.len() implies entry_keys(
                            lru_entries(self.order),
                        )[j] == pending_keys(self.entries@)[j] by {
                            if j < p {
                                assert(entry_keys(keys)[j] == pending_keys(before)[j]);
                            } else {
                                assert(entry_keys(keys)[j + 1] == pending_keys(before)[j + 1]);
                            }
                        }
                    }
                }
                Some(entry)
            },
            None => None,
        }
    }

    /// Takes the request made of `peer` for the block at place `p` off the
    /// block's list, and returns the places that were asked for.
    pub fn take_request(&mut self, p: usize, peer: PeerIndex) -> (r: Option<Vec<usize>>)
        requires
            old(self).wf(),
            p < old(self).entries@.len(),
        ensures
            final(self).wf(),
            final(self).limit() == old(self).limit(),
            final(self).entries@.len() == old(self).entries@.len(),
            forall|j: int|
                0 <= j < old(self).entries@.len() && j != p ==> final(self).entries@[j] == old(self).entries@[j],
            final(self).entries@[p as int].compact_block == old(self).entries@[p as int].compact_block,
            request_position(old(self).entries@[p as int].peers@, peer) < 0 ==> r.is_none()
                && *final(self) == *old(self),
            request_position(old(self).entries@[p as int].peers@, peer) >= 0 ==> r.is_some()
                && r.unwrap()@ == old(self).entries@[p as int].peers@[request_position(
                old(self).entries@[p as int].peers@,
                peer,
            )].indexes@ && final(self).entries@[p as int].peers@ == old(self).entries@[p as int].peers@.remove(
                request_position(old(self).entries@[p as int].peers@, peer),
            ),
    {
        let ghost before = self.entries@;
        let k = match find_request(&self.entries[p].peers, peer) {
            Some(k) => k,
            None => {
                return None;
            },
        };
        proof {
            assert(distinct_requests(before[p as int].peers@));
            lemma_no_request_after_take(before[p as int].peers@, peer);
        }
        let request = self.entries[p].peers.remove(k);
        proof {
            assert(pending_keys(self.entries@) =~= pending_keys(before));
            assert forall|i: int| 0 <= i < self.entries@.len() implies distinct_requests(
                (#[trigger] self.entries@[i]).peers@,
            ) by {
                if i != p {
                    assert(self.entries@[i] == before[i]);
                }
            }
        }
        Some(request.indexes)
    }

    /// The headers of the pending blocks, least recently used first.
    pub fn headers(&self) -> (r: Vec<Header>)
        ensures
            r@.len() == self.entries@.len(),
            forall|i: int|
                0 <= i < r@.len() ==> #[trigger] r@[i] == self.entries@[i].compact_block.header,
    {
        let mut out: Vec<Header> = Vec::new();
        let mut i: usize = 0;
        while i < self.entries.len()
            invariant
                0 <= i <= self.entries.len(),
                out@.len() == i,
                forall|j: int|
                    0 <= j < i ==> #[trigger] out@[j] == self.entries@[j].compact_block.header,
            decreases self.entries.len() - i,
        {
            out.push(self.entries[i].compact_block.header);
            i += 1;
        }
        out
    }
}

} // verus!
