//! Blocks that arrived before their parent. They wait here until the
//! parent is accepted, and then leave together with their descendants.
//!
//! The pool is bounded: where a block arrives at a full pool, the block
//! that has waited longest makes room for it.

use vstd::prelude::*;
use vstd::seq_lib::to_multiset_build;
use vstd::seq_lib::to_multiset_remove;
use crate::primitives::Byte32;
use crate::primitives::find_hash;
use crate::primitives::hash_keys;
use crate::primitives::lemma_position;
use crate::primitives::lemma_position_is;
use crate::primitives::lemma_position_none;
use crate::primitives::position;
use crate::types::Block;

verus! {

/// The blocks that arrived before their parents.
#[derive(Debug)]
pub struct OrphanBlockPool {
    /// The blocks that wait, the one that has waited longest first.
    pub blocks: Vec<Block>,
    /// The most blocks that wait at one time.
    pub capacity: usize,
}

/// `blocks` after `block` joined a pool of at most `capacity` blocks: the
/// block that has waited longest leaves where the pool overflows.
pub open spec fn joined(blocks: Seq<Block>, capacity: usize, block: Block) -> Seq<Block> {
    if blocks.len() + 1 > capacity {
        blocks.push(block).drop_first()
    } else {
        blocks.push(block)
    }
}

/// Whether the block with hash `parent` is `root` or one of the first `n`
/// blocks of `released`.
pub open spec fn is_released(root: Seq<u8>, released: Seq<Block>, n: int, parent: Seq<u8>) -> bool {
    parent == root || exists|k: int|
        0 <= k < n && k < released.len() && (#[trigger] released[k]).header.hash@ == parent
}

/// Every block of `released` follows `root` or an earlier block of
/// `released`.
pub open spec fn chained(root: Seq<u8>, released: Seq<Block>) -> bool {
    forall|j: int|
        0 <= j < released.len() ==> is_released(
            root,
            released,
            j,
            (#[trigger] released[j]).header.parent_hash@,
        )
}

/// No block of `waiting` follows `root` or a block of `released`.
pub open spec fn settled(root: Seq<u8>, released: Seq<Block>, waiting: Seq<Block>) -> bool {
    forall|i: int|
        0 <= i < waiting.len() ==> !is_released(
            root,
            released,
            released.len() as int,
            (#[trigger] waiting[i]).header.parent_hash@,
        )
}

impl OrphanBlockPool {
    /// The pool holds no more blocks than it may.
    pub open spec fn wf(&self) -> bool {
        self.blocks@.len() <= self.capacity
    }

    /// A pool with no block, bounded by the machine alone.
    pub fn new() -> (r: Self)
        ensures
            r.blocks@.len() == 0,
            r.capacity == usize::MAX,
            r.wf(),
    {
        OrphanBlockPool { blocks: Vec::new(), capacity: usize::MAX }
    }

    /// A pool with no block, for at most `capacity` blocks.
    pub fn with_capacity(capacity: usize) -> (r: Self)
        ensures
            r.blocks@.len() == 0,
            r.capacity == capacity,
            r.wf(),
    {
        OrphanBlockPool { blocks: Vec::new(), capacity }
    }

    /// The number of blocks held.
    pub fn len(&self) -> (r: usize)
        ensures
            r == self.blocks@.len(),
    {
        self.blocks.len()
    }

    /// The hashes of the blocks held.
    pub open spec fn spec_hashes(&self) -> Seq<Seq<u8>> {
        Seq::new(self.blocks@.len(), |i: int| self.blocks@[i].header.hash@)
    }

    /// Whether the pool holds a block with hash `hash`.
    pub open spec fn spec_contains(&self, hash: Seq<u8>) -> bool {
        position(self.spec_hashes(), hash) >= 0
    }

    /// Whether the pool holds a block with hash `hash`.
    pub fn contains(&self, hash: &Byte32) -> (r: bool)
        ensures
            r == self.spec_contains(hash@),
    {
        let mut i: usize = 0;
        while i < self.blocks.len()
            invariant
                0 <= i <= self.blocks.len(),
                forall|j: int| 0 <= j < i ==> self.spec_hashes()[j] != hash@,
            decreases self.blocks.len() - i,
        {
            if self.blocks[i].header.hash.same(hash) {
                proof {
                    lemma_position_is(self.spec_hashes(), hash@, i as int);
                }
                return true;
            }
            i += 1;
        }
        proof {
            lemma_position_none(self.spec_hashes(), hash@);
        }
        false
    }

    /// Puts a block into the pool as the one that has waited least. Where
    /// the pool overflows, the block that has waited longest leaves.
    pub fn insert(&mut self, block: Block)
        ensures
            final(self).capacity == old(self).capacity,
            final(self).blocks@ == joined(old(self).blocks@, old(self).capacity, block),
            old(self).wf() ==> final(self).wf(),
    {
        let overflows = self.blocks.len() >= self.capacity;
        self.blocks.push(block);
        if overflows {
            self.blocks.remove(0);
            assert(self.blocks@ =~= old(self).blocks@.push(block).drop_first());
        }
    }

    /// Takes out the blocks that descend from the block with hash
    /// `parent`, and returns them with every parent before its children.
    ///
    /// Every block returned follows `parent` or a block returned before
    /// it; no block left behind follows `parent` or a block returned; and
    /// the blocks returned and left behind are, together, exactly those
    /// that the pool held, each as often as it held it.
    pub fn remove_blocks_by_parent(&mut self, parent: &Byte32) -> (r: Vec<Block>)
        ensures
            final(self).capacity == old(self).capacity,
            old(self).wf() ==> final(self).wf(),
            chained(parent@, r@),
            settled(parent@, r@, final(self).blocks@),
            r@.to_multiset().add(final(self).blocks@.to_multiset()) == old(self).blocks@.to_multiset(),
            r@.len() + final(self).blocks@.len() == old(self).blocks@.len(),
            forall|j: int| 0 <= j < r@.len() ==> old(self).blocks@.contains(#[trigger] r@[j]),
            forall|i: int|
                0 <= i < final(self).blocks@.len() ==> old(self).blocks@.contains(
                    #[trigger] final(self).blocks@[i],
                ),
    {
        let mut released: Vec<Block> = Vec::new();
        let mut accepted: Vec<Byte32> = Vec::new();
        accepted.push(*parent);
        let mut progress = true;
        proof {
            released@.to_multiset_ensures();
            assert(released@.to_multiset().add(self.blocks@.to_multiset())
                =~= self.blocks@.to_multiset());
        }
        while progress
            invariant
                self.capacity == old(self).capacity,
                accepted@.len() == released@.len() + 1,
                accepted@[0]@ == parent@,
                forall|k: int|
                    0 <= k < released@.len() ==> (#[trigger] accepted@[k + 1])@
                        == released@[k].header.hash@,
                chained(parent@, released@),
                released@.to_multiset().add(self.blocks@.to_multiset()) == old(
                    self,
                ).blocks@.to_multiset(),
                !progress ==> settled(parent@, released@, self.blocks@),
                released@.len() + self.blocks@.len() == old(self).blocks@.len(),
                forall|j: int|
                    0 <= j < released@.len() ==> old(self).blocks@.contains(#[trigger] released@[j]),
                forall|i: int|
                    0 <= i < self.blocks@.len() ==> old(self).blocks@.contains(
                        #[trigger] self.blocks@[i],
                    ),
            decreases self.blocks@.len(), (if progress {
                    1int
                } else {
                    0int
                }),
        {
            progress = false;
            let ghost start = released@.len();
            let mut i: usize = 0;
            while i < self.blocks.len()
                invariant
                    0 <= i <= self.blocks.len(),
                    self.capacity == old(self).capacity,
                    accepted@.len() == released@.len() + 1,
                    accepted@[0]@ == parent@,
                    forall|k: int|
                        0 <= k < released@.len() ==> (#[trigger] accepted@[k + 1])@
                            == released@[k].header.hash@,
                    chained(parent@, released@),
                    released@.to_multiset().add(self.blocks@.to_multiset()) == old(
                        self,
                    ).blocks@.to_multiset(),
                    released@.len() >= start,
                    progress == (released@.len() > start),
                    !progress ==> forall|q: int|
                        0 <= q < i ==> !is_released(
                            parent@,
                            released@,
                            released@.len() as int,
                            (#[trigger] self.blocks@[q]).header.parent_hash@,
                        ),
                    released@.len() + self.blocks@.len() == old(self).blocks@.len(),
                    forall|j: int|
                        0 <= j < released@.len() ==> old(self).blocks@.contains(
                            #[trigger] released@[j],
                        ),
                    forall|q: int|
                        0 <= q < self.blocks@.len() ==> old(self).blocks@.contains(
                            #[trigger] self.blocks@[q],
                        ),
                decreases self.blocks.len() - i,
            {
                let follows = find_hash(&accepted, &self.blocks[i].header.parent_hash);
                proof {
                    lemma_position(hash_keys(accepted@), self.blocks@[i as int].header.parent_hash@);
                    let target = self.blocks@[i as int].header.parent_hash@;
                    let p = position(hash_keys(accepted@), target);
                    if p >= 0 {
                        assert(hash_keys(accepted@)[p] == accepted@[p]@);
                        if p > 0 {
                            assert(accepted@[(p - 1) + 1]@ == released@[p - 1].header.hash@);
                        }
                        assert(is_released(parent@, released@, released@.len() as int, target));
                    } else {
                        assert(hash_keys(accepted@)[0] == accepted@[0]@);
                        assert forall|k: int| 0 <= k < released@.len() implies (
                        #[trigger] released@[k]).header.hash@ != target by {
                            assert(hash_keys(accepted@)[k + 1] == accepted@[k + 1]@);
                        }
                        assert(!is_released(parent@, released@, released@.len() as int, target));
                    }
                }
                if follows.is_some() {
                    let ghost before_pool = self.blocks@;
                    let ghost before_released = released@;
                    let block = self.blocks.remove(i);
                    accepted.push(block.header.hash);
                    released.push(block);
                    progress = true;
                    proof {
                        to_multiset_remove(before_pool, i as int);
                        to_multiset_build(before_released, block);
                        before_pool.to_multiset_ensures();
                        assert(before_pool.contains(block));
                        assert(self.blocks@ == before_pool.remove(i as int));
                        assert(released@ == before_released.push(block));
                        assert(released@.to_multiset().add(self.blocks@.to_multiset())
                            =~= before_released.to_multiset().add(before_pool.to_multiset()));
                        assert forall|j: int| 0 <= j < released@.len() implies is_released(
                            parent@,
                            released@,
                            j,
                            (#[trigger] released@[j]).header.parent_hash@,
                        ) by {
                            if j < before_released.len() {
                                assert(released@[j] == before_released[j]);
                                let target = before_released[j].header.parent_hash@;
                                assert(is_released(parent@, before_released, j, target));
                                if target != parent@ {
                                    let k = choose|k: int|
                                        0 <= k < j && k < before_released.len() && (
                                        #[trigger] before_released[k]).header.hash@ == target;
                                    assert(released@[k] == before_released[k]);
                                }
                            } else {
                                let target = released@[j].header.parent_hash@;
                                assert(is_released(
                                    parent@,
                                    before_released,
                                    before_released.len() as int,
                                    target,
                                ));
                                if target != parent@ {
                                    let k = choose|k: int|
                                        0 <= k < before_released.len() && (
                                        #[trigger] before_released[k]).header.hash@ == target;
                                    assert(released@[k] == before_released[k]);
                                }
                            }
                        }
                        assert forall|k: int| 0 <= k < released@.len() implies (
                        #[trigger] accepted@[k + 1])@ == released@[k].header.hash@ by {
                            if k < before_released.len() {
                                assert(released@[k] == before_released[k]);
                            }
                        }
                        assert forall|j: int| 0 <= j < released@.len() implies old(self).blocks@.contains(#[trigger] released@[j]) by {
                            if j < before_released.len() {
                                assert(released@[j] == before_released[j]);
                            } else {
                                assert(released@[j] == before_pool[i as int]);
                                assert(old(self).blocks@.contains(before_pool[i as int]));
                            }
                        }
                        assert forall|q: int| 0 <= q < self.blocks@.len() implies old(self).blocks@.contains(#[trigger] self.blocks@[q]) by {
                            if q < i {
                                assert(self.blocks@[q] == before_pool[q]);
                                assert(old(self).blocks@.contains(before_pool[q]));
                            } else {
                                assert(self.blocks@[q] == before_pool[q + 1]);
                                assert(old(self).blocks@.contains(before_pool[q + 1]));
                            }
                        }
                    }
                } else {
                    i += 1;
                }
            }
        }
        released
    }
}

} // verus!
