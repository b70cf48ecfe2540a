//! The choice of the main chain: a node moves its tip to a block whose
//! chain is heavier than its own.
//!
//! The way from the block down its parents meets the main chain at the
//! fork; the main chain is kept up to the fork and continued by the blocks
//! of the way.

use vstd::prelude::*;
use crate::primitives::Byte32;
use crate::primitives::hash_keys;
use crate::primitives::lemma_position;
use crate::primitives::position;
use crate::store::ChainStore;
use crate::types::BlockNumber;

verus! {

/// The way from the block with hash `hash` down to the main chain: the
/// blocks off the main chain in ascending order, the block itself last,
/// and the number at which the way meets the main chain.
///
/// `None` where the store lacks a header on the way, where a block does
/// not carry the number that follows its parent's, where the main chain
/// is not met, or where `fuel` blocks were looked at without an end.
pub open spec fn branch(store: ChainStore, hash: Byte32, fuel: nat) -> Option<
    (Seq<Byte32>, BlockNumber),
>
    decreases fuel,
{
    if fuel == 0 {
        None
    } else {
        match store.spec_header(hash@) {
            None => None,
            Some(h) => match store.spec_number_of(hash@) {
                Some(m) => if m == h.number {
                    Some((Seq::<Byte32>::empty(), m))
                } else {
                    None
                },
                None => match store.spec_header(h.parent_hash@) {
                    None => None,
                    Some(p) => if p.number + 1 != h.number {
                        None
                    } else {
                        match branch(store, h.parent_hash, (fuel - 1) as nat) {
                            None => None,
                            Some(below) => Some((below.0.push(hash), below.1)),
                        }
                    },
                },
            },
        }
    }
}

/// A way with the blocks `above` put on top of it.
pub open spec fn topped(way: Option<(Seq<Byte32>, BlockNumber)>, above: Seq<Byte32>) -> Option<
    (Seq<Byte32>, BlockNumber),
> {
    match way {
        None => None,
        Some(w) => Some((w.0 + above, w.1)),
    }
}

/// Whether the chain that ends in the block with hash `hash` is heavier
/// than the main chain: the store records a total difficulty for the
/// block, and it exceeds that of the tip, if there is a tip with one.
pub open spec fn heavier(store: ChainStore, hash: Byte32) -> bool {
    match store.spec_total_difficulty(hash@) {
        None => false,
        Some(total) => if store.main_chain@.len() == 0 {
            true
        } else {
            match store.spec_total_difficulty(store.main_chain@[store.main_chain@.len() - 1]@) {
                None => true,
                Some(tip) => total > tip,
            }
        },
    }
}

/// What a way says of its blocks: the way meets the main chain at a
/// number that the main chain has; each block of the way is stored with
/// the number of its place and follows the block below it; and the way
/// ends in the block it was taken from.
pub proof fn lemma_branch(store: ChainStore, hash: Byte32, fuel: nat)
    requires
        store.main_chain@.len() <= u64::MAX,
        branch(store, hash, fuel).is_some(),
    ensures
        ({
            let way = branch(store, hash, fuel).unwrap();
            let path = way.0;
            let m = way.1 as int;
            &&& 0 <= m < store.main_chain@.len()
            &&& store.spec_header(store.main_chain@[m]@).is_some()
            &&& store.spec_header(store.main_chain@[m]@).unwrap().number == m
            &&& path.len() == 0 ==> store.main_chain@[m]@ == hash@
            &&& path.len() > 0 ==> path.last() == hash
            &&& forall|i: int|
                0 <= i < path.len() ==> {
                    &&& store.spec_header((#[trigger] path[i])@).is_some()
                    &&& store.spec_header(path[i]@).unwrap().number == m + 1 + i
                    &&& store.spec_header(path[i]@).unwrap().parent_hash@ == (if i == 0 {
                        store.main_chain@[m]@
                    } else {
                        path[i - 1]@
                    })
                }
        }),
    decreases fuel,
{
    let h = store.spec_header(hash@).unwrap();
    match store.spec_number_of(hash@) {
        Some(m) => {
            lemma_position(hash_keys(store.main_chain@), hash@);
            let p = position(hash_keys(store.main_chain@), hash@);
            assert(hash_keys(store.main_chain@)[p] == store.main_chain@[p]@);
        },
        None => {
            lemma_branch(store, h.parent_hash, (fuel - 1) as nat);
            let below = branch(store, h.parent_hash, (fuel - 1) as nat).unwrap();
            let path = below.0.push(hash);
            let m = below.1 as int;
            assert forall|i: int| 0 <= i < path.len() implies {
                &&& store.spec_header((#[trigger] path[i])@).is_some()
                &&& store.spec_header(path[i]@).unwrap().number == m + 1 + i
                &&& store.spec_header(path[i]@).unwrap().parent_hash@ == (if i == 0 {
                    store.main_chain@[m]@
                } else {
                    path[i - 1]@
                })
            } by {
                if i < below.0.len() {
                    assert(path[i] == below.0[i]);
                    if i > 0 {
                        assert(path[i - 1] == below.0[i - 1]);
                    }
                } else {
                    assert(path[i] == hash);
                    if i > 0 {
                        assert(path[i - 1] == below.0.last());
                    }
                }
            }
        },
    }
}

/// The main chain after the tip moved to the end of a way: the main chain
/// up to the fork, then the blocks of the way.
pub open spec fn switched(main_chain: Seq<Byte32>, way: (Seq<Byte32>, BlockNumber)) -> Seq<
    Byte32,
> {
    main_chain.subrange(0, way.1 + 1) + way.0
}

/// A store that has moved its tip to the end of a way ends in the block
/// of the way, and its main chain is a chain if it was one before.
proof fn lemma_switched(before: ChainStore, after: ChainStore, hash: Byte32)
    requires
        before.main_chain@.len() <= u64::MAX,
        after.main_chain@.len() <= u64::MAX,
        branch(before, hash, before.blocks@.len() as nat).is_some(),
        after.blocks == before.blocks,
        after.main_chain@ == switched(
            before.main_chain@,
            branch(before, hash, before.blocks@.len() as nat).unwrap(),
        ),
    ensures
        after.main_chain@.len() > 0,
        after.main_chain@.last()@ == hash@,
        before.wf() ==> after.wf(),
{
    lemma_branch(before, hash, before.blocks@.len() as nat);
    let way = branch(before, hash, before.blocks@.len() as nat).unwrap();
    let m = way.1 as int;
    let main = after.main_chain@;
    assert(main.len() == m + 1 + way.0.len());
    assert forall|n: int| 0 <= n < main.len() implies #[trigger] main[n] == (if n <= m {
        before.main_chain@[n]
    } else {
        way.0[n - m - 1]
    }) by {}
    if way.0.len() == 0 {
        assert(main.last() == before.main_chain@[m]);
    } else {
        assert(main.last() == way.0.last());
    }
    if before.wf() {
        assert forall|n: int| 0 <= n < main.len() implies after.spec_linked(
            n,
            (#[trigger] main[n])@,
        ) by {
            assert forall|hash: Seq<u8>| after.spec_header(hash) == before.spec_header(hash) by {}
            if n <= m {
                assert(main[n] == before.main_chain@[n]);
                assert(before.spec_linked(n, before.main_chain@[n]@));
                if n > 0 {
                    assert(main[n - 1] == before.main_chain@[n - 1]);
                }
            } else {
                let i = n - m - 1;
                assert(main[n] == way.0[i]);
                if i == 0 {
                    assert(main[n - 1] == before.main_chain@[m]);
                } else {
                    assert(main[n - 1] == way.0[i - 1]);
                }
            }
        }
    }
}

impl ChainStore {
    /// Looks for the way from the block with hash `hash` down to the main
    /// chain, among as many blocks as the store holds.
    pub fn find_branch(&self, hash: &Byte32) -> (r: Option<(Vec<Byte32>, BlockNumber)>)
        ensures
            match branch(*self, *hash, self.blocks@.len() as nat) {
                None => r.is_none(),
                Some(way) => r.is_some() && r.unwrap().0@ == way.0 && r.unwrap().1 == way.1,
            },
    {
        let mut path: Vec<Byte32> = Vec::new();
        let mut current = *hash;
        let mut fuel: usize = self.blocks.len();
        assert(topped(branch(*self, current, fuel as nat), path@) =~= branch(
            *self,
            *hash,
            self.blocks@.len() as nat,
        )) by {
            if branch(*self, current, fuel as nat).is_some() {
                assert(branch(*self, current, fuel as nat).unwrap().0 + path@ =~= branch(
                    *self,
                    current,
                    fuel as nat,
                ).unwrap().0);
            }
        }
        while fuel > 0
            invariant
                branch(*self, *hash, self.blocks@.len() as nat) == topped(
                    branch(*self, current, fuel as nat),
                    path@,
                ),
            decreases fuel,
        {
            let header = match self.get_block_header(&current) {
                Some(h) => h,
                None => {
                    return None;
                },
            };
            match self.get_block_number(&current) {
                Some(m) => {
                    if m != header.number {
                        return None;
                    }
                    assert(Seq::<Byte32>::empty() + path@ =~= path@);
                    return Some((path, m));
                },
                None => {},
            }
            let parent = match self.get_block_header(&header.parent_hash) {
                Some(p) => p,
                None => {
                    return None;
                },
            };
            if parent.number == u64::MAX || parent.number + 1 != header.number {
                return None;
            }
            let ghost above = path@;
            let ghost here = current;
            path.insert(0, current);
            current = header.parent_hash;
            fuel -= 1;
            proof {
                let below = branch(*self, current, fuel as nat);
                assert(branch(*self, here, (fuel + 1) as nat) == (match below {
                    None => None,
                    Some(b) => Some((b.0.push(here), b.1)),
                }));
                if below.is_some() {
                    assert(below.unwrap().0.push(here) + above =~= below.unwrap().0 + path@);
                }
            }
        }
        None
    }

    /// Moves the tip to the block with hash `hash` where the chain that
    /// ends in it is heavier than the main chain and its way down meets
    /// the main chain: the main chain is kept up to the fork and continued
    /// by the blocks of the way. Otherwise nothing changes.
    ///
    /// A main chain that is a chain stays one, and ends in the block.
    pub fn switch_to(&mut self, hash: &Byte32) -> (r: bool)
        ensures
            final(self).blocks == old(self).blocks,
            final(self).uncle_headers == old(self).uncle_headers,
            r == (heavier(*old(self), *hash) && branch(
                *old(self),
                *hash,
                old(self).blocks@.len() as nat,
            ).is_some()),
            !r ==> final(self).main_chain@ == old(self).main_chain@,
            r ==> final(self).main_chain@ == switched(
                old(self).main_chain@,
                branch(*old(self), *hash, old(self).blocks@.len() as nat).unwrap(),
            ),
            r ==> final(self).main_chain@.len() > 0 && final(self).main_chain@.last()@ == hash@,
            old(self).wf() ==> final(self).wf(),
    {
        let total = match self.get_total_difficulty(hash) {
            Some(t) => t,
            None => {
                return false;
            },
        };
        if self.main_chain.len() > 0 {
            let tip = self.main_chain[self.main_chain.len() - 1];
            match self.get_total_difficulty(&tip) {
                Some(t) => {
                    if total <= t {
                        return false;
                    }
                },
                None => {},
            }
        }
        let (mut path, m) = match self.find_branch(hash) {
            Some(way) => way,
            None => {
                return false;
            },
        };
        let ghost before = *self;
        let length_before = self.main_chain.len();
        proof {
            lemma_branch(before, *hash, before.blocks@.len() as nat);
        }
        self.main_chain.truncate(m as usize + 1);
        self.main_chain.append(&mut path);
        let length = self.main_chain.len();
        proof {
            assert(self.main_chain@ =~= switched(
                before.main_chain@,
                branch(before, *hash, before.blocks@.len() as nat).unwrap(),
            ));
            lemma_switched(before, *self, *hash);
        }
        true
    }
}

/// Two stores whose main chains are chains, that end in the same block,
/// and that hold the same header wherever both hold one for a hash, have
/// the same main chain.
pub proof fn lemma_same_tip_same_chain(a: ChainStore, b: ChainStore)
    requires
        a.wf(),
        b.wf(),
        a.main_chain@.len() > 0,
        b.main_chain@.len() > 0,
        a.main_chain@.last()@ == b.main_chain@.last()@,
        forall|hash: Seq<u8>|
            a.spec_header(hash).is_some() && b.spec_header(hash).is_some() ==> #[trigger] a.spec_header(
                hash,
            ) == b.spec_header(hash),
    ensures
        hash_keys(a.main_chain@) == hash_keys(b.main_chain@),
{
    let n = a.main_chain@.len() - 1;
    assert(a.spec_linked(n, a.main_chain@[n]@));
    let k = b.main_chain@.len() - 1;
    assert(b.spec_linked(k, b.main_chain@[k]@));
    assert(a.spec_header(a.main_chain@[n]@) == b.spec_header(a.main_chain@[n]@));
    assert(n == k);
    lemma_chains_agree(a, b, 0);
    assert(hash_keys(a.main_chain@) =~= hash_keys(b.main_chain@)) by {
        assert forall|j: int| 0 <= j <= n implies hash_keys(a.main_chain@)[j] == hash_keys(
            b.main_chain@,
        )[j] by {
            assert(a.main_chain@[j]@ == b.main_chain@[j]@);
        }
    }
}

proof fn lemma_chains_agree(a: ChainStore, b: ChainStore, from: int)
    requires
        a.wf(),
        b.wf(),
        a.main_chain@.len() > 0,
        a.main_chain@.len() == b.main_chain@.len(),
        a.main_chain@.last()@ == b.main_chain@.last()@,
        0 <= from < a.main_chain@.len(),
        forall|hash: Seq<u8>|
            a.spec_header(hash).is_some() && b.spec_header(hash).is_some() ==> #[trigger] a.spec_header(
                hash,
            ) == b.spec_header(hash),
    ensures
        forall|j: int| from <= j < a.main_chain@.len() ==> (#[trigger] a.main_chain@[j])@
            == b.main_chain@[j]@,
    decreases a.main_chain@.len() - from,
{
    let n = a.main_chain@.len() - 1;
    if from < n {
        lemma_chains_agree(a, b, from + 1);
        assert(a.main_chain@[from + 1]@ == b.main_chain@[from + 1]@);
        assert(a.spec_linked(from + 1, a.main_chain@[from + 1]@));
        assert(b.spec_linked(from + 1, b.main_chain@[from + 1]@));
        assert(a.spec_header(a.main_chain@[from + 1]@) == b.spec_header(a.main_chain@[from + 1]@));
    }
}

} // verus!
