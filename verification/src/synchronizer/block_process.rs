//! The handler of a block sent by a peer.

use vstd::prelude::*;
use crate::peers::PeerIndex;
use crate::primitives::position;
use crate::synchronizer::inflight::InflightBlocks;
use crate::synchronizer::inflight::inflight_keys;
use crate::synchronizer::orphan_block_pool::OrphanBlockPool;
use crate::synchronizer::orphan_block_pool::chained;
use crate::synchronizer::orphan_block_pool::joined;
use crate::synchronizer::orphan_block_pool::settled;
use crate::store::ChainStore;
use crate::types::Block;

verus! {

/// The handling of one block that a peer sent.
pub struct BlockProcess<'a> {
    pub message: &'a Block,
    pub peer: PeerIndex,
    /// The time of arrival, in milliseconds.
    pub now: u64,
}

impl<'a> BlockProcess<'a> {
    /// The handling of `message` from `peer` at the time `now`.
    pub fn new(message: &'a Block, peer: PeerIndex, now: u64) -> (r: Self)
        ensures
            r.message == message,
            r.peer == peer,
            r.now == now,
    {
        BlockProcess { message, peer, now }
    }

    /// Handles the block: a block that was asked for leaves the blocks in
    /// flight and is to be processed; any other is dropped. Returns, for a
    /// block to be processed, the peer that was asked and how long the
    /// block took.
    pub fn execute(self, inflight: &mut InflightBlocks) -> (r: Option<(PeerIndex, u64)>)
        ensures
            r.is_some() == (position(
                inflight_keys(old(inflight).entries@),
                self.message.header.hash@,
            ) >= 0),
            r.is_none() ==> final(inflight).entries@ == old(inflight).entries@,
            r.is_some() ==> final(inflight).entries@ == old(inflight).entries@.remove(
                position(inflight_keys(old(inflight).entries@), self.message.header.hash@),
            ) && r.unwrap().0 == old(inflight).entries@[position(
                inflight_keys(old(inflight).entries@),
                self.message.header.hash@,
            )].peer,
    {
        inflight.remove_by_block(&self.message.header.hash, self.now)
    }
}

/// What becomes of a block that arrived.
#[derive(Debug)]
pub enum Arrival {
    /// The block waits for its parent already; it is dropped.
    AlreadyWaiting,
    /// The store does not hold the parent: the block waits in the pool.
    Waits,
    /// The store holds the parent: the block is to be accepted, and after
    /// it the blocks that waited for it, every parent before its children.
    Accept { block: Block, descendants: Vec<Block> },
}

/// Decides what becomes of a block that arrived.
///
/// A block that waits in the pool already is dropped. A block whose parent
/// the store does not hold joins the pool, where it may push out the block
/// that has waited longest. Any other block is to be
/// accepted, and with it leave the pool the blocks that descend from it:
/// each of them follows the block or a descendant before it, and no block
/// left in the pool does.
pub fn process_new_block(store: &ChainStore, orphans: &mut OrphanBlockPool, block: Block) -> (r:
    Arrival)
    ensures
        old(orphans).spec_contains(block.header.hash@) ==> r is AlreadyWaiting
            && final(orphans).blocks@ == old(orphans).blocks@,
        !old(orphans).spec_contains(block.header.hash@) && store.spec_header(
            block.header.parent_hash@,
        ).is_none() ==> r is Waits && final(orphans).blocks@ == joined(
            old(orphans).blocks@,
            old(orphans).capacity,
            block,
        ),
        final(orphans).capacity == old(orphans).capacity,
        old(orphans).wf() ==> final(orphans).wf(),
        !old(orphans).spec_contains(block.header.hash@) && store.spec_header(
            block.header.parent_hash@,
        ).is_some() ==> match r {
            Arrival::Accept { block: accepted, descendants } => {
                &&& accepted == block
                &&& chained(block.header.hash@, descendants@)
                &&& settled(block.header.hash@, descendants@, final(orphans).blocks@)
                &&& descendants@.to_multiset().add(final(orphans).blocks@.to_multiset()) == old(
                    orphans,
                ).blocks@.to_multiset()
                &&& descendants@.len() + final(orphans).blocks@.len() == old(orphans).blocks@.len()
                &&& forall|j: int|
                    0 <= j < descendants@.len() ==> old(orphans).blocks@.contains(
                        #[trigger] descendants@[j],
                    )
                &&& forall|i: int|
                    0 <= i < final(orphans).blocks@.len() ==> old(orphans).blocks@.contains(
                        #[trigger] final(orphans).blocks@[i],
                    )
            },
            _ => false,
        },
{
    if orphans.contains(&block.header.hash) {
        return Arrival::AlreadyWaiting;
    }
    if store.get_block_header(&block.header.parent_hash).is_none() {
        orphans.insert(block);
        return Arrival::Waits;
    }
    let descendants = orphans.remove_blocks_by_parent(&block.header.hash);
    Arrival::Accept { block, descendants }
}

} // verus!
