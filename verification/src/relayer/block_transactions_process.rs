//! The handler of the transactions that a peer sends for a pending
//! compact block.

use vstd::prelude::*;
use crate::peers::PeerIndex;
use crate::primitives::Byte32;
use crate::primitives::position;
use crate::relayer::block_transactions_verifier::BlockTransactionsVerifier;
use crate::relayer::block_transactions_verifier::expected_ids;
use crate::relayer::block_transactions_verifier::first_mismatch;
use crate::relayer::block_transactions_verifier::shorter;
use crate::relayer::compact_block::CompactBlock;
use crate::relayer::error::Error;
use crate::relayer::error::Misbehavior;
use crate::relayer::pending::PendingEntry;
use crate::relayer::pending::pending_keys;
use crate::relayer::pending::request_position;
use crate::relayer::reconstruct::TxSource;
use crate::relayer::reconstruct::filled;
use crate::relayer::reconstruct::missing_positions;
use crate::relayer::reconstruct::reconstruct_block;
use crate::relayer::state::RelayState;
use crate::relayer::state::TxPool;
use crate::types::Transaction;

verus! {

/// Transactions sent for the block with hash `block_hash`.
#[derive(Clone, Debug, PartialEq, Eq)]
pub struct BlockTransactions {
    pub block_hash: Byte32,
    pub transactions: Vec<Transaction>,
}

/// How the handling of block transactions ends.
#[derive(Clone, Copy, Debug, PartialEq, Eq, Structural)]
pub enum BlockTransactionsDecision {
    /// No block of this hash is pending.
    NotPending,
    /// Nothing was asked of this peer for the block.
    NotAwaited,
    /// The transactions do not answer the request.
    Invalid,
    /// The block is complete and leaves the pool of pending blocks.
    Accept,
    /// Transactions are still missing; the block stays pending.
    Missing,
}

/// What the handler hands back.
#[derive(Debug)]
pub enum BlockTransactionsOutcome {
    NotPending,
    NotAwaited,
    /// The block is complete. `sources` tells where the transaction of
    /// each place is found.
    Accept { compact_block: CompactBlock, sources: Vec<TxSource> },
    /// The places still missing.
    Missing { indexes: Vec<usize> },
}

/// The handling of one message that answers a request for the transactions
/// missing from a compact block.
pub struct BlockTransactionsProcess<'a> {
    pub message: &'a BlockTransactions,
    pub tx_pool: &'a TxPool,
    pub peer: PeerIndex,
}

/// The pool of pending blocks `after` the request made of `peer` for the
/// block with hash `hash` was settled: the request is off the list of the
/// block, and nothing else differs from `before`.
pub open spec fn request_settled(
    before: Seq<PendingEntry>,
    after: Seq<PendingEntry>,
    hash: Seq<u8>,
    peer: PeerIndex,
) -> bool {
    let p = position(pending_keys(before), hash);
    let k = request_position(before[p].peers@, peer);
    &&& after.len() == before.len()
    &&& forall|j: int| 0 <= j < before.len() && j != p ==> #[trigger] after[j] == before[j]
    &&& after[p].compact_block == before[p].compact_block
    &&& after[p].peers@ == before[p].peers@.remove(k)
}

impl<'a> BlockTransactionsProcess<'a> {
    /// The handling of `message` from `peer`.
    pub fn new(message: &'a BlockTransactions, tx_pool: &'a TxPool, peer: PeerIndex) -> (r: Self)
        ensures
            r.message == message,
            r.tx_pool == tx_pool,
            r.peer == peer,
    {
        BlockTransactionsProcess { message, tx_pool, peer }
    }

    /// How the handling ends: only a peer of which transactions were asked
    /// for a pending block is heard; what it sends must answer the
    /// request, place for place; then the block is rebuilt.
    pub open spec fn spec_decision(&self, state: RelayState) -> BlockTransactionsDecision {
        let entries = state.pending_compact_blocks.entries@;
        let p = position(pending_keys(entries), self.message.block_hash@);
        if p < 0 {
            BlockTransactionsDecision::NotPending
        } else {
            let k = request_position(entries[p].peers@, self.peer);
            if k < 0 {
                BlockTransactionsDecision::NotAwaited
            } else {
                let block = entries[p].compact_block;
                let indexes = entries[p].peers@[k].indexes@;
                let txs = self.message.transactions@;
                let expected = expected_ids(block, indexes, block.spec_txs_len());
                if !block.wf() || txs.len() != indexes.len() || first_mismatch(
                    expected,
                    txs,
                    shorter(expected.len() as int, txs.len() as int),
                ).is_some() {
                    BlockTransactionsDecision::Invalid
                } else if missing_positions(block, *self.tx_pool, txs, block.spec_txs_len()).len()
                    == 0 {
                    BlockTransactionsDecision::Accept
                } else {
                    BlockTransactionsDecision::Missing
                }
            }
        }
    }

    /// Whether `e` is what an answer that does not answer the request is
    /// refused with: a pending block whose prefilled places do not fit the
    /// machine; else another number of transactions than was asked for,
    /// with both numbers; else the first transaction that is not the one
    /// asked for at its place, with the identifier asked for and the one
    /// got.
    pub open spec fn spec_refused(&self, state: RelayState, e: Error) -> bool {
        let entries = state.pending_compact_blocks.entries@;
        let p = position(pending_keys(entries), self.message.block_hash@);
        let k = request_position(entries[p].peers@, self.peer);
        let block = entries[p].compact_block;
        let indexes = entries[p].peers@[k].indexes@;
        let txs = self.message.transactions@;
        let expected = expected_ids(block, indexes, block.spec_txs_len());
        if !block.wf() {
            e == Error::Misbehavior(Misbehavior::OverflowPrefilledTransactions)
        } else if txs.len() != indexes.len() {
            e == Error::Misbehavior(
                Misbehavior::InvalidBlockTransactionsLength {
                    expected: indexes.len() as usize,
                    got: txs.len() as usize,
                },
            )
        } else {
            match (
                e,
                first_mismatch(expected, txs, shorter(expected.len() as int, txs.len() as int)),
            ) {
                (
                    Error::Misbehavior(Misbehavior::InvalidBlockTransactions { expected, got }),
                    Some(m),
                ) => expected == m.0 && got@ == m.1,
                _ => false,
            }
        }
    }

    /// Handles the transactions.
    ///
    /// The request made of the peer is settled by any answer, and nothing
    /// else changes in the pool of pending blocks unless the block is
    /// complete: a complete block leaves the pool; an incomplete one stays.
    pub fn execute(self, state: &mut RelayState) -> (r: Result<BlockTransactionsOutcome, Error>)
        requires
            old(state).wf(),
        ensures
            final(state).wf(),
            final(state).pending_compact_blocks.limit() == old(state).pending_compact_blocks.limit(),
            final(state).known_compact_blocks == old(state).known_compact_blocks,
            final(state).known_txs == old(state).known_txs,
            final(state).inflight_proposals == old(state).inflight_proposals,
            final(state).pending_proposal_requests == old(state).pending_proposal_requests,
            final(state).tx_already_asked == old(state).tx_already_asked,
            final(state).peers == old(state).peers,
            match self.spec_decision(*old(state)) {
                BlockTransactionsDecision::NotPending => r is Ok && r->Ok_0 is NotPending && final(state).pending_compact_blocks.entries@ == old(state).pending_compact_blocks.entries@,
                BlockTransactionsDecision::NotAwaited => r is Ok && r->Ok_0 is NotAwaited && final(state).pending_compact_blocks.entries@ == old(state).pending_compact_blocks.entries@,
                BlockTransactionsDecision::Invalid => r is Err && self.spec_refused(
                    *old(state),
                    r->Err_0,
                ) && !final(state).pending_compact_blocks.spec_awaits(
                    self.message.block_hash@,
                    self.peer,
                ) && request_settled(
                    old(state).pending_compact_blocks.entries@,
                    final(state).pending_compact_blocks.entries@,
                    self.message.block_hash@,
                    self.peer,
                ),
                BlockTransactionsDecision::Missing => request_settled(
                    old(state).pending_compact_blocks.entries@,
                    final(state).pending_compact_blocks.entries@,
                    self.message.block_hash@,
                    self.peer,
                ) && r is Ok && match r->Ok_0 {
                    BlockTransactionsOutcome::Missing { indexes } => indexes@ == missing_positions(
                        old(state).pending_compact_blocks.spec_get(
                            self.message.block_hash@,
                        ).unwrap().compact_block,
                        *self.tx_pool,
                        self.message.transactions@,
                        old(state).pending_compact_blocks.spec_get(
                            self.message.block_hash@,
                        ).unwrap().compact_block.spec_txs_len(),
                    ),
                    _ => false,
                } && final(state).pending_compact_blocks.spec_contains(self.message.block_hash@)
                    && !final(state).pending_compact_blocks.spec_awaits(
                    self.message.block_hash@,
                    self.peer,
                ),
                BlockTransactionsDecision::Accept => r is Ok && match r->Ok_0 {
                    BlockTransactionsOutcome::Accept { compact_block, sources } => {
                        &&& compact_block == old(state).pending_compact_blocks.spec_get(
                            self.message.block_hash@,
                        ).unwrap().compact_block
                        &&& sources@.len() == compact_block.spec_txs_len()
                        &&& forall|pos: int|
                            0 <= pos < sources@.len() ==> filled(
                                compact_block,
                                *self.tx_pool,
                                self.message.transactions@,
                                pos,
                            ) == Some(#[trigger] sources@[pos])
                        &&& forall|pos: int|
                            0 <= pos < sources@.len() ==> crate::relayer::reconstruct::source_tx(
                                compact_block,
                                *self.tx_pool,
                                self.message.transactions@,
                                #[trigger] sources@[pos],
                            ).is_some()
                    },
                    _ => false,
                } && final(state).pending_compact_blocks.entries@.len() + 1 == old(state).pending_compact_blocks.entries@.len() && !final(state).pending_compact_blocks.spec_contains(self.message.block_hash@),
            },
    {
        let block_hash = self.message.block_hash;
        let p = match state.pending_compact_blocks.find(&block_hash) {
            Some(p) => p,
            None => {
                return Ok(BlockTransactionsOutcome::NotPending);
            },
        };
        let ghost entries0 = state.pending_compact_blocks.entries@;
        let indexes = match state.pending_compact_blocks.take_request(p, self.peer) {
            Some(indexes) => indexes,
            None => {
                return Ok(BlockTransactionsOutcome::NotAwaited);
            },
        };
        proof {
            assert(pending_keys(state.pending_compact_blocks.entries@) =~= pending_keys(entries0));
            crate::relayer::pending::lemma_request_position(entries0[p as int].peers@, self.peer);
            assert(crate::relayer::pending::distinct_requests(entries0[p as int].peers@));
            crate::relayer::pending::lemma_no_request_after_take(
                entries0[p as int].peers@,
                self.peer,
            );
        }
        let ghost entries1 = state.pending_compact_blocks.entries@;
        let transactions = self.message.transactions.as_slice();
        let entry = &state.pending_compact_blocks.entries[p];
        if entry.compact_block.prefilled_transactions.len() > usize::MAX
            - entry.compact_block.short_ids.len() {
            return Err(
                Error::Misbehavior(
                    crate::relayer::error::Misbehavior::OverflowPrefilledTransactions,
                ),
            );
        }
        match BlockTransactionsVerifier::verify(
            &entry.compact_block,
            indexes.as_slice(),
            transactions,
        ) {
            Ok(_) => {},
            Err(e) => {
                return Err(e);
            },
        }
        let ret = reconstruct_block(&entry.compact_block, self.tx_pool, transactions);
        match ret {
            Ok(sources) => {
                proof {
                    crate::primitives::lemma_position(pending_keys(entries0), block_hash@);
                }
                match state.pending_compact_blocks.remove(&block_hash) {
                    Some(removed) => {
                        proof {
                            crate::relayer::pending::lemma_dropped_gone(
                                state.pending_compact_blocks.entries@,
                                entries1,
                                block_hash@,
                            );
                        }
                        Ok(
                            BlockTransactionsOutcome::Accept {
                                compact_block: removed.compact_block,
                                sources,
                            },
                        )
                    },
                    None => Ok(BlockTransactionsOutcome::NotPending),
                }
            },
            Err(missing) => Ok(BlockTransactionsOutcome::Missing { indexes: missing }),
        }
    }
}

} // verus!
