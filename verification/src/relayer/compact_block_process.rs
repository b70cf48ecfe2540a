//! The handler of a compact block.

use vstd::prelude::*;
use crate::consensus::Consensus;
use crate::header_verifier::HeaderError;
use crate::header_verifier::HeaderVerifier;
use crate::header_verifier::header_fault;
use crate::peers::PeerIndex;
use crate::primitives::Byte32;
use crate::primitives::ProposalShortId;
use crate::primitives::extend_short_ids;
use crate::primitives::find_short_id;
use crate::primitives::position;
use crate::primitives::short_id_keys;
use crate::relayer::compact_block::CompactBlock;
use crate::relayer::compact_block_verifier::CompactBlockVerifier;
use crate::relayer::compact_block_verifier::compact_block_fault;
use crate::relayer::error::Error;
use crate::relayer::error::Misbehavior;
use crate::relayer::pending::PeerRequest;
use crate::relayer::pending::PendingEntry;
use crate::relayer::pending::pending_keys;
use crate::relayer::pending::put;
use crate::relayer::pending::refreshed;
use crate::relayer::reconstruct::TxSource;
use crate::relayer::reconstruct::filled;
use crate::relayer::reconstruct::missing_positions;
use crate::relayer::reconstruct::reconstruct_block;
use crate::relayer::reconstruct::source_tx;
use crate::relayer::state::RelayState;
use crate::relayer::state::TxPool;
use crate::relayer::state::mark_known;
use crate::store::ChainStore;
use crate::types::Header;
use crate::types::Transaction;
use crate::types::UncleBlock;

verus! {

/// What the relay reads beside its own state.
pub struct RelayContext<'a> {
    pub store: &'a ChainStore,
    pub consensus: &'a Consensus,
    pub tx_pool: &'a TxPool,
    /// The total difficulty of the best header known of any peer.
    pub best_known_total_difficulty: u128,
    /// The local clock, in milliseconds.
    pub now: u64,
}

/// The proposals of the first `n` uncles, one uncle after the other.
pub open spec fn uncle_proposals(uncles: Seq<UncleBlock>, n: int) -> Seq<ProposalShortId>
    decreases n,
{
    if n <= 0 {
        Seq::<ProposalShortId>::empty()
    } else {
        uncle_proposals(uncles, n - 1) + uncles[n - 1].proposals@
    }
}

/// The proposals that a compact block makes: its own, then those of its
/// uncles.
pub open spec fn block_proposals(block: CompactBlock) -> Seq<ProposalShortId> {
    block.proposals@ + uncle_proposals(block.uncles@, block.uncles@.len() as int)
}

/// The proposals in flight after the first `n` of `ids` were considered:
/// each that the pool lacks and that is not in flight yet is added.
pub open spec fn inflight_with(
    inflight: Seq<ProposalShortId>,
    pool: TxPool,
    ids: Seq<ProposalShortId>,
    n: int,
) -> Seq<ProposalShortId>
    decreases n,
{
    if n <= 0 {
        inflight
    } else {
        let before = inflight_with(inflight, pool, ids, n - 1);
        if pool.spec_get_tx(ids[n - 1]@).is_none() && position(
            short_id_keys(before),
            ids[n - 1]@,
        ) < 0 {
            before.push(ids[n - 1])
        } else {
            before
        }
    }
}

/// The proposals among the first `n` of `ids` that are to be asked for:
/// those that the pool lacks and that were not in flight at their turn.
pub open spec fn requested(
    inflight: Seq<ProposalShortId>,
    pool: TxPool,
    ids: Seq<ProposalShortId>,
    n: int,
) -> Seq<ProposalShortId>
    decreases n,
{
    if n <= 0 {
        Seq::<ProposalShortId>::empty()
    } else {
        let before = inflight_with(inflight, pool, ids, n - 1);
        if pool.spec_get_tx(ids[n - 1]@).is_none() && position(
            short_id_keys(before),
            ids[n - 1]@,
        ) < 0 {
            requested(inflight, pool, ids, n - 1).push(ids[n - 1])
        } else {
            requested(inflight, pool, ids, n - 1)
        }
    }
}

/// Puts the proposals of `block` that the pool lacks in flight, and
/// returns those that were not in flight before: they are to be asked of
/// the peer.
pub fn request_proposal_txs(
    inflight: &mut Vec<ProposalShortId>,
    pool: &TxPool,
    block: &CompactBlock,
) -> (r: Vec<ProposalShortId>)
    ensures
        final(inflight)@ == inflight_with(
            old(inflight)@,
            *pool,
            block_proposals(*block),
            block_proposals(*block).len() as int,
        ),
        r@ == requested(
            old(inflight)@,
            *pool,
            block_proposals(*block),
            block_proposals(*block).len() as int,
        ),
{
    let mut ids: Vec<ProposalShortId> = Vec::new();
    extend_short_ids(&mut ids, &block.proposals);
    assert(ids@ =~= block.proposals@ + uncle_proposals(block.uncles@, 0));
    let mut u: usize = 0;
    while u < block.uncles.len()
        invariant
            0 <= u <= block.uncles.len(),
            *inflight == *old(inflight),
            ids@ == block.proposals@ + uncle_proposals(block.uncles@, u as int),
        decreases block.uncles.len() - u,
    {
        extend_short_ids(&mut ids, &block.uncles[u].proposals);
        assert(ids@ =~= block.proposals@ + uncle_proposals(block.uncles@, u as int + 1));
        u += 1;
    }
    let ghost inflight0 = inflight@;
    let mut unknown: Vec<ProposalShortId> = Vec::new();
    let mut i: usize = 0;
    while i < ids.len()
        invariant
            0 <= i <= ids.len(),
            inflight0 == old(inflight)@,
            ids@ == block_proposals(*block),
            inflight@ == inflight_with(inflight0, *pool, ids@, i as int),
            unknown@ == requested(inflight0, *pool, ids@, i as int),
        decreases ids.len() - i,
    {
        if pool.get_tx(&ids[i]).is_none() && find_short_id(inflight, &ids[i]).is_none() {
            inflight.push(ids[i]);
            unknown.push(ids[i]);
        }
        i += 1;
    }
    unknown
}

/// How the handling of a compact block ends.
#[derive(Clone, Copy, Debug, PartialEq, Eq, Structural)]
pub enum CompactBlockDecision {
    /// The block was seen before.
    AlreadyKnown,
    /// The parent is unknown: headers are to be asked of the peer.
    UnknownParent,
    /// The chain of the block is not heavier than the best known.
    NotBetter,
    /// The block is pending or stored already.
    AlreadyProcessed,
    /// The header is invalid.
    InvalidHeader(HeaderError),
    /// The block breaks the rules of the format.
    Malformed,
    /// Every transaction was found: the block goes on to acceptance.
    Accept,
    /// Transactions are missing: the block waits for them.
    Pending,
}

/// What the handler hands back.
#[derive(Debug)]
pub enum CompactBlockOutcome {
    AlreadyKnown,
    /// Headers are to be asked of the peer, from the local tip on.
    UnknownParent,
    NotBetter,
    AlreadyProcessed,
    InvalidHeader(HeaderError),
    /// The block is complete. `sources` tells where the transaction of
    /// each place is found; `proposals` are to be asked of the peer.
    Accept { compact_block: CompactBlock, sources: Vec<TxSource>, proposals: Vec<ProposalShortId> },
    /// The block waits in the pool of pending blocks. The transactions at
    /// the places `missing` and the `proposals` are to be asked of the
    /// peer.
    Pending { block_hash: Byte32, missing: Vec<usize>, proposals: Vec<ProposalShortId> },
}

/// The handling of one compact block.
pub struct CompactBlockProcess<'a> {
    pub message: CompactBlock,
    pub context: &'a RelayContext<'a>,
    pub peer: PeerIndex,
}

/// The headers of pending blocks.
pub open spec fn pending_headers(state: RelayState) -> Seq<Header> {
    Seq::new(
        state.pending_compact_blocks.entries@.len(),
        |i: int| state.pending_compact_blocks.entries@[i].compact_block.header,
    )
}

impl<'a> CompactBlockProcess<'a> {
    /// The handling of `message` from `peer`.
    pub fn new(message: CompactBlock, context: &'a RelayContext<'a>, peer: PeerIndex) -> (r: Self)
        ensures
            r.message == message,
            r.context == context,
            r.peer == peer,
    {
        CompactBlockProcess { message, context, peer }
    }

    /// Whether the store holds the block already.
    pub open spec fn spec_stored(&self) -> bool {
        self.context.store.spec_block(self.message.header.hash@).is_some()
    }

    /// How the handling ends, decided in this order: a block seen before
    /// is dropped, and so is a block that the store holds; a block without
    /// known parent asks for headers; a chain no heavier than the best
    /// known is dropped; so is a block that is pending; then the header is
    /// checked, with the pending headers in view; then the format; at last
    /// the block is accepted if every transaction is found, and waits
    /// otherwise.
    pub open spec fn spec_decision(&self, state: RelayState, pow_valid: bool) -> CompactBlockDecision {
        let hash = self.message.header.hash@;
        let store = self.context.store;
        if state.spec_known_compact_block(hash) {
            CompactBlockDecision::AlreadyKnown
        } else if self.spec_stored() {
            CompactBlockDecision::AlreadyProcessed
        } else if store.spec_total_difficulty(self.message.header.parent_hash@).is_none() {
            CompactBlockDecision::UnknownParent
        } else if store.spec_total_difficulty(self.message.header.parent_hash@).unwrap()
            + self.message.header.difficulty <= self.context.best_known_total_difficulty {
            CompactBlockDecision::NotBetter
        } else if state.pending_compact_blocks.spec_contains(hash) {
            CompactBlockDecision::AlreadyProcessed
        } else if header_fault(
            pending_headers(state),
            *store,
            *self.context.consensus,
            self.context.now,
            self.message.header,
            pow_valid,
        ).is_some() {
            CompactBlockDecision::InvalidHeader(
                header_fault(
                    pending_headers(state),
                    *store,
                    *self.context.consensus,
                    self.context.now,
                    self.message.header,
                    pow_valid,
                ).unwrap(),
            )
        } else if !self.message.wf() || compact_block_fault(self.message).is_some() {
            CompactBlockDecision::Malformed
        } else if missing_positions(
            self.message,
            *self.context.tx_pool,
            Seq::<Transaction>::empty(),
            self.message.spec_txs_len(),
        ).len() == 0 {
            CompactBlockDecision::Accept
        } else {
            CompactBlockDecision::Pending
        }
    }

    /// Handles the compact block. `pow_valid` tells whether the proof of
    /// work of its header holds.
    ///
    /// A block that was seen before or that the store holds changes
    /// nothing. The hash of any other block becomes known. A block that is
    /// accepted or waits puts those of its proposals in flight that the
    /// pool lacks. A block that waits enters the pool of pending blocks,
    /// with the peer and the places asked of it.
    pub fn execute(self, state: &mut RelayState, pow_valid: bool) -> (r: Result<
        CompactBlockOutcome,
        Error,
    >)
        requires
            old(state).wf(),
        ensures
            final(state).wf(),
            final(state).pending_compact_blocks.limit() == old(state).pending_compact_blocks.limit(),
            final(state).known_txs == old(state).known_txs,
            final(state).pending_proposal_requests == old(state).pending_proposal_requests,
            final(state).tx_already_asked == old(state).tx_already_asked,
            final(state).peers == old(state).peers,
            old(state).spec_known_compact_block(self.message.header.hash@) || self.spec_stored()
                ==> final(state).known_compact_blocks@ == old(state).known_compact_blocks@,
            !old(state).spec_known_compact_block(self.message.header.hash@) && !self.spec_stored()
                ==> final(state).known_compact_blocks@ == old(state).known_compact_blocks@.push(
                self.message.header.hash,
            ),
            match self.spec_decision(*old(state), pow_valid) {
                CompactBlockDecision::AlreadyKnown => r is Ok && r->Ok_0 is AlreadyKnown,
                CompactBlockDecision::UnknownParent => r is Ok && r->Ok_0 is UnknownParent,
                CompactBlockDecision::NotBetter => r is Ok && r->Ok_0 is NotBetter,
                CompactBlockDecision::AlreadyProcessed => r is Ok && r->Ok_0 is AlreadyProcessed,
                CompactBlockDecision::InvalidHeader(e) => r is Ok && r->Ok_0
                    == CompactBlockOutcome::InvalidHeader(e),
                CompactBlockDecision::Malformed => r is Err && (self.message.wf() ==> r->Err_0
                    == Error::Misbehavior(compact_block_fault(self.message).unwrap())),
                CompactBlockDecision::Accept => r is Ok && match r->Ok_0 {
                    CompactBlockOutcome::Accept { compact_block, sources, proposals } => {
                        &&& compact_block == self.message
                        &&& sources@.len() == self.message.spec_txs_len()
                        &&& forall|pos: int|
                            0 <= pos < sources@.len() ==> filled(
                                self.message,
                                *self.context.tx_pool,
                                Seq::<Transaction>::empty(),
                                pos,
                            ) == Some(#[trigger] sources@[pos])
                        &&& forall|pos: int|
                            0 <= pos < sources@.len() ==> source_tx(
                                self.message,
                                *self.context.tx_pool,
                                Seq::<Transaction>::empty(),
                                #[trigger] sources@[pos],
                            ).is_some()
                        &&& proposals@ == requested(
                            old(state).inflight_proposals@,
                            *self.context.tx_pool,
                            block_proposals(self.message),
                            block_proposals(self.message).len() as int,
                        )
                    },
                    _ => false,
                },
                CompactBlockDecision::Pending => r is Ok && match r->Ok_0 {
                    CompactBlockOutcome::Pending { block_hash, missing, proposals } => {
                        &&& block_hash == self.message.header.hash
                        &&& missing@ == missing_positions(
                            self.message,
                            *self.context.tx_pool,
                            Seq::<Transaction>::empty(),
                            self.message.spec_txs_len(),
                        )
                        &&& proposals@ == requested(
                            old(state).inflight_proposals@,
                            *self.context.tx_pool,
                            block_proposals(self.message),
                            block_proposals(self.message).len() as int,
                        )
                    },
                    _ => false,
                },
            },
            match self.spec_decision(*old(state), pow_valid) {
                CompactBlockDecision::Accept | CompactBlockDecision::Pending => final(state).inflight_proposals@ == inflight_with(
                    old(state).inflight_proposals@,
                    *self.context.tx_pool,
                    block_proposals(self.message),
                    block_proposals(self.message).len() as int,
                ),
                _ => final(state).inflight_proposals@ == old(state).inflight_proposals@,
            },
            match self.spec_decision(*old(state), pow_valid) {
                CompactBlockDecision::Pending => exists|entry: PendingEntry|
                    {
                        &&& entry.compact_block == self.message
                        &&& entry.peers@.len() == 1
                        &&& entry.peers@[0].peer == self.peer
                        &&& entry.peers@[0].indexes@ == missing_positions(
                            self.message,
                            *self.context.tx_pool,
                            Seq::<Transaction>::empty(),
                            self.message.spec_txs_len(),
                        )
                        &&& #[trigger] put(
                            old(state).pending_compact_blocks.entries@,
                            old(state).pending_compact_blocks.limit(),
                            entry,
                        ) == final(state).pending_compact_blocks.entries@
                    },
                CompactBlockDecision::AlreadyProcessed => final(state).pending_compact_blocks.entries@
                    == if self.spec_stored() {
                    old(state).pending_compact_blocks.entries@
                } else {
                    refreshed(old(state).pending_compact_blocks.entries@, self.message.header.hash@)
                },
                _ => final(state).pending_compact_blocks.entries@ == old(state).pending_compact_blocks.entries@,
            },
    {
        let compact_block = self.message;
        let block_hash = compact_block.header.hash;
        let store = self.context.store;

        if state.already_known_compact_block(&block_hash) {
            return Ok(CompactBlockOutcome::AlreadyKnown);
        }
        if store.get_block(&block_hash).is_some() {
            return Ok(CompactBlockOutcome::AlreadyProcessed);
        }
        mark_known(&mut state.known_compact_blocks, block_hash);

        match store.get_total_difficulty(&compact_block.header.parent_hash) {
            Some(parent_total_difficulty) => {
                let best = self.context.best_known_total_difficulty;
                let difficulty = compact_block.header.difficulty as u128;
                // The sum is compared without being formed: it may exceed
                // 128 bits.
                if best >= difficulty && parent_total_difficulty <= best - difficulty {
                    return Ok(CompactBlockOutcome::NotBetter);
                }
            },
            None => {
                return Ok(CompactBlockOutcome::UnknownParent);
            },
        }

        let ghost kept = state.pending_compact_blocks.entries@;
        proof {
            crate::primitives::lemma_position(pending_keys(kept), block_hash@);
        }
        if state.pending_compact_blocks.contains_key(&block_hash) {
            return Ok(CompactBlockOutcome::AlreadyProcessed);
        }
        assert(state.pending_compact_blocks.entries@ == kept);
        let pending = state.pending_compact_blocks.headers();
        assert(pending@ =~= pending_headers(*old(state)));
        let header_verifier = HeaderVerifier::new(
            &pending,
            store,
            self.context.consensus,
            self.context.now,
        );
        match header_verifier.verify(&compact_block.header, pow_valid) {
            Ok(_) => {},
            Err(e) => {
                return Ok(CompactBlockOutcome::InvalidHeader(e));
            },
        }
        if compact_block.prefilled_transactions.len() > usize::MAX - compact_block.short_ids.len() {
            return Err(Error::Misbehavior(Misbehavior::OverflowPrefilledTransactions));
        }
        match CompactBlockVerifier::new().verify(&compact_block) {
            Ok(_) => {},
            Err(e) => {
                return Err(e);
            },
        }

        let proposals = request_proposal_txs(
            &mut state.inflight_proposals,
            self.context.tx_pool,
            &compact_block,
        );
        let provided: Vec<Transaction> = Vec::new();
        assert(provided@ =~= Seq::<Transaction>::empty());
        match reconstruct_block(&compact_block, self.context.tx_pool, provided.as_slice()) {
            Ok(sources) => Ok(CompactBlockOutcome::Accept { compact_block, sources, proposals }),
            Err(missing) => {
                let mut indexes: Vec<usize> = Vec::new();
                let mut i: usize = 0;
                while i < missing.len()
                    invariant
                        0 <= i <= missing.len(),
                        indexes@ == missing@.subrange(0, i as int),
                    decreases missing.len() - i,
                {
                    indexes.push(missing[i]);
                    assert(indexes@ =~= missing@.subrange(0, i as int + 1));
                    i += 1;
                }
                assert(indexes@ =~= missing@);
                let mut peers: Vec<PeerRequest> = Vec::new();
                peers.push(PeerRequest { peer: self.peer, indexes });
                let entry = PendingEntry { compact_block, peers };
                let ghost put_entry = entry;
                state.pending_compact_blocks.insert(entry);
                assert(put(kept, old(state).pending_compact_blocks.limit(), put_entry)
                    == state.pending_compact_blocks.entries@);
                Ok(CompactBlockOutcome::Pending { block_hash, missing, proposals })
            },
        }
    }
}

} // verus!
