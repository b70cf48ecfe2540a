//! Verification of a block against the chain that it extends: uncles,
//! proposal window, DAO field, cellbase reward and the transactions with
//! their cycle budget.

use vstd::prelude::*;
use crate::consensus::Consensus;
use crate::consensus::EpochExt;
use crate::consensus::EpochNumberWithFraction;
use crate::dao::DaoCalculator;
use crate::error::BlockErrorKind;
use crate::error::CellbaseError;
use crate::error::CommitError;
use crate::error::Error;
use crate::error::TransactionError;
use crate::error::UnclesError;
use crate::lru::CycleCache;
use crate::lru::stored;
use crate::primitives::Byte32;
use crate::primitives::Capacity;
use crate::primitives::CapacityError;
use crate::primitives::ProposalShortId;
use crate::primitives::amounts_sum;
use crate::primitives::contains_short_id;
use crate::primitives::extend_short_ids;
use crate::primitives::has_short_id;
use crate::primitives::lemma_amounts_sum_monotone;
use crate::primitives::sum_capacities;
use crate::store::ChainStore;
use crate::store::StoredBlock;
use crate::tx_verifier::ContextualTransactionVerifier;
use crate::tx_verifier::ResolvedTransaction;
use crate::tx_verifier::ScriptOutcome;
use crate::types::Block;
use crate::types::BlockNumber;
use crate::types::Cycle;
use crate::types::Header;
use crate::types::Script;

verus! {

/// What verification reads: the store, the constants of the chain, and
/// the headers that are known though the store does not hold them yet.
pub struct VerifyContext<'a> {
    pub store: &'a ChainStore,
    pub consensus: &'a Consensus,
    pub pending: Vec<Header>,
}

impl<'a> VerifyContext<'a> {
    /// A context over `store` under `consensus`, with no pending header.
    pub fn new(store: &'a ChainStore, consensus: &'a Consensus) -> (r: Self)
        ensures
            r.store == store,
            r.consensus == consensus,
            r.pending@.len() == 0,
    {
        VerifyContext { store, consensus, pending: Vec::new() }
    }

    /// The epoch that begins after `header`, where `header` is the last
    /// block of its epoch: what the store records for it.
    pub fn next_epoch_ext(&self, header: &Header) -> (r: Option<EpochExt>)
        ensures
            r == self.store.spec_next_epoch(header.hash@),
    {
        self.store.get_next_epoch(&header.hash)
    }

    /// The number of blocks over which the median time is taken.
    pub fn median_block_count(&self) -> (r: u64)
        ensures
            r == self.consensus.median_time_block_count,
    {
        self.consensus.median_time_block_count()
    }

    /// Timestamp, number and parent hash of a stored block.
    pub fn timestamp_and_parent(&self, block_hash: &Byte32) -> (r: (u64, BlockNumber, Byte32))
        requires
            self.store.spec_header(block_hash@).is_some(),
        ensures
            r.0 == self.store.spec_header(block_hash@).unwrap().timestamp,
            r.1 == self.store.spec_header(block_hash@).unwrap().number,
            r.2 == self.store.spec_header(block_hash@).unwrap().parent_hash,
    {
        match self.store.get_block_header(block_hash) {
            Some(header) => (header.timestamp, header.number, header.parent_hash),
            None => (0, 0, Byte32::zero()),
        }
    }

    /// A header dependency is valid when the main chain holds it.
    pub fn is_valid(&self, block_hash: &Byte32) -> (r: bool)
        ensures
            r == self.store.spec_in_main_chain(block_hash@),
    {
        self.store.get_block_number(block_hash).is_some()
    }
}

/// What the cellbase of a block may pay out.
#[derive(Clone, Copy, Debug, PartialEq, Eq, Structural)]
pub struct BlockReward {
    /// The sum of the three parts.
    pub total: Capacity,
    /// The primary issuance of the rewarded block.
    pub primary: Capacity,
    /// The secondary issuance of the rewarded block.
    pub secondary: Capacity,
    /// The fees of the transactions that the rewarded block committed.
    pub committed: Capacity,
}

/// The reward that the block on top of `parent` pays for `parent`: the
/// issuances of `parent` within its epoch and the fees of its
/// transactions.
///
/// `UnknownParent` where the store lacks the block, its epoch or its fees,
/// or the epoch does not hold the block; `Capacity(Overflow)` where the
/// total exceeds 64 bits.
pub open spec fn spec_block_reward(store: ChainStore, parent: Header) -> Result<
    BlockReward,
    Error,
> {
    match store.spec_block(parent.hash@) {
        None => Err(Error::UnknownParent { parent_hash: parent.hash }),
        Some(b) => if b.epoch.is_none() || b.ext.is_none() || !b.epoch.unwrap().wf()
            || !b.epoch.unwrap().spec_contains(parent.number) {
            Err(Error::UnknownParent { parent_hash: parent.hash })
        } else {
            let p = b.epoch.unwrap().spec_primary(parent.number);
            let s = b.epoch.unwrap().spec_secondary(parent.number);
            let f = amounts_sum(b.ext.unwrap().txs_fees@, b.ext.unwrap().txs_fees@.len() as int);
            if p + s + f > u64::MAX {
                Err(Error::Capacity(CapacityError::Overflow))
            } else {
                Ok(
                    BlockReward {
                        total: Capacity { shannons: (p + s + f) as u64 },
                        primary: Capacity { shannons: p as u64 },
                        secondary: Capacity { shannons: s as u64 },
                        committed: Capacity { shannons: f as u64 },
                    },
                )
            }
        },
    }
}

impl<'a> VerifyContext<'a> {
    /// The lock that the reward for `parent` is owed to, and the reward.
    pub fn finalize_block_reward(&self, parent: &Header) -> (r: Result<
        (&'a Script, BlockReward),
        Error,
    >)
        ensures
            match r {
                Ok((lock, reward)) => spec_block_reward(*self.store, *parent) == Ok::<
                    BlockReward,
                    Error,
                >(reward) && *lock == self.store.spec_block(parent.hash@).unwrap().miner_lock,
                Err(e) => spec_block_reward(*self.store, *parent) == Err::<BlockReward, Error>(e),
            },
    {
        let block = match self.store.get_block(&parent.hash) {
            Some(b) => b,
            None => {
                return Err(Error::UnknownParent { parent_hash: parent.hash });
            },
        };
        let epoch = match block.epoch {
            Some(e) => e,
            None => {
                return Err(Error::UnknownParent { parent_hash: parent.hash });
            },
        };
        let ext = match &block.ext {
            Some(x) => x,
            None => {
                return Err(Error::UnknownParent { parent_hash: parent.hash });
            },
        };
        if epoch.length == 0 || epoch.start_number > u64::MAX - epoch.length {
            return Err(Error::UnknownParent { parent_hash: parent.hash });
        }
        if !epoch.contains(parent.number) {
            return Err(Error::UnknownParent { parent_hash: parent.hash });
        }
        let primary = epoch.block_reward(parent.number);
        let secondary = epoch.secondary_block_issuance(parent.number);
        proof {
            lemma_amounts_sum_monotone(ext.txs_fees@, 0, ext.txs_fees@.len() as int);
        }
        let committed = match sum_capacities(&ext.txs_fees) {
            Ok(c) => c,
            Err(_) => {
                return Err(Error::Capacity(CapacityError::Overflow));
            },
        };
        let issued = match primary.safe_add(secondary) {
            Ok(c) => c,
            Err(_) => {
                return Err(Error::Capacity(CapacityError::Overflow));
            },
        };
        let total = match issued.safe_add(committed) {
            Ok(c) => c,
            Err(_) => {
                return Err(Error::Capacity(CapacityError::Overflow));
            },
        };
        Ok((&block.miner_lock, BlockReward { total, primary, secondary, committed }))
    }
}

/// What the uncle checks read: the epoch of the block and the store.
pub struct UncleVerifierContext<'a, 'b> {
    pub epoch: &'b EpochExt,
    pub context: &'a VerifyContext<'a>,
}

impl<'a, 'b> UncleVerifierContext<'a, 'b> {
    /// The view for uncles of a block of `epoch`.
    pub fn new(context: &'a VerifyContext<'a>, epoch: &'b EpochExt) -> (r: Self)
        ensures
            r.context == context,
            r.epoch == epoch,
    {
        UncleVerifierContext { epoch, context }
    }

    /// Whether the block with hash `hash` is on the main chain or was
    /// included as an uncle before.
    pub open spec fn spec_double_inclusion(&self, hash: Seq<u8>) -> bool {
        self.context.store.spec_in_main_chain(hash) || self.context.store.spec_is_uncle(hash)
    }

    /// Whether the chain holds a block or an uncle with this hash already.
    pub fn double_inclusion(&self, hash: &Byte32) -> (r: bool)
        ensures
            r == self.spec_double_inclusion(hash@),
    {
        self.context.store.get_block_number(hash).is_some() || self.context.store.is_uncle(hash)
    }

    /// Whether the parent of `uncle` is a main-chain block, or else a known
    /// uncle, one height below `uncle`.
    pub open spec fn spec_descendant(&self, uncle: Header) -> bool {
        let store = self.context.store;
        if store.spec_in_main_chain(uncle.parent_hash@) {
            match store.spec_header(uncle.parent_hash@) {
                Some(parent) => parent.number + 1 == uncle.number,
                None => false,
            }
        } else {
            match store.spec_uncle_header(uncle.parent_hash@) {
                Some(parent) => parent.number + 1 == uncle.number,
                None => false,
            }
        }
    }

    /// Whether `uncle` is a child of a block of the main chain.
    pub fn descendant(&self, uncle: &Header) -> (r: bool)
        ensures
            r == self.spec_descendant(*uncle),
    {
        let parent_hash = uncle.parent_hash;
        let uncle_number = uncle.number;
        let store = self.context.store;

        if store.get_block_number(&parent_hash).is_some() {
            return match store.get_block_header(&parent_hash) {
                Some(parent) => parent.number < u64::MAX && parent.number + 1 == uncle_number,
                None => false,
            };
        }
        if let Some(uncle_parent) = store.get_uncle_header(&parent_hash) {
            return uncle_parent.number < u64::MAX && uncle_parent.number + 1 == uncle_number;
        }
        false
    }

    /// The epoch of the block under verification.
    pub fn epoch(&self) -> (r: &EpochExt)
        ensures
            r == self.epoch,
    {
        self.epoch
    }

    /// The consensus parameters.
    pub fn consensus(&self) -> (r: &Consensus)
        ensures
            r == self.context.consensus,
    {
        self.context.consensus
    }
}

/// Checks the uncles of a block.
pub struct UnclesVerifier<'a, 'b> {
    pub provider: UncleVerifierContext<'a, 'b>,
    pub block: &'a Block,
}

impl<'a, 'b> UnclesVerifier<'a, 'b> {
    /// A verifier of the uncles of `block`.
    pub fn new(provider: UncleVerifierContext<'a, 'b>, block: &'a Block) -> (r: Self)
        ensures
            r.provider == provider,
            r.block == block,
    {
        UnclesVerifier { provider, block }
    }

    /// What is wrong with uncle `i`, if anything: it is on the main chain
    /// or an uncle already, its parent is not one height below it on the
    /// main chain or among the uncles, or it is of another epoch than the
    /// block.
    pub open spec fn spec_uncle_fault(&self, i: int) -> Option<UnclesError> {
        let uncle = self.block.uncles@[i].header;
        if self.provider.spec_double_inclusion(uncle.hash@) {
            Some(UnclesError::DoubleInclusion(uncle.hash))
        } else if !self.provider.spec_descendant(uncle) {
            Some(UnclesError::DescendantLimit)
        } else if EpochNumberWithFraction::spec_from_full_value(uncle.epoch).number
            != self.provider.epoch.number {
            Some(UnclesError::InvalidDifficultyEpoch)
        } else {
            None
        }
    }

    /// The fault of the first of the first `n` uncles that has one.
    pub open spec fn spec_first_fault(&self, n: int) -> Option<UnclesError>
        decreases n,
    {
        if n <= 0 {
            None
        } else {
            match self.spec_first_fault(n - 1) {
                Some(e) => Some(e),
                None => self.spec_uncle_fault(n - 1),
            }
        }
    }

    /// What is wrong with the uncles, if anything: too many of them, or
    /// the first fault of an uncle.
    pub open spec fn spec_fault(&self) -> Option<UnclesError> {
        if self.block.uncles@.len() > self.provider.context.consensus.max_uncles_num {
            Some(
                UnclesError::OverCount {
                    max: self.provider.context.consensus.max_uncles_num,
                    actual: self.block.uncles@.len() as u64,
                },
            )
        } else {
            self.spec_first_fault(self.block.uncles@.len() as int)
        }
    }

    proof fn lemma_fault_stays(&self, i: int, n: int)
        requires
            0 <= i <= n,
            self.spec_first_fault(i).is_some(),
        ensures
            self.spec_first_fault(n) == self.spec_first_fault(i),
        decreases n - i,
    {
        if i < n {
            self.lemma_fault_stays(i, n - 1);
        }
    }

    /// Succeeds exactly when nothing is wrong with the uncles, and names
    /// the fault otherwise.
    pub fn verify(&self) -> (r: Result<(), Error>)
        ensures
            r.is_ok() <==> self.spec_fault().is_none(),
            r.is_err() ==> self.spec_fault().is_some() && r == Err::<(), Error>(
                Error::Uncles(self.spec_fault().unwrap()),
            ),
    {
        let uncles = &self.block.uncles;
        let max = self.provider.consensus().max_uncles_num;
        if uncles.len() as u64 > max {
            return Err(Error::Uncles(UnclesError::OverCount { max, actual: uncles.len() as u64 }));
        }
        let mut i: usize = 0;
        while i < uncles.len()
            invariant
                0 <= i <= uncles.len(),
                uncles == &self.block.uncles,
                uncles@.len() <= self.provider.context.consensus.max_uncles_num,
                self.spec_first_fault(i as int).is_none(),
            decreases uncles.len() - i,
        {
            let header = uncles[i].header;
            let fault = if self.provider.double_inclusion(&header.hash) {
                Some(UnclesError::DoubleInclusion(header.hash))
            } else if !self.provider.descendant(&header) {
                Some(UnclesError::DescendantLimit)
            } else if EpochNumberWithFraction::from_full_value(header.epoch).number
                != self.provider.epoch().number {
                Some(UnclesError::InvalidDifficultyEpoch)
            } else {
                None
            };
            match fault {
                Some(e) => {
                    proof {
                        self.lemma_fault_stays(i as int + 1, uncles@.len() as int);
                    }
                    return Err(Error::Uncles(e));
                },
                None => {},
            }
            i += 1;
        }
        Ok(())
    }
}

/// Whether one of the first `n` uncles proposes `id`.
pub open spec fn uncles_propose(block: StoredBlock, n: int, id: Seq<u8>) -> bool {
    exists|u: int|
        0 <= u < n && u < block.uncles@.len() && contains_short_id(
            (#[trigger] block.uncles@[u]).proposals@,
            id,
        )
}

/// Whether a stored block proposes `id`, itself or in one of its uncles.
pub open spec fn block_proposes(block: StoredBlock, id: Seq<u8>) -> bool {
    contains_short_id(block.proposals@, id) || uncles_propose(
        block,
        block.uncles@.len() as int,
        id,
    )
}

/// Whether the main-chain block at `number` proposes `id`.
pub open spec fn proposed_at(store: ChainStore, number: int, id: Seq<u8>) -> bool {
    0 <= number < store.main_chain@.len() && (match store.spec_block(store.main_chain@[number]@) {
        Some(b) => block_proposes(b, id),
        None => false,
    })
}

/// Whether a main-chain block with a number from `lo` to `hi` proposes
/// `id`.
pub open spec fn proposed_within(store: ChainStore, lo: int, hi: int, id: Seq<u8>) -> bool {
    exists|k: int| lo <= k <= hi && #[trigger] proposed_at(store, k, id)
}

/// Whether the store lacks a block on the way from the block with hash
/// `hash` through `steps` blocks, each the parent of the one before; the
/// way ends at a genesis block.
pub open spec fn walk_fault(store: ChainStore, hash: Seq<u8>, steps: nat) -> bool
    decreases steps,
{
    if steps == 0 {
        false
    } else {
        match store.spec_block(hash) {
            None => true,
            Some(b) => !b.header.spec_is_genesis() && walk_fault(
                store,
                b.header.parent_hash@,
                (steps - 1) as nat,
            ),
        }
    }
}

/// Whether a block on that way proposes `id`, itself or in one of its
/// uncles.
pub open spec fn walk_proposes(store: ChainStore, hash: Seq<u8>, steps: nat, id: Seq<u8>) -> bool
    decreases steps,
{
    if steps == 0 {
        false
    } else {
        match store.spec_block(hash) {
            None => false,
            Some(b) => block_proposes(b, id) || (!b.header.spec_is_genesis() && walk_proposes(
                store,
                b.header.parent_hash@,
                (steps - 1) as nat,
                id,
            )),
        }
    }
}

/// The number of blocks in the proposal window of block `number`.
pub open spec fn window_steps(consensus: Consensus, number: BlockNumber) -> nat {
    if window_end(consensus, number) >= window_start(consensus, number) {
        (window_end(consensus, number) - window_start(consensus, number) + 1) as nat
    } else {
        0
    }
}

/// On a store whose main chain is a chain, the way down from a main-chain
/// block lacks no block, and it passes the main-chain blocks below, so
/// that what is proposed on the way is what those blocks propose.
pub proof fn lemma_walk_is_window(store: ChainStore, e: int, steps: nat, id: Seq<u8>)
    requires
        store.wf(),
        0 <= e < store.main_chain@.len(),
    ensures
        !walk_fault(store, store.main_chain@[e]@, steps),
        walk_proposes(store, store.main_chain@[e]@, steps, id) <==> proposed_within(
            store,
            e - steps + 1,
            e,
            id,
        ),
    decreases steps,
{
    if steps > 0 {
        assert(store.spec_linked(e, store.main_chain@[e]@));
        let b = store.spec_block(store.main_chain@[e]@).unwrap();
        if e > 0 {
            lemma_walk_is_window(store, e - 1, (steps - 1) as nat, id);
            if proposed_within(store, e - steps + 1, e, id) {
                let k = choose|k: int| e - steps + 1 <= k <= e && #[trigger] proposed_at(store, k, id);
                if k < e {
                    assert(e - 1 - (steps - 1) + 1 <= k <= e - 1 && proposed_at(store, k, id));
                }
            }
            if proposed_within(store, e - 1 - (steps - 1) + 1, e - 1, id) {
                let k = choose|k: int|
                    e - 1 - (steps - 1) + 1 <= k <= e - 1 && #[trigger] proposed_at(store, k, id);
                assert(e - steps + 1 <= k <= e && proposed_at(store, k, id));
            }
            if block_proposes(b, id) {
                assert(e - steps + 1 <= e <= e && proposed_at(store, e, id));
            }
        } else {
            if block_proposes(b, id) {
                assert(e - steps + 1 <= e <= e && proposed_at(store, e, id));
            }
            if proposed_within(store, e - steps + 1, e, id) {
                let k = choose|k: int| e - steps + 1 <= k <= e && #[trigger] proposed_at(store, k, id);
                assert(k == 0);
            }
        }
    }
}

/// The far end of the proposal window of block `number`.
pub open spec fn window_start(consensus: Consensus, number: BlockNumber) -> int {
    if number >= consensus.tx_proposal_window.farthest {
        number - consensus.tx_proposal_window.farthest
    } else {
        0
    }
}

/// The near end of the proposal window of block `number`.
pub open spec fn window_end(consensus: Consensus, number: BlockNumber) -> int {
    if number >= consensus.tx_proposal_window.closest {
        number - consensus.tx_proposal_window.closest
    } else {
        0
    }
}

/// Whether every transaction of `block` but the cellbase is proposed
/// within the proposal window of the block: by a block on the way down
/// from the main-chain block at the near end of the window, through as
/// many blocks as the window holds.
pub open spec fn commits_proposed(store: ChainStore, consensus: Consensus, block: Block) -> bool {
    forall|j: int|
        1 <= j < block.transactions@.len() ==> walk_proposes(
            store,
            store.main_chain@[window_end(consensus, block.header.number)]@,
            window_steps(consensus, block.header.number),
            (#[trigger] block.transactions@[j]).spec_short_id(),
        )
}

/// Adds to `ids` what `block` proposes, itself and in its uncles.
fn collect_proposals(ids: &mut Vec<ProposalShortId>, block: &StoredBlock)
    ensures
        forall|id: Seq<u8>|
            #![trigger contains_short_id(final(ids)@, id)]
            contains_short_id(final(ids)@, id) <==> contains_short_id(old(ids)@, id)
                || block_proposes(*block, id),
{
    let ghost before = ids@;
    extend_short_ids(ids, &block.proposals);
    let mut u: usize = 0;
    while u < block.uncles.len()
        invariant
            0 <= u <= block.uncles.len(),
            forall|id: Seq<u8>|
                #![trigger contains_short_id(ids@, id)]
                contains_short_id(ids@, id) <==> contains_short_id(before, id)
                    || contains_short_id(block.proposals@, id) || uncles_propose(
                    *block,
                    u as int,
                    id,
                ),
        decreases block.uncles.len() - u,
    {
        let ghost mid = ids@;
        extend_short_ids(ids, &block.uncles[u].proposals);
        proof {
            assert forall|id: Seq<u8>|
                #![trigger contains_short_id(ids@, id)]
                contains_short_id(ids@, id) <==> contains_short_id(before, id)
                    || contains_short_id(block.proposals@, id) || uncles_propose(
                    *block,
                    u as int + 1,
                    id,
                ) by {
                assert(contains_short_id(mid, id) <==> contains_short_id(before, id)
                    || contains_short_id(block.proposals@, id) || uncles_propose(
                    *block,
                    u as int,
                    id,
                ));
                let here = contains_short_id(block.uncles@[u as int].proposals@, id);
                if uncles_propose(*block, u as int + 1, id) {
                    let v = choose|v: int|
                        0 <= v < u + 1 && v < block.uncles@.len() && contains_short_id(
                            (#[trigger] block.uncles@[v]).proposals@,
                            id,
                        );
                    if v < u {
                        assert(uncles_propose(*block, u as int, id));
                    }
                }
                if uncles_propose(*block, u as int, id) {
                    let v = choose|v: int|
                        0 <= v < u && v < block.uncles@.len() && contains_short_id(
                            (#[trigger] block.uncles@[v]).proposals@,
                            id,
                        );
                    assert(0 <= v < u + 1 && contains_short_id(block.uncles@[v].proposals@, id));
                }
                if here {
                    assert(0 <= u < u + 1 && contains_short_id(
                        block.uncles@[u as int].proposals@,
                        id,
                    ));
                }
            }
        }
        u += 1;
    }
}

/// What is wrong with the commitments of `block`, if anything: the main
/// chain does not reach the near end of the proposal window, or the store
/// lacks a block on the way down the window; else a transaction that no
/// block of the window proposes.
pub open spec fn commit_fault(store: ChainStore, consensus: Consensus, block: Block) -> Option<
    CommitError,
> {
    if block.spec_is_genesis() {
        None
    } else if window_end(consensus, block.header.number) >= store.main_chain@.len() {
        Some(CommitError::NonexistentAncestor)
    } else if walk_fault(
        store,
        store.main_chain@[window_end(consensus, block.header.number)]@,
        window_steps(consensus, block.header.number),
    ) {
        Some(CommitError::NonexistentAncestor)
    } else if !commits_proposed(store, consensus, block) {
        Some(CommitError::NotInProposalWindow)
    } else {
        None
    }
}

/// Checks that what a block commits was proposed in time.
pub struct CommitVerifier<'a> {
    pub context: &'a VerifyContext<'a>,
    pub block: &'a Block,
}

impl<'a> CommitVerifier<'a> {
    /// A verifier of the commitments of `block`.
    pub fn new(context: &'a VerifyContext<'a>, block: &'a Block) -> (r: Self)
        ensures
            r.context == context,
            r.block == block,
    {
        CommitVerifier { context, block }
    }

    /// Accepts the genesis block. Any other block is accepted exactly when
    /// the main chain reaches the near end of the block's proposal window,
    /// the store holds every block on the way down the window, and every
    /// transaction but the cellbase is proposed by a block of the window
    /// or by an uncle of such a block.
    pub fn verify(&self) -> (r: Result<(), Error>)
        ensures
            match commit_fault(*self.context.store, *self.context.consensus, *self.block) {
                None => r.is_ok(),
                Some(e) => r == Err::<(), Error>(Error::Commit(e)),
            },
    {
        if self.block.is_genesis() {
            return Ok(());
        }
        let store = self.context.store;
        let block_number = self.block.header.number;
        let proposal_window = self.context.consensus.tx_proposal_window();
        let proposal_start = block_number.saturating_sub(proposal_window.farthest());
        let proposal_end = block_number.saturating_sub(proposal_window.closest());

        let mut block_hash = match store.get_block_hash(proposal_end) {
            Some(h) => h,
            None => {
                return Err(Error::Commit(CommitError::NonexistentAncestor));
            },
        };
        let ghost hash0 = block_hash@;
        let ghost steps0 = window_steps(*self.context.consensus, block_number);
        let mut remaining: u128 = if proposal_end >= proposal_start {
            (proposal_end - proposal_start) as u128 + 1
        } else {
            0
        };

        let mut proposal_txs_ids: Vec<ProposalShortId> = Vec::new();

        while remaining > 0
            invariant
                store == self.context.store,
                !self.block.spec_is_genesis(),
                hash0 == store.main_chain@[window_end(
                    *self.context.consensus,
                    self.block.header.number,
                )]@,
                steps0 == window_steps(*self.context.consensus, self.block.header.number),
                window_end(*self.context.consensus, self.block.header.number)
                    < store.main_chain@.len(),
                walk_fault(*store, hash0, steps0) == walk_fault(
                    *store,
                    block_hash@,
                    remaining as nat,
                ),
                forall|id: Seq<u8>|
                    #![trigger contains_short_id(proposal_txs_ids@, id)]
                    walk_proposes(*store, hash0, steps0, id) <==> contains_short_id(
                        proposal_txs_ids@,
                        id,
                    ) || walk_proposes(*store, block_hash@, remaining as nat, id),
            decreases remaining,
        {
            let block = match store.get_block(&block_hash) {
                Some(b) => b,
                None => {
                    return Err(Error::Commit(CommitError::NonexistentAncestor));
                },
            };
            let ghost before = proposal_txs_ids@;
            let ghost here = block_hash@;
            let ghost left = remaining as nat;
            collect_proposals(&mut proposal_txs_ids, block);
            if block.header.is_genesis() {
                remaining = 0;
            } else {
                block_hash = block.header.parent_hash;
                remaining = remaining - 1;
            }
            proof {
                assert forall|id: Seq<u8>|
                    #![trigger contains_short_id(proposal_txs_ids@, id)]
                    walk_proposes(*store, hash0, steps0, id) <==> contains_short_id(
                        proposal_txs_ids@,
                        id,
                    ) || walk_proposes(*store, block_hash@, remaining as nat, id) by {
                    assert(walk_proposes(*store, hash0, steps0, id) <==> contains_short_id(
                        before,
                        id,
                    ) || walk_proposes(*store, here, left, id));
                    assert(contains_short_id(proposal_txs_ids@, id) <==> contains_short_id(
                        before,
                        id,
                    ) || block_proposes(*block, id));
                }
            }
        }

        let txs = &self.block.transactions;
        let mut j: usize = 1;
        while j < txs.len()
            invariant
                1 <= j,
                txs == &self.block.transactions,
                store == self.context.store,
                !self.block.spec_is_genesis(),
                hash0 == store.main_chain@[window_end(
                    *self.context.consensus,
                    self.block.header.number,
                )]@,
                steps0 == window_steps(*self.context.consensus, self.block.header.number),
                window_end(*self.context.consensus, self.block.header.number)
                    < store.main_chain@.len(),
                !walk_fault(*store, hash0, steps0),
                forall|id: Seq<u8>|
                    #![trigger contains_short_id(proposal_txs_ids@, id)]
                    contains_short_id(proposal_txs_ids@, id) <==> walk_proposes(
                        *store,
                        hash0,
                        steps0,
                        id,
                    ),
                forall|i: int|
                    1 <= i < j && i < txs@.len() ==> contains_short_id(
                        proposal_txs_ids@,
                        (#[trigger] txs@[i]).spec_short_id(),
                    ),
            decreases txs.len() - j,
        {
            let id = txs[j].proposal_short_id();
            if !has_short_id(&proposal_txs_ids, &id) {
                assert(!walk_proposes(*store, hash0, steps0, txs@[j as int].spec_short_id()));
                return Err(Error::Commit(CommitError::NotInProposalWindow));
            }
            j += 1;
        }
        Ok(())
    }
}

/// Checks what the cellbase pays and to whom, and computes the fees of the
/// other transactions.
pub struct RewardVerifier<'a, 'b> {
    pub resolved: &'a Vec<ResolvedTransaction<'a>>,
    pub parent: &'b Header,
    pub context: &'a VerifyContext<'a>,
}

/// The first failure among the fees of transactions 1 to `n - 1`.
pub open spec fn fees_fault(
    calculator: DaoCalculator,
    resolved: Seq<ResolvedTransaction>,
    n: int,
) -> Option<Error>
    decreases n,
{
    if n <= 1 {
        None
    } else {
        match fees_fault(calculator, resolved, n - 1) {
            Some(e) => Some(e),
            None => match calculator.spec_transaction_fee(resolved[n - 1]) {
                Err(e) => Some(e),
                Ok(_) => None,
            },
        }
    }
}

proof fn lemma_fees_fault_stays(
    calculator: DaoCalculator,
    resolved: Seq<ResolvedTransaction>,
    i: int,
    n: int,
)
    requires
        0 <= i <= n,
        fees_fault(calculator, resolved, i).is_some(),
    ensures
        fees_fault(calculator, resolved, n) == fees_fault(calculator, resolved, i),
    decreases n - i,
{
    if i < n {
        lemma_fees_fault_stays(calculator, resolved, i, n - 1);
    }
}

impl<'a, 'b> RewardVerifier<'a, 'b> {
    /// A verifier of the reward that the cellbase of `resolved` claims.
    pub fn new(
        context: &'a VerifyContext<'a>,
        resolved: &'a Vec<ResolvedTransaction<'a>>,
        parent: &'b Header,
    ) -> (r: Self)
        ensures
            r.context == context,
            r.resolved == resolved,
            r.parent == parent,
    {
        RewardVerifier { parent, context, resolved }
    }

    /// The calculator that this verifier works with.
    pub open spec fn spec_calculator(&self) -> DaoCalculator<'a> {
        DaoCalculator { consensus: self.context.consensus, store: self.context.store }
    }

    /// What is wrong with the cellbase or the fees, if anything, in this
    /// order: no cellbase; no reward to be found for the parent; a first
    /// output that does not pay the lock that the reward is owed to; a
    /// cellbase whose outputs do not sum to the reward; a fee that cannot
    /// be computed.
    pub open spec fn spec_fault(&self) -> Option<Error> {
        if self.resolved@.len() == 0 {
            Some(Error::Cellbase(CellbaseError::InvalidQuantity))
        } else {
            let cellbase = self.resolved@[0].transaction;
            match spec_block_reward(*self.context.store, *self.parent) {
                Err(e) => Some(e),
                Ok(reward) => if cellbase.outputs@.len() == 0
                    || !cellbase.outputs@[0].lock.spec_same(
                    &self.context.store.spec_block(self.parent.hash@).unwrap().miner_lock,
                ) {
                    Some(Error::Cellbase(CellbaseError::InvalidRewardTarget))
                } else if cellbase.spec_outputs_capacity() > u64::MAX {
                    Some(Error::Capacity(CapacityError::Overflow))
                } else if cellbase.spec_outputs_capacity() != reward.total.shannons {
                    Some(Error::Cellbase(CellbaseError::InvalidRewardAmount))
                } else {
                    fees_fault(self.spec_calculator(), self.resolved@, self.resolved@.len() as int)
                },
            }
        }
    }

    /// Succeeds exactly when nothing is wrong, with the fee of every
    /// transaction but the cellbase, in order. A block that passes pays out
    /// in its cellbase exactly the primary and secondary issuance of the
    /// parent and the fees that the parent collected.
    pub fn verify(&self) -> (r: Result<Vec<Capacity>, Error>)
        ensures
            match r {
                Ok(fees) => self.spec_fault().is_none() && fees@.len() + 1 == self.resolved@.len()
                    && forall|j: int|
                    0 <= j < fees@.len() ==> self.spec_calculator().spec_transaction_fee(
                        self.resolved@[j + 1],
                    ) == Ok::<Capacity, Error>(#[trigger] fees@[j]),
                Err(e) => self.spec_fault() == Some(e),
            },
            r.is_ok() ==> spec_block_reward(*self.context.store, *self.parent).is_ok()
                && self.resolved@[0].transaction.spec_outputs_capacity() == spec_block_reward(
                *self.context.store,
                *self.parent,
            ).unwrap().primary.shannons + spec_block_reward(
                *self.context.store,
                *self.parent,
            ).unwrap().secondary.shannons + spec_block_reward(
                *self.context.store,
                *self.parent,
            ).unwrap().committed.shannons,
    {
        if self.resolved.len() == 0 {
            return Err(Error::Cellbase(CellbaseError::InvalidQuantity));
        }
        let cellbase = self.resolved[0].transaction;
        let (target_lock, block_reward) = match self.context.finalize_block_reward(self.parent) {
            Ok(v) => v,
            Err(e) => {
                return Err(e);
            },
        };
        if cellbase.outputs.len() == 0 || !cellbase.outputs[0].lock.same(target_lock) {
            return Err(Error::Cellbase(CellbaseError::InvalidRewardTarget));
        }
        let paid = match cellbase.outputs_capacity() {
            Ok(c) => c,
            Err(_) => {
                return Err(Error::Capacity(CapacityError::Overflow));
            },
        };
        if paid.shannons != block_reward.total.shannons {
            return Err(Error::Cellbase(CellbaseError::InvalidRewardAmount));
        }
        proof {
            let b = self.context.store.spec_block(self.parent.hash@).unwrap();
            lemma_amounts_sum_monotone(
                b.ext.unwrap().txs_fees@,
                0,
                b.ext.unwrap().txs_fees@.len() as int,
            );
        }
        let calculator = DaoCalculator::new(self.context.consensus, self.context.store);
        let mut txs_fees: Vec<Capacity> = Vec::new();
        let mut i: usize = 1;
        while i < self.resolved.len()
            invariant
                1 <= i <= self.resolved.len(),
                calculator == self.spec_calculator(),
                txs_fees@.len() + 1 == i,
                self.spec_fault() == fees_fault(
                    calculator,
                    self.resolved@,
                    self.resolved@.len() as int,
                ),
                spec_block_reward(*self.context.store, *self.parent).is_ok(),
                self.resolved@[0].transaction.spec_outputs_capacity() == spec_block_reward(
                    *self.context.store,
                    *self.parent,
                ).unwrap().total.shannons,
                fees_fault(calculator, self.resolved@, i as int).is_none(),
                forall|j: int|
                    0 <= j < txs_fees@.len() ==> calculator.spec_transaction_fee(
                        self.resolved@[j + 1],
                    ) == Ok::<Capacity, Error>(#[trigger] txs_fees@[j]),
            decreases self.resolved.len() - i,
        {
            match calculator.transaction_fee(&self.resolved[i]) {
                Ok(fee) => {
                    txs_fees.push(fee);
                },
                Err(e) => {
                    proof {
                        lemma_fees_fault_stays(
                            calculator,
                            self.resolved@,
                            i as int + 1,
                            self.resolved@.len() as int,
                        );
                    }
                    return Err(e);
                },
            }
            i += 1;
        }
        Ok(txs_fees)
    }
}

/// Checks the DAO field of a header against the field that its
/// transactions and its parent give.
pub struct DaoHeaderVerifier<'a, 'b, 'c> {
    pub context: &'a VerifyContext<'a>,
    pub resolved: &'a Vec<ResolvedTransaction<'a>>,
    pub parent: &'b Header,
    pub header: &'c Header,
}

impl<'a, 'b, 'c> DaoHeaderVerifier<'a, 'b, 'c> {
    /// A verifier of the DAO field of `header`.
    pub fn new(
        context: &'a VerifyContext<'a>,
        resolved: &'a Vec<ResolvedTransaction<'a>>,
        parent: &'b Header,
        header: &'c Header,
    ) -> (r: Self)
        ensures
            r.context == context,
            r.resolved == resolved,
            r.parent == parent,
            r.header == header,
    {
        DaoHeaderVerifier { context, resolved, parent, header }
    }

    /// The calculator that this verifier works with.
    pub open spec fn spec_calculator(&self) -> DaoCalculator<'a> {
        DaoCalculator { consensus: self.context.consensus, store: self.context.store }
    }

    /// What is wrong, if anything: the field cannot be computed, or the
    /// header carries another one.
    pub open spec fn spec_fault(&self) -> Option<Error> {
        match self.spec_calculator().spec_dao_field(self.resolved@, *self.parent) {
            Err(e) => Some(e),
            Ok(field) => if field != self.header.dao@ {
                Some(Error::Block(BlockErrorKind::InvalidDAO))
            } else {
                None
            },
        }
    }

    /// Succeeds exactly when the header's DAO field equals, byte for byte,
    /// the field computed from the parent and the transactions.
    pub fn verify(&self) -> (r: Result<(), Error>)
        ensures
            match r {
                Ok(_) => self.spec_fault().is_none(),
                Err(e) => self.spec_fault() == Some(e),
            },
    {
        let dao = match DaoCalculator::new(self.context.consensus, self.context.store).dao_field(
            self.resolved,
            self.parent,
        ) {
            Ok(d) => d,
            Err(e) => {
                return Err(e);
            },
        };
        if !dao.same(&self.header.dao) {
            return Err(Error::Block(BlockErrorKind::InvalidDAO));
        }
        Ok(())
    }
}

/// The cycles of every transaction but the cellbase are checked and summed
/// against the budget of a block.
pub struct BlockTxsVerifier<'a> {
    pub context: &'a VerifyContext<'a>,
    pub block_number: BlockNumber,
    /// The packed epoch of the block.
    pub epoch: u64,
    pub parent_hash: Byte32,
    pub resolved: &'a Vec<ResolvedTransaction<'a>>,
}

/// `entries` after the pairs `pairs[0]` to `pairs[n - 1]` were stored in
/// this order.
pub open spec fn stored_all(
    entries: Seq<(Seq<u8>, u64)>,
    limit: nat,
    pairs: Seq<(Byte32, u64)>,
    n: int,
) -> Seq<(Seq<u8>, u64)>
    decreases n,
{
    if n <= 0 {
        entries
    } else {
        stored(stored_all(entries, limit, pairs, n - 1), limit, pairs[n - 1].0@, pairs[n - 1].1)
    }
}

impl<'a> BlockTxsVerifier<'a> {
    /// A verifier of the transactions of the block numbered `block_number`.
    pub fn new(
        context: &'a VerifyContext<'a>,
        block_number: BlockNumber,
        epoch: u64,
        parent_hash: Byte32,
        resolved: &'a Vec<ResolvedTransaction<'a>>,
    ) -> (r: Self)
        ensures
            r.context == context,
            r.block_number == block_number,
            r.epoch == epoch,
            r.parent_hash == parent_hash,
            r.resolved == resolved,
    {
        BlockTxsVerifier { context, block_number, epoch, parent_hash, resolved }
    }

    /// The contextual checks of transaction `i`.
    pub open spec fn spec_contextual(&self, i: int) -> ContextualTransactionVerifier<'a> {
        ContextualTransactionVerifier {
            rtx: &self.resolved@[i],
            pending: &self.context.pending,
            store: self.context.store,
            block_number: self.block_number,
            epoch: self.epoch,
            parent_hash: self.parent_hash,
            consensus: self.context.consensus,
        }
    }

    /// What verifying transaction `i` gives: the first contextual fault;
    /// else the cycles that the cache holds for the transaction; else the
    /// outcome of its scripts.
    pub open spec fn spec_outcome(
        &self,
        cache: Seq<(Seq<u8>, u64)>,
        scripts: Seq<ScriptOutcome>,
        i: int,
    ) -> ScriptOutcome {
        match self.spec_contextual(i).spec_fault() {
            Some(e) => Err(e),
            None => match crate::lru::lookup(cache, self.resolved@[i].transaction.hash@) {
                Some(c) => Ok(c),
                None => scripts[i],
            },
        }
    }

    /// The first of the transactions 1 to `n - 1` that fails, with its
    /// fault.
    pub open spec fn spec_failure(
        &self,
        cache: Seq<(Seq<u8>, u64)>,
        scripts: Seq<ScriptOutcome>,
        n: int,
    ) -> Option<(int, TransactionError)>
        decreases n,
    {
        if n <= 1 {
            None
        } else {
            match self.spec_failure(cache, scripts, n - 1) {
                Some(f) => Some(f),
                None => match self.spec_outcome(cache, scripts, n - 1) {
                    Err(e) => Some((n - 1, e)),
                    Ok(_) => None,
                },
            }
        }
    }

    /// The cycles of the transactions 1 to `n - 1` together.
    pub open spec fn spec_cycles(
        &self,
        cache: Seq<(Seq<u8>, u64)>,
        scripts: Seq<ScriptOutcome>,
        n: int,
    ) -> int
        decreases n,
    {
        if n <= 1 {
            0
        } else {
            self.spec_cycles(cache, scripts, n - 1) + (match self.spec_outcome(
                cache,
                scripts,
                n - 1,
            ) {
                Ok(c) => c as int,
                Err(_) => 0,
            })
        }
    }

    /// The hash and cycles of each transaction but the cellbase, in order.
    pub open spec fn spec_pairs(
        &self,
        cache: Seq<(Seq<u8>, u64)>,
        scripts: Seq<ScriptOutcome>,
    ) -> Seq<(Byte32, u64)> {
        Seq::new(
            (self.resolved@.len() - 1) as nat,
            |j: int|
                (
                    self.resolved@[j + 1].transaction.hash,
                    match self.spec_outcome(cache, scripts, j + 1) {
                        Ok(c) => c,
                        Err(_) => 0,
                    },
                ),
        )
    }

    /// The cache after the hashes of transactions 1 to `n - 1` were looked
    /// up in this order.
    pub open spec fn spec_touched(&self, cache: Seq<(Seq<u8>, u64)>, n: int) -> Seq<(Seq<u8>, u64)>
        decreases n,
    {
        if n <= 1 {
            cache
        } else {
            crate::lru::touched(
                self.spec_touched(cache, n - 1),
                self.resolved@[n - 1].transaction.hash@,
            )
        }
    }

    proof fn lemma_failure_stays(
        &self,
        cache: Seq<(Seq<u8>, u64)>,
        scripts: Seq<ScriptOutcome>,
        i: int,
        n: int,
    )
        requires
            0 <= i <= n,
            self.spec_failure(cache, scripts, i).is_some(),
        ensures
            self.spec_failure(cache, scripts, n) == self.spec_failure(cache, scripts, i),
        decreases n - i,
    {
        if i < n {
            self.lemma_failure_stays(cache, scripts, i, n - 1);
        }
    }

    /// Verifies every transaction but the cellbase, in order, and sums
    /// their cycles.
    ///
    /// `scripts[i]` is what running the scripts of transaction `i` gave;
    /// it is read only where the cache holds no cycles for the
    /// transaction. The first transaction that fails is reported with its
    /// index, and the cache then keeps every value it held. Otherwise the
    /// cycles of every transaction are stored in the cache, and the sum is
    /// returned unless it exceeds the budget of a block.
    pub fn verify(&self, txs_verify_cache: &mut CycleCache, scripts: &Vec<ScriptOutcome>) -> (r:
        Result<Cycle, Error>)
        requires
            old(txs_verify_cache).wf(),
            scripts@.len() == self.resolved@.len(),
            self.resolved@.len() <= u32::MAX,
            forall|i: int| 1 <= i < self.resolved@.len() ==> (#[trigger] self.resolved@[i]).wf(),
        ensures
            final(txs_verify_cache).wf(),
            final(txs_verify_cache).limit() == old(txs_verify_cache).limit(),
            match r {
                Ok(sum) => self.spec_failure(
                    old(txs_verify_cache).entries(),
                    scripts@,
                    self.resolved@.len() as int,
                ).is_none() && sum == self.spec_cycles(
                    old(txs_verify_cache).entries(),
                    scripts@,
                    self.resolved@.len() as int,
                ) && sum <= self.context.consensus.max_block_cycles,
                Err(e) => match self.spec_failure(
                    old(txs_verify_cache).entries(),
                    scripts@,
                    self.resolved@.len() as int,
                ) {
                    Some(f) => e == (Error::BlockTransactions { index: f.0 as u32, error: f.1 }),
                    None => e == Error::Block(BlockErrorKind::TooMuchCycles) && self.spec_cycles(
                        old(txs_verify_cache).entries(),
                        scripts@,
                        self.resolved@.len() as int,
                    ) > self.context.consensus.max_block_cycles,
                },
            },
            self.spec_failure(
                old(txs_verify_cache).entries(),
                scripts@,
                self.resolved@.len() as int,
            ).is_some() ==> forall|key: Seq<u8>|
                #![trigger final(txs_verify_cache).spec_cycles(key)]
                final(txs_verify_cache).spec_cycles(key) == old(txs_verify_cache).spec_cycles(key),
            self.spec_failure(
                old(txs_verify_cache).entries(),
                scripts@,
                self.resolved@.len() as int,
            ).is_none() ==> final(txs_verify_cache).entries() == stored_all(
                self.spec_touched(old(txs_verify_cache).entries(), self.resolved@.len() as int),
                old(txs_verify_cache).limit(),
                self.spec_pairs(old(txs_verify_cache).entries(), scripts@),
                self.resolved@.len() - 1,
            ),
    {
        let ghost cache0 = txs_verify_cache.entries();
        let ghost limit0 = txs_verify_cache.limit();
        let n = self.resolved.len();
        let mut ret_set: Vec<(Byte32, u64)> = Vec::new();
        let mut i: usize = 1;
        while i < n
            invariant
                1 <= i,
                i <= n || (n == 0 && i == 1),
                n == self.resolved@.len(),
                n <= u32::MAX,
                scripts@.len() == n,
                forall|k: int| 1 <= k < self.resolved@.len() ==> (#[trigger] self.resolved@[k]).wf(),
                txs_verify_cache.wf(),
                cache0 == old(txs_verify_cache).entries(),
                limit0 == old(txs_verify_cache).limit(),
                txs_verify_cache.limit() == limit0,
                txs_verify_cache.entries() == self.spec_touched(cache0, i as int),
                forall|key: Seq<u8>|
                    #![trigger txs_verify_cache.spec_cycles(key)]
                    txs_verify_cache.spec_cycles(key) == crate::lru::lookup(cache0, key),
                self.spec_failure(cache0, scripts@, i as int).is_none(),
                ret_set@.len() + 1 == i,
                forall|j: int|
                    0 <= j < ret_set@.len() ==> (#[trigger] ret_set@[j]).0 == self.resolved@[j
                        + 1].transaction.hash && self.spec_outcome(cache0, scripts@, j + 1) == Ok::<
                        u64,
                        TransactionError,
                    >(ret_set@[j].1),
            decreases n - i,
        {
            let tx_hash = self.resolved[i].transaction.hash;
            let cached = txs_verify_cache.get(&tx_hash);
            let contextual = ContextualTransactionVerifier::new(
                &self.resolved[i],
                &self.context.pending,
                self.context.store,
                self.block_number,
                self.epoch,
                self.parent_hash,
                self.context.consensus,
            );
            assert(contextual == self.spec_contextual(i as int));
            let outcome: ScriptOutcome = match contextual.verify() {
                Err(e) => Err(e),
                Ok(_) => match cached {
                    Some(c) => Ok(c),
                    None => scripts[i],
                },
            };
            assert(outcome == self.spec_outcome(cache0, scripts@, i as int));
            match outcome {
                Err(error) => {
                    proof {
                        self.lemma_failure_stays(cache0, scripts@, i as int + 1, n as int);
                    }
                    return Err(Error::BlockTransactions { index: i as u32, error });
                },
                Ok(cycles) => {
                    ret_set.push((tx_hash, cycles));
                },
            }
            i += 1;
        }
        let ghost pairs = self.spec_pairs(cache0, scripts@);
        if n == 0 {
            assert(self.spec_touched(cache0, 0) == cache0);
            assert(self.spec_touched(cache0, 1) == cache0);
            assert(stored_all(cache0, limit0, pairs, -1) == cache0);
            return Ok(0);
        }
        assert(ret_set@ =~= pairs);

        let mut sum: u128 = 0;
        let mut j: usize = 0;
        while j < ret_set.len()
            invariant
                0 <= j <= ret_set.len(),
                ret_set@.len() + 1 == n,
                n == self.resolved@.len(),
                n <= u32::MAX,
                sum == self.spec_cycles(cache0, scripts@, j as int + 1),
                sum <= j * u64::MAX,
                forall|k: int|
                    0 <= k < ret_set@.len() ==> self.spec_outcome(cache0, scripts@, k + 1) == Ok::<
                        u64,
                        TransactionError,
                    >((#[trigger] ret_set@[k]).1),
            decreases ret_set.len() - j,
        {
            assert(j * u64::MAX + u64::MAX <= u32::MAX * u64::MAX) by (nonlinear_arith)
                requires
                    j + 1 <= u32::MAX,
            ;
            sum = sum + ret_set[j].1 as u128;
            j += 1;
        }

        let mut k: usize = 0;
        while k < ret_set.len()
            invariant
                0 <= k <= ret_set.len(),
                txs_verify_cache.wf(),
                cache0 == old(txs_verify_cache).entries(),
                limit0 == old(txs_verify_cache).limit(),
                txs_verify_cache.limit() == limit0,
                txs_verify_cache.entries() == stored_all(
                    self.spec_touched(cache0, n as int),
                    limit0,
                    ret_set@,
                    k as int,
                ),
            decreases ret_set.len() - k,
        {
            let (hash, cycles) = ret_set[k];
            txs_verify_cache.insert(hash, cycles);
            k += 1;
        }

        if sum > self.context.consensus.max_block_cycles() as u128 {
            Err(Error::Block(BlockErrorKind::TooMuchCycles))
        } else {
            Ok(sum as u64)
        }
    }
}

/// The epoch of the block on top of `parent`: the next epoch where
/// `parent` ends its own, the epoch of `parent` otherwise.
pub fn prepare_epoch_ext(context: &VerifyContext, parent: &Header) -> (r: Result<EpochExt, Error>)
    ensures
        match r {
            Ok(e) => crate::dao::epoch_after(*context.store, *parent) == Some(e),
            Err(e) => crate::dao::epoch_after(*context.store, *parent).is_none() && e
                == (Error::UnknownParent { parent_hash: parent.hash }),
        },
{
    let parent_ext = match context.store.get_block_epoch(&parent.hash) {
        Some(e) => e,
        None => {
            return Err(Error::UnknownParent { parent_hash: parent.hash });
        },
    };
    match context.next_epoch_ext(parent) {
        Some(next) => Ok(next),
        None => Ok(parent_ext),
    }
}

/// Verifies a block against the chain that it extends.
pub struct ContextualBlockVerifier<'a> {
    pub context: &'a VerifyContext<'a>,
}

impl<'a> ContextualBlockVerifier<'a> {
    /// A verifier of whole blocks against `context`.
    pub fn new(context: &'a VerifyContext<'a>) -> (r: Self)
        ensures
            r.context == context,
    {
        ContextualBlockVerifier { context }
    }

    /// The epoch of `block` on top of `parent`; the genesis epoch for the
    /// genesis block.
    pub open spec fn spec_epoch(&self, block: Block, parent: Header) -> Option<EpochExt> {
        if block.spec_is_genesis() {
            Some(self.context.consensus.genesis_epoch_ext)
        } else {
            crate::dao::epoch_after(*self.context.store, parent)
        }
    }

    /// The first fault that the checks before the transactions find, in
    /// their order: an unknown parent, the uncles, the proposal window,
    /// the DAO field, the cellbase reward and the fees.
    pub open spec fn spec_fault(&self, resolved: &'a Vec<ResolvedTransaction<'a>>, block: &'a Block)
        -> Option<Error> {
        match self.context.store.spec_header(block.header.parent_hash@) {
            None => Some(Error::UnknownParent { parent_hash: block.header.parent_hash }),
            Some(parent) => match self.spec_epoch(*block, parent) {
                None => Some(Error::UnknownParent { parent_hash: parent.hash }),
                Some(epoch) => {
                    let uncles = UnclesVerifier {
                        provider: UncleVerifierContext { epoch: &epoch, context: self.context },
                        block: block,
                    };
                    let dao = DaoHeaderVerifier {
                        context: self.context,
                        resolved: resolved,
                        parent: &parent,
                        header: &block.header,
                    };
                    let reward = RewardVerifier {
                        resolved: resolved,
                        parent: &parent,
                        context: self.context,
                    };
                    if uncles.spec_fault().is_some() {
                        Some(Error::Uncles(uncles.spec_fault().unwrap()))
                    } else if commit_fault(
                        *self.context.store,
                        *self.context.consensus,
                        *block,
                    ).is_some() {
                        Some(
                            Error::Commit(
                                commit_fault(
                                    *self.context.store,
                                    *self.context.consensus,
                                    *block,
                                ).unwrap(),
                            ),
                        )
                    } else if dao.spec_fault().is_some() {
                        dao.spec_fault()
                    } else {
                        reward.spec_fault()
                    }
                },
            },
        }
    }

    /// The check of the transactions of `block`.
    pub open spec fn spec_txs_verifier(
        &self,
        resolved: &'a Vec<ResolvedTransaction<'a>>,
        block: &'a Block,
    ) -> BlockTxsVerifier<'a> {
        BlockTxsVerifier {
            context: self.context,
            block_number: block.header.number,
            epoch: block.header.epoch,
            parent_hash: block.header.parent_hash,
            resolved: resolved,
        }
    }

    /// Accepts `block` exactly when no check finds a fault, and returns
    /// the cycles of its transactions and the fee of each but the cellbase.
    /// Otherwise the first fault in the order of the checks is returned:
    /// parent, epoch, uncles, proposal window, DAO field, reward, fees,
    /// transactions, cycle budget.
    ///
    /// An accepted block commits only what was proposed within its window,
    /// carries the DAO field that its parent and transactions give, pays in
    /// its cellbase what the parent earned, and stays within the cycle
    /// budget.
    pub fn verify(
        &'a self,
        resolved: &'a Vec<ResolvedTransaction<'a>>,
        block: &'a Block,
        txs_verify_cache: &mut CycleCache,
        scripts: &Vec<ScriptOutcome>,
    ) -> (r: Result<(Cycle, Vec<Capacity>), Error>)
        requires
            old(txs_verify_cache).wf(),
            scripts@.len() == resolved@.len(),
            resolved@.len() <= u32::MAX,
            forall|i: int| 1 <= i < resolved@.len() ==> (#[trigger] resolved@[i]).wf(),
        ensures
            final(txs_verify_cache).wf(),
            final(txs_verify_cache).limit() == old(txs_verify_cache).limit(),
            self.spec_fault(resolved, block).is_some() ==> r == Err::<(Cycle, Vec<Capacity>), Error>(
                self.spec_fault(resolved, block).unwrap(),
            ) && final(txs_verify_cache).entries() == old(txs_verify_cache).entries(),
            self.spec_fault(resolved, block).is_none() && self.spec_txs_verifier(
                resolved,
                block,
            ).spec_failure(
                old(txs_verify_cache).entries(),
                scripts@,
                resolved@.len() as int,
            ).is_some() ==> forall|key: Seq<u8>|
                #![trigger final(txs_verify_cache).spec_cycles(key)]
                final(txs_verify_cache).spec_cycles(key) == old(txs_verify_cache).spec_cycles(key),
            self.spec_fault(resolved, block).is_none() && self.spec_txs_verifier(
                resolved,
                block,
            ).spec_failure(
                old(txs_verify_cache).entries(),
                scripts@,
                resolved@.len() as int,
            ).is_none() ==> final(txs_verify_cache).entries() == stored_all(
                self.spec_txs_verifier(resolved, block).spec_touched(
                    old(txs_verify_cache).entries(),
                    resolved@.len() as int,
                ),
                old(txs_verify_cache).limit(),
                self.spec_txs_verifier(resolved, block).spec_pairs(
                    old(txs_verify_cache).entries(),
                    scripts@,
                ),
                resolved@.len() - 1,
            ),
            self.spec_fault(resolved, block).is_none() ==> match r {
                Ok((cycles, fees)) => {
                    &&& self.spec_txs_verifier(resolved, block).spec_failure(
                        old(txs_verify_cache).entries(),
                        scripts@,
                        resolved@.len() as int,
                    ).is_none()
                    &&& cycles == self.spec_txs_verifier(resolved, block).spec_cycles(
                        old(txs_verify_cache).entries(),
                        scripts@,
                        resolved@.len() as int,
                    )
                    &&& cycles <= self.context.consensus.max_block_cycles
                    &&& fees@.len() + 1 == resolved@.len()
                    &&& forall|j: int|
                        0 <= j < fees@.len() ==> (DaoCalculator {
                            consensus: self.context.consensus,
                            store: self.context.store,
                        }).spec_transaction_fee(resolved@[j + 1]) == Ok::<Capacity, Error>(
                            #[trigger] fees@[j],
                        )
                },
                Err(e) => match self.spec_txs_verifier(resolved, block).spec_failure(
                    old(txs_verify_cache).entries(),
                    scripts@,
                    resolved@.len() as int,
                ) {
                    Some(f) => e == (Error::BlockTransactions { index: f.0 as u32, error: f.1 }),
                    None => e == Error::Block(BlockErrorKind::TooMuchCycles)
                        && self.spec_txs_verifier(resolved, block).spec_cycles(
                        old(txs_verify_cache).entries(),
                        scripts@,
                        resolved@.len() as int,
                    ) > self.context.consensus.max_block_cycles,
                },
            },
    {
        let parent_hash = block.header.parent_hash;
        let parent = match self.context.store.get_block_header(&parent_hash) {
            Some(p) => p,
            None => {
                return Err(Error::UnknownParent { parent_hash });
            },
        };

        let epoch_ext = if block.is_genesis() {
            self.context.consensus.genesis_epoch_ext()
        } else {
            match prepare_epoch_ext(self.context, &parent) {
                Ok(e) => e,
                Err(e) => {
                    return Err(e);
                },
            }
        };

        let uncle_verifier_context = UncleVerifierContext::new(self.context, &epoch_ext);
        match UnclesVerifier::new(uncle_verifier_context, block).verify() {
            Ok(_) => {},
            Err(e) => {
                return Err(e);
            },
        }
        match CommitVerifier::new(self.context, block).verify() {
            Ok(_) => {},
            Err(e) => {
                return Err(e);
            },
        }
        match DaoHeaderVerifier::new(self.context, resolved, &parent, &block.header).verify() {
            Ok(_) => {},
            Err(e) => {
                return Err(e);
            },
        }
        let txs_fees = match RewardVerifier::new(self.context, resolved, &parent).verify() {
            Ok(fees) => fees,
            Err(e) => {
                return Err(e);
            },
        };
        let verifier = BlockTxsVerifier::new(
            self.context,
            block.header.number,
            block.header.epoch,
            parent_hash,
            resolved,
        );
        assert(verifier == self.spec_txs_verifier(resolved, block));
        match verifier.verify(txs_verify_cache, scripts) {
            Ok(cycles) => Ok((cycles, txs_fees)),
            Err(e) => Err(e),
        }
    }
}

} // verus!
