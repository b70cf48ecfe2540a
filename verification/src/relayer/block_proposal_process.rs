//! The handler of a message that carries proposed transactions.

use vstd::prelude::*;
use crate::primitives::Byte32;
use crate::primitives::ProposalShortId;
use crate::primitives::find_short_id;
use crate::primitives::hash_keys;
use crate::primitives::position;
use crate::primitives::short_id_keys;
use crate::relayer::compact_block::BlockProposal;
use crate::relayer::state::RelayState;
use crate::relayer::state::mark_known;
use crate::status::Status;
use crate::status::StatusCode;
use crate::types::Transaction;

verus! {

/// `ids` without the first occurrence of `id`.
pub open spec fn without_id(ids: Seq<ProposalShortId>, id: Seq<u8>) -> Seq<ProposalShortId> {
    let p = position(short_id_keys(ids), id);
    if p >= 0 {
        ids.remove(p)
    } else {
        ids
    }
}

/// Takes `id` out of `ids`; tells whether it was there.
pub fn remove_short_id(ids: &mut Vec<ProposalShortId>, id: &ProposalShortId) -> (r: bool)
    ensures
        r == (position(short_id_keys(old(ids)@), id@) >= 0),
        final(ids)@ == without_id(old(ids)@, id@),
{
    match find_short_id(ids, id) {
        Some(p) => {
            ids.remove(p);
            true
        },
        None => false,
    }
}

/// Whether the transaction `tx` is new to a relay that knows the hashes
/// `known`.
pub open spec fn is_unknown(known: Seq<Byte32>, tx: Transaction) -> bool {
    position(hash_keys(known), tx.hash@) < 0
}

/// The proposals in flight after the first `n` transactions of a message
/// were handled: each unknown transaction takes its proposal out.
pub open spec fn inflight_after(
    inflight: Seq<ProposalShortId>,
    known: Seq<Byte32>,
    txs: Seq<Transaction>,
    n: int,
) -> Seq<ProposalShortId>
    decreases n,
{
    if n <= 0 {
        inflight
    } else if is_unknown(known, txs[n - 1]) {
        without_id(inflight_after(inflight, known, txs, n - 1), txs[n - 1].spec_short_id())
    } else {
        inflight_after(inflight, known, txs, n - 1)
    }
}

/// Whether transaction `i` of a message was asked for: it is unknown, and
/// its proposal is in flight when its turn comes.
pub open spec fn asked_at(
    inflight: Seq<ProposalShortId>,
    known: Seq<Byte32>,
    txs: Seq<Transaction>,
    i: int,
) -> bool {
    is_unknown(known, txs[i]) && position(
        short_id_keys(inflight_after(inflight, known, txs, i)),
        txs[i].spec_short_id(),
    ) >= 0
}

/// The transactions among the first `n` that were asked for, in order.
pub open spec fn asked_txs(
    inflight: Seq<ProposalShortId>,
    known: Seq<Byte32>,
    txs: Seq<Transaction>,
    n: int,
) -> Seq<Transaction>
    decreases n,
{
    if n <= 0 {
        Seq::<Transaction>::empty()
    } else if asked_at(inflight, known, txs, n - 1) {
        asked_txs(inflight, known, txs, n - 1).push(txs[n - 1])
    } else {
        asked_txs(inflight, known, txs, n - 1)
    }
}

/// The known hashes after those of the first `n` transactions of `asked`
/// were added.
pub open spec fn known_after(known: Seq<Byte32>, asked: Seq<Transaction>, n: int) -> Seq<Byte32>
    decreases n,
{
    if n <= 0 {
        known
    } else {
        let before = known_after(known, asked, n - 1);
        if position(hash_keys(before), asked[n - 1].hash@) >= 0 {
            before
        } else {
            before.push(asked[n - 1].hash)
        }
    }
}

/// The handling of one message that carries proposed transactions.
pub struct BlockProposalProcess<'a> {
    pub message: &'a BlockProposal,
}

impl<'a> BlockProposalProcess<'a> {
    /// The handling of `message`.
    pub fn new(message: &'a BlockProposal) -> (r: Self)
        ensures
            r.message == message,
    {
        BlockProposalProcess { message }
    }

    /// Handles the message and returns the transactions to hand to the
    /// pool.
    ///
    /// A transaction is handed on when its hash is new and its proposal is
    /// in flight. Its proposal then leaves the proposals in flight and its
    /// hash becomes known. The message is ignored where no transaction is
    /// handed on.
    pub fn execute(self, state: &mut RelayState) -> (r: (Status, Vec<&'a Transaction>))
        ensures
            r.1@.len() == asked_txs(
                old(state).inflight_proposals@,
                old(state).known_txs@,
                self.message.transactions@,
                self.message.transactions@.len() as int,
            ).len(),
            forall|j: int|
                0 <= j < r.1@.len() ==> *(#[trigger] r.1@[j]) == asked_txs(
                    old(state).inflight_proposals@,
                    old(state).known_txs@,
                    self.message.transactions@,
                    self.message.transactions@.len() as int,
                )[j],
            r.0.code == (if r.1@.len() == 0 {
                StatusCode::Ignored
            } else {
                StatusCode::OK
            }),
            final(state).inflight_proposals@ == inflight_after(
                old(state).inflight_proposals@,
                old(state).known_txs@,
                self.message.transactions@,
                self.message.transactions@.len() as int,
            ),
            final(state).known_txs@ == known_after(
                old(state).known_txs@,
                asked_txs(
                    old(state).inflight_proposals@,
                    old(state).known_txs@,
                    self.message.transactions@,
                    self.message.transactions@.len() as int,
                ),
                r.1@.len() as int,
            ),
            final(state).known_compact_blocks == old(state).known_compact_blocks,
            final(state).pending_compact_blocks == old(state).pending_compact_blocks,
            final(state).pending_proposal_requests == old(state).pending_proposal_requests,
            final(state).tx_already_asked == old(state).tx_already_asked,
            final(state).peers == old(state).peers,
    {
        let txs = &self.message.transactions;
        let ghost inflight0 = state.inflight_proposals@;
        let ghost known0 = state.known_txs@;
        let mut unknown: Vec<bool> = Vec::new();
        let mut i: usize = 0;
        while i < txs.len()
            invariant
                0 <= i <= txs.len(),
                txs == &self.message.transactions,
                *state == *old(state),
                known0 == old(state).known_txs@,
                inflight0 == old(state).inflight_proposals@,
                unknown@.len() == i,
                forall|j: int| 0 <= j < i ==> #[trigger] unknown@[j] == is_unknown(known0, txs@[j]),
            decreases txs.len() - i,
        {
            unknown.push(!state.already_known_tx(&txs[i].hash));
            i += 1;
        }

        let mut asked: Vec<&'a Transaction> = Vec::new();
        let mut k: usize = 0;
        while k < txs.len()
            invariant
                0 <= k <= txs.len(),
                txs == &self.message.transactions,
                inflight0 == old(state).inflight_proposals@,
                known0 == old(state).known_txs@,
                unknown@.len() == txs@.len(),
                forall|j: int|
                    0 <= j < txs@.len() ==> #[trigger] unknown@[j] == is_unknown(known0, txs@[j]),
                state.inflight_proposals@ == inflight_after(inflight0, known0, txs@, k as int),
                asked@.len() == asked_txs(inflight0, known0, txs@, k as int).len(),
                forall|j: int|
                    0 <= j < asked@.len() ==> *(#[trigger] asked@[j]) == asked_txs(
                        inflight0,
                        known0,
                        txs@,
                        k as int,
                    )[j],
                state.known_txs@ == known_after(
                    known0,
                    asked_txs(inflight0, known0, txs@, k as int),
                    asked@.len() as int,
                ),
                state.known_compact_blocks == old(state).known_compact_blocks,
                state.pending_compact_blocks == old(state).pending_compact_blocks,
                state.pending_proposal_requests == old(state).pending_proposal_requests,
                state.tx_already_asked == old(state).tx_already_asked,
                state.peers == old(state).peers,
            decreases txs.len() - k,
        {
            if unknown[k] {
                let id = txs[k].proposal_short_id();
                let previously_in = remove_short_id(&mut state.inflight_proposals, &id);
                if previously_in {
                    let ghost before = asked_txs(inflight0, known0, txs@, k as int);
                    let ghost after = asked_txs(inflight0, known0, txs@, k as int + 1);
                    proof {
                        assert(after == before.push(txs@[k as int]));
                        lemma_known_after_prefix(known0, before, after, before.len() as int);
                    }
                    mark_known(&mut state.known_txs, txs[k].hash);
                    asked.push(&txs[k]);
                }
            }
            k += 1;
        }
        if asked.len() == 0 {
            (Status::ignored(), asked)
        } else {
            (Status::new(StatusCode::OK), asked)
        }
    }
}

/// The known hashes after `n` additions depend on the first `n`
/// transactions only.
pub proof fn lemma_known_after_prefix(
    known: Seq<Byte32>,
    a: Seq<Transaction>,
    b: Seq<Transaction>,
    n: int,
)
    requires
        0 <= n <= a.len(),
        n <= b.len(),
        forall|j: int| 0 <= j < n ==> a[j] == b[j],
    ensures
        known_after(known, a, n) == known_after(known, b, n),
    decreases n,
{
    if n > 0 {
        lemma_known_after_prefix(known, a, b, n - 1);
    }
}

} // verus!
