//! The handler of a request for proposed transactions.

use vstd::prelude::*;
use crate::peers::PeerIndex;
use crate::peers::distinct_peers;
use crate::peers::insert_peer;
use crate::primitives::ProposalShortId;
use crate::primitives::lemma_position_is;
use crate::primitives::lemma_position_none;
use crate::primitives::position;
use crate::relayer::state::ProposalRequest;
use crate::relayer::state::RelayState;
use crate::relayer::state::TxPool;
use crate::relayer::state::request_keys;
use crate::types::Transaction;

verus! {

/// Whether `peer` waits for the proposal `id`.
pub open spec fn waits_for(requests: Seq<ProposalRequest>, id: Seq<u8>, peer: PeerIndex) -> bool {
    exists|i: int|
        0 <= i < requests.len() && (#[trigger] requests[i]).short_id@ == id
            && requests[i].peers@.contains(peer)
}

/// No peer waits twice for one proposal.
pub open spec fn requests_wf(requests: Seq<ProposalRequest>) -> bool {
    forall|i: int| 0 <= i < requests.len() ==> distinct_peers((#[trigger] requests[i]).peers@)
}

/// Records that `peer` waits for the proposal `id`.
pub fn record_request(requests: &mut Vec<ProposalRequest>, id: ProposalShortId, peer: PeerIndex)
    requires
        requests_wf(old(requests)@),
    ensures
        requests_wf(final(requests)@),
        forall|other: Seq<u8>, p: PeerIndex|
            #![trigger waits_for(final(requests)@, other, p)]
            waits_for(final(requests)@, other, p) <==> waits_for(old(requests)@, other, p) || (other
                == id@ && p == peer),
{
    let ghost before = requests@;
    let mut i: usize = 0;
    while i < requests.len()
        invariant
            0 <= i <= requests.len(),
            before == old(requests)@,
            requests@ == before,
            requests_wf(before),
            forall|j: int| 0 <= j < i ==> (#[trigger] requests@[j]).short_id@ != id@,
        decreases requests.len() - i,
    {
        if requests[i].short_id.same(&id) {
            assert(distinct_peers(before[i as int].peers@));
            let mut entry = requests.remove(i);
            insert_peer(&mut entry.peers, peer);
            let ghost new_entry = entry;
            requests.push(entry);
            proof {
                let after = requests@;
                let n = before.len() as int;
                assert forall|j: int| 0 <= j < n implies #[trigger] after[j] == (if j < i {
                    before[j]
                } else if j < n - 1 {
                    before[j + 1]
                } else {
                    new_entry
                }) by {}
                assert forall|j: int| 0 <= j < after.len() implies distinct_peers(
                    (#[trigger] after[j]).peers@,
                ) by {
                    if j < i {
                        assert(distinct_peers(before[j].peers@));
                    } else if j < n - 1 {
                        assert(distinct_peers(before[j + 1].peers@));
                    }
                }
                assert forall|other: Seq<u8>, p: PeerIndex|
                    #![trigger waits_for(after, other, p)]
                    waits_for(after, other, p) <==> waits_for(before, other, p) || (other == id@
                        && p == peer) by {
                    if waits_for(before, other, p) {
                        let k = choose|k: int|
                            0 <= k < before.len() && (#[trigger] before[k]).short_id@ == other
                                && before[k].peers@.contains(p);
                        if k < i {
                            assert(after[k] == before[k]);
                        } else if k == i {
                            assert(after[n - 1].short_id@ == other && after[n - 1].peers@.contains(
                                p,
                            ));
                        } else {
                            assert(after[k - 1] == before[k]);
                        }
                    }
                    if other == id@ && p == peer {
                        assert(after[n - 1].short_id@ == other && after[n - 1].peers@.contains(p));
                    }
                    if waits_for(after, other, p) {
                        let k = choose|k: int|
                            0 <= k < after.len() && (#[trigger] after[k]).short_id@ == other
                                && after[k].peers@.contains(p);
                        if k < i {
                            assert(before[k] == after[k]);
                        } else if k < n - 1 {
                            assert(before[k + 1] == after[k]);
                        } else {
                            if p != peer {
                                assert(before[i as int].short_id@ == other && before[i as int].peers@.contains(
                                    p,
                                ));
                            }
                        }
                    }
                }
            }
            return ;
        }
        i += 1;
    }
    let mut peers: Vec<PeerIndex> = Vec::new();
    peers.push(peer);
    let entry = ProposalRequest { short_id: id, peers };
    let ghost new_entry = entry;
    requests.push(entry);
    proof {
        let after = requests@;
        let n = before.len() as int;
        assert(new_entry.peers@[0] == peer);
        assert forall|j: int| 0 <= j < after.len() implies distinct_peers(
            (#[trigger] after[j]).peers@,
        ) by {
            if j < n {
                assert(after[j] == before[j]);
                assert(distinct_peers(before[j].peers@));
            }
        }
        assert forall|other: Seq<u8>, p: PeerIndex|
            #![trigger waits_for(after, other, p)]
            waits_for(after, other, p) <==> waits_for(before, other, p) || (other == id@ && p
                == peer) by {
            if waits_for(before, other, p) {
                let k = choose|k: int|
                    0 <= k < before.len() && (#[trigger] before[k]).short_id@ == other
                        && before[k].peers@.contains(p);
                assert(after[k] == before[k]);
            }
            if other == id@ && p == peer {
                assert(after[n].short_id@ == other && after[n].peers@.contains(p));
            }
            if waits_for(after, other, p) {
                let k = choose|k: int|
                    0 <= k < after.len() && (#[trigger] after[k]).short_id@ == other
                        && after[k].peers@.contains(p);
                if k < n {
                    assert(before[k] == after[k]);
                } else {
                    assert(new_entry.peers@.contains(p));
                    let w = choose|w: int| 0 <= w < new_entry.peers@.len() && new_entry.peers@[w] == p;
                    assert(w == 0);
                }
            }
        }
    }
}

/// Takes the peers that wait for the proposal `id` off the list and
/// returns them: the transaction has arrived and is owed to them.
pub fn take_waiting_peers(requests: &mut Vec<ProposalRequest>, id: &ProposalShortId) -> (r: Vec<
    PeerIndex,
>)
    requires
        requests_wf(old(requests)@),
    ensures
        requests_wf(final(requests)@),
        position(request_keys(old(requests)@), id@) < 0 ==> r@.len() == 0 && final(requests)@
            == old(requests)@,
        position(request_keys(old(requests)@), id@) >= 0 ==> r@ == old(requests)@[position(
            request_keys(old(requests)@),
            id@,
        )].peers@ && final(requests)@ == old(requests)@.remove(
            position(request_keys(old(requests)@), id@),
        ),
{
    let mut i: usize = 0;
    while i < requests.len()
        invariant
            0 <= i <= requests.len(),
            requests@ == old(requests)@,
            requests_wf(requests@),
            forall|j: int| 0 <= j < i ==> request_keys(requests@)[j] != id@,
        decreases requests.len() - i,
    {
        if requests[i].short_id.same(id) {
            proof {
                lemma_position_is(request_keys(requests@), id@, i as int);
            }
            let ghost before = requests@;
            let entry = requests.remove(i);
            proof {
                assert forall|j: int| 0 <= j < requests@.len() implies distinct_peers(
                    (#[trigger] requests@[j]).peers@,
                ) by {
                    if j < i {
                        assert(requests@[j] == before[j]);
                    } else {
                        assert(requests@[j] == before[j + 1]);
                    }
                    assert(distinct_peers(before[j].peers@));
                    assert(distinct_peers(before[j + 1].peers@));
                }
            }
            return entry.peers;
        }
        i += 1;
    }
    proof {
        lemma_position_none(request_keys(requests@), id@);
    }
    Vec::new()
}

/// The proposals asked for in a message.
#[derive(Clone, Debug, PartialEq, Eq)]
pub struct GetBlockProposal {
    pub proposals: Vec<ProposalShortId>,
}

/// The transactions that the pool holds for the first `n` proposals, in
/// the order of the proposals.
pub open spec fn found_txs(pool: TxPool, ids: Seq<ProposalShortId>, n: int) -> Seq<Transaction>
    decreases n,
{
    if n <= 0 {
        Seq::<Transaction>::empty()
    } else {
        match pool.spec_get_tx(ids[n - 1]@) {
            Some(tx) => found_txs(pool, ids, n - 1).push(tx),
            None => found_txs(pool, ids, n - 1),
        }
    }
}

/// Whether the pool lacks one of the first `n` proposals, and that one is
/// `id`.
pub open spec fn missing_among(pool: TxPool, ids: Seq<ProposalShortId>, n: int, id: Seq<u8>) -> bool {
    exists|i: int|
        0 <= i < n && i < ids.len() && (#[trigger] ids[i])@ == id && pool.spec_get_tx(id).is_none()
}

/// The handling of one request for proposed transactions.
pub struct GetBlockProposalProcess<'a> {
    pub message: &'a GetBlockProposal,
    pub tx_pool: &'a TxPool,
    pub peer: PeerIndex,
}

impl<'a> GetBlockProposalProcess<'a> {
    /// The handling of `message` from `peer`.
    pub fn new(message: &'a GetBlockProposal, tx_pool: &'a TxPool, peer: PeerIndex) -> (r: Self)
        ensures
            r.message == message,
            r.tx_pool == tx_pool,
            r.peer == peer,
    {
        GetBlockProposalProcess { message, tx_pool, peer }
    }

    /// Handles the request and returns the transactions to send back:
    /// those that the pool holds, in the order asked. For each proposal
    /// that the pool lacks, the peer is recorded as waiting for it.
    pub fn execute(self, state: &mut RelayState) -> (r: Vec<&'a Transaction>)
        requires
            old(state).wf(),
        ensures
            final(state).wf(),
            r@.len() == found_txs(
                *self.tx_pool,
                self.message.proposals@,
                self.message.proposals@.len() as int,
            ).len(),
            forall|j: int|
                0 <= j < r@.len() ==> *(#[trigger] r@[j]) == found_txs(
                    *self.tx_pool,
                    self.message.proposals@,
                    self.message.proposals@.len() as int,
                )[j],
            forall|id: Seq<u8>, p: PeerIndex|
                #![trigger waits_for(final(state).pending_proposal_requests@, id, p)]
                waits_for(final(state).pending_proposal_requests@, id, p) <==> waits_for(
                    old(state).pending_proposal_requests@,
                    id,
                    p,
                ) || (p == self.peer && missing_among(
                    *self.tx_pool,
                    self.message.proposals@,
                    self.message.proposals@.len() as int,
                    id,
                )),
            final(state).known_compact_blocks == old(state).known_compact_blocks,
            final(state).known_txs == old(state).known_txs,
            final(state).pending_compact_blocks == old(state).pending_compact_blocks,
            final(state).inflight_proposals == old(state).inflight_proposals,
            final(state).tx_already_asked == old(state).tx_already_asked,
            final(state).peers == old(state).peers,
    {
        let ids = &self.message.proposals;
        let pool = self.tx_pool;
        let ghost requests0 = state.pending_proposal_requests@;
        let mut transactions: Vec<&'a Transaction> = Vec::new();
        let mut i: usize = 0;
        while i < ids.len()
            invariant
                0 <= i <= ids.len(),
                ids == &self.message.proposals,
                pool == self.tx_pool,
                requests0 == old(state).pending_proposal_requests@,
                state.pending_compact_blocks.wf(),
                requests_wf(state.pending_proposal_requests@),
                transactions@.len() == found_txs(*pool, ids@, i as int).len(),
                forall|j: int|
                    0 <= j < transactions@.len() ==> *(#[trigger] transactions@[j]) == found_txs(
                        *pool,
                        ids@,
                        i as int,
                    )[j],
                forall|id: Seq<u8>, p: PeerIndex|
                    #![trigger waits_for(state.pending_proposal_requests@, id, p)]
                    waits_for(state.pending_proposal_requests@, id, p) <==> waits_for(
                        requests0,
                        id,
                        p,
                    ) || (p == self.peer && missing_among(*pool, ids@, i as int, id)),
                state.known_compact_blocks == old(state).known_compact_blocks,
                state.known_txs == old(state).known_txs,
                state.pending_compact_blocks == old(state).pending_compact_blocks,
                state.inflight_proposals == old(state).inflight_proposals,
                state.tx_already_asked == old(state).tx_already_asked,
                state.peers == old(state).peers,
            decreases ids.len() - i,
        {
            match pool.get_tx(&ids[i]) {
                Some(tx) => {
                    transactions.push(tx);
                    proof {
                        assert forall|id: Seq<u8>|
                            missing_among(*pool, ids@, i as int + 1, id) == missing_among(
                                *pool,
                                ids@,
                                i as int,
                                id,
                            ) by {
                            if missing_among(*pool, ids@, i as int + 1, id) {
                                let w = choose|w: int|
                                    0 <= w < i + 1 && w < ids@.len() && (#[trigger] ids@[w])@ == id
                                        && pool.spec_get_tx(id).is_none();
                                assert(w < i);
                            }
                            if missing_among(*pool, ids@, i as int, id) {
                                let w = choose|w: int|
                                    0 <= w < i && w < ids@.len() && (#[trigger] ids@[w])@ == id
                                        && pool.spec_get_tx(id).is_none();
                                assert(0 <= w < i + 1 && ids@[w]@ == id);
                            }
                        }
                    }
                },
                None => {
                    record_request(&mut state.pending_proposal_requests, ids[i], self.peer);
                    proof {
                        let here = ids@[i as int]@;
                        assert forall|id: Seq<u8>|
                            missing_among(*pool, ids@, i as int + 1, id) == (missing_among(
                                *pool,
                                ids@,
                                i as int,
                                id,
                            ) || id == here) by {
                            if missing_among(*pool, ids@, i as int + 1, id) {
                                let w = choose|w: int|
                                    0 <= w < i + 1 && w < ids@.len() && (#[trigger] ids@[w])@ == id
                                        && pool.spec_get_tx(id).is_none();
                                if w < i {
                                    assert(missing_among(*pool, ids@, i as int, id));
                                }
                            }
                            if missing_among(*pool, ids@, i as int, id) {
                                let w = choose|w: int|
                                    0 <= w < i && w < ids@.len() && (#[trigger] ids@[w])@ == id
                                        && pool.spec_get_tx(id).is_none();
                                assert(0 <= w < i + 1 && ids@[w]@ == id);
                            }
                            if id == here {
                                assert(0 <= i < i + 1 && ids@[i as int]@ == id);
                            }
                        }
                    }
                },
            }
            i += 1;
        }
        transactions
    }
}

} // verus!
