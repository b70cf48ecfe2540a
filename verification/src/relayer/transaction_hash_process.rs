//! The handler of the announcement of a transaction by its hash.

use vstd::prelude::*;
use crate::peers::PeerIndex;
use crate::primitives::Byte32;
use crate::primitives::ProposalShortId;
use crate::primitives::position;
use crate::relayer::state::AskedTx;
use crate::relayer::state::MAX_ASK_SET_SIZE;
use crate::relayer::state::PeerRelayState;
use crate::relayer::state::RelayState;
use crate::relayer::state::TxPool;
use crate::relayer::state::asked_keys;
use crate::relayer::state::find_asked;
use crate::relayer::state::mark_known;
use crate::relayer::state::next_ask_time;

verus! {

/// What became of an announcement.
#[derive(Clone, Copy, Debug, PartialEq, Eq, Structural)]
pub enum TransactionHashOutcome {
    /// The hash was known; nothing changed.
    AlreadyKnown,
    /// The pool holds the transaction; the hash is known now.
    InPool,
    /// The transaction is to be asked of the peer from the given time on.
    Asked(u64),
    /// The transaction is not asked of this peer: the peer is unknown, its
    /// list is full, or the transaction is on it already.
    NotAsked,
}

/// The time recorded for the next request of the transaction with hash
/// `hash`.
pub open spec fn last_asked(asked: Seq<AskedTx>, hash: Seq<u8>) -> Option<u64> {
    let p = position(asked_keys(asked), hash);
    if p >= 0 {
        Some(asked[p].next_ask)
    } else {
        None
    }
}

/// `asked` with the time `next_ask` recorded for the transaction with hash
/// `hash`.
pub open spec fn with_asked(asked: Seq<AskedTx>, hash: Byte32, next_ask: u64) -> Seq<AskedTx> {
    let p = position(asked_keys(asked), hash@);
    if p >= 0 {
        asked.update(p, AskedTx { tx_hash: hash, next_ask })
    } else {
        asked.push(AskedTx { tx_hash: hash, next_ask })
    }
}

/// The place of `peer` among the peers known, or -1.
pub open spec fn peer_position(peers: Seq<PeerRelayState>, peer: PeerIndex) -> int
    decreases peers.len(),
{
    if peers.len() == 0 {
        -1
    } else if peers[0].peer == peer {
        0
    } else {
        let rest = peer_position(peers.drop_first(), peer);
        if rest < 0 {
            -1
        } else {
            rest + 1
        }
    }
}

/// The position of a peer is the first index that holds it.
pub proof fn lemma_peer_position(peers: Seq<PeerRelayState>, peer: PeerIndex)
    ensures
        peer_position(peers, peer) == -1 || 0 <= peer_position(peers, peer) < peers.len(),
        peer_position(peers, peer) >= 0 ==> peers[peer_position(peers, peer)].peer == peer
            && forall|j: int| 0 <= j < peer_position(peers, peer) ==> peers[j].peer != peer,
        peer_position(peers, peer) == -1 ==> forall|j: int|
            0 <= j < peers.len() ==> peers[j].peer != peer,
    decreases peers.len(),
{
    if peers.len() > 0 && peers[0].peer != peer {
        lemma_peer_position(peers.drop_first(), peer);
        let rest = peer_position(peers.drop_first(), peer);
        assert forall|j: int| 1 <= j < peers.len() implies peers[j] == peers.drop_first()[j - 1] by {}
        if rest >= 0 {
            assert forall|j: int| 0 <= j < rest + 1 implies peers[j].peer != peer by {
                if j >= 1 {
                    assert(peers.drop_first()[j - 1].peer != peer);
                }
            }
        } else {
            assert forall|j: int| 0 <= j < peers.len() implies peers[j].peer != peer by {
                if j >= 1 {
                    assert(peers.drop_first()[j - 1].peer != peer);
                }
            }
        }
    }
}

/// The place of `peer` among the peers known.
pub fn find_peer(peers: &Vec<PeerRelayState>, peer: PeerIndex) -> (r: Option<usize>)
    ensures
        r.is_none() <==> peer_position(peers@, peer) == -1,
        r.is_some() ==> r.unwrap() as int == peer_position(peers@, peer) && r.unwrap()
            < peers@.len(),
{
    let mut i: usize = 0;
    while i < peers.len()
        invariant
            0 <= i <= peers.len(),
            forall|j: int| 0 <= j < i ==> peers@[j].peer != peer,
        decreases peers.len() - i,
    {
        if peers[i].peer == peer {
            proof {
                lemma_peer_position(peers@, peer);
            }
            return Some(i);
        }
        i += 1;
    }
    proof {
        lemma_peer_position(peers@, peer);
    }
    None
}

/// Records the time `next_ask` for the transaction with hash `hash`.
pub fn set_asked(asked: &mut Vec<AskedTx>, hash: Byte32, next_ask: u64)
    ensures
        final(asked)@ == with_asked(old(asked)@, hash, next_ask),
{
    match find_asked(asked, &hash) {
        Some(p) => {
            asked[p] = AskedTx { tx_hash: hash, next_ask };
        },
        None => {
            asked.push(AskedTx { tx_hash: hash, next_ask });
        },
    }
}

/// The handling of one announcement of a transaction hash.
pub struct TransactionHashProcess<'a> {
    pub message: &'a Byte32,
    pub tx_pool: &'a TxPool,
    pub peer: PeerIndex,
    /// The time of arrival, in milliseconds.
    pub now: u64,
}

impl<'a> TransactionHashProcess<'a> {
    /// The handling of `message` from `peer` at the time `now`.
    pub fn new(message: &'a Byte32, tx_pool: &'a TxPool, peer: PeerIndex, now: u64) -> (r: Self)
        ensures
            r.message == message,
            r.tx_pool == tx_pool,
            r.peer == peer,
            r.now == now,
    {
        TransactionHashProcess { message, tx_pool, peer, now }
    }

    /// Whether the announcing peer can be asked for the transaction.
    pub open spec fn spec_can_ask(&self, state: RelayState) -> bool {
        let p = peer_position(state.peers@, self.peer);
        p >= 0 && state.peers@[p].tx_ask_for@.len() <= MAX_ASK_SET_SIZE
            && !state.peers@[p].spec_asked(self.message@) && next_ask_time(
            last_asked(state.tx_already_asked@, self.message@),
            self.now,
        ) <= u64::MAX
    }

    /// What becomes of the announcement.
    pub open spec fn spec_outcome(&self, state: RelayState) -> TransactionHashOutcome {
        if state.spec_known_tx(self.message@) {
            TransactionHashOutcome::AlreadyKnown
        } else if self.tx_pool.spec_get_tx(self.message@.subrange(0, 10)).is_some() {
            TransactionHashOutcome::InPool
        } else if self.spec_can_ask(state) {
            TransactionHashOutcome::Asked(
                next_ask_time(last_asked(state.tx_already_asked@, self.message@), self.now) as u64,
            )
        } else {
            TransactionHashOutcome::NotAsked
        }
    }

    /// Handles the announcement.
    ///
    /// A known hash changes nothing. A transaction that the pool holds
    /// becomes known. Any other is registered to be asked of the peer: from
    /// now on, or from thirty seconds after the time recorded for its last
    /// request where that is later; the time is recorded as the time of the
    /// last request.
    pub fn execute(self, state: &mut RelayState) -> (r: TransactionHashOutcome)
        ensures
            r == self.spec_outcome(*old(state)),
            final(state).known_compact_blocks == old(state).known_compact_blocks,
            final(state).pending_compact_blocks == old(state).pending_compact_blocks,
            final(state).inflight_proposals == old(state).inflight_proposals,
            final(state).pending_proposal_requests == old(state).pending_proposal_requests,
            match r {
                TransactionHashOutcome::AlreadyKnown => *final(state) == *old(state),
                TransactionHashOutcome::NotAsked => final(state).known_txs == old(state).known_txs
                    && final(state).tx_already_asked == old(state).tx_already_asked && final(state).peers@ == old(state).peers@,
                TransactionHashOutcome::InPool => final(state).known_txs@ == old(state).known_txs@.push(*self.message) && final(state).tx_already_asked == old(state).tx_already_asked && final(state).peers == old(state).peers,
                TransactionHashOutcome::Asked(next) => {
                    let p = peer_position(old(state).peers@, self.peer);
                    &&& final(state).known_txs == old(state).known_txs
                    &&& final(state).tx_already_asked@ == with_asked(
                        old(state).tx_already_asked@,
                        *self.message,
                        next,
                    )
                    &&& final(state).peers@.len() == old(state).peers@.len()
                    &&& forall|j: int|
                        0 <= j < old(state).peers@.len() && j != p ==> final(state).peers@[j] == old(state).peers@[j]
                    &&& final(state).peers@[p].peer == self.peer
                    &&& final(state).peers@[p].tx_ask_for@ == old(state).peers@[p].tx_ask_for@.push(
                        AskedTx { tx_hash: *self.message, next_ask: next },
                    )
                },
            },
    {
        let tx_hash: Byte32 = *self.message;
        let short_id = ProposalShortId::from_tx_hash(&tx_hash);
        if state.already_known_tx(&tx_hash) {
            return TransactionHashOutcome::AlreadyKnown;
        }
        if self.tx_pool.get_tx(&short_id).is_some() {
            mark_known(&mut state.known_txs, tx_hash);
            return TransactionHashOutcome::InPool;
        }
        let last_ask_timeout = match find_asked(&state.tx_already_asked, &tx_hash) {
            Some(i) => Some(state.tx_already_asked[i].next_ask),
            None => None,
        };
        let p = match find_peer(&state.peers, self.peer) {
            Some(p) => p,
            None => {
                return TransactionHashOutcome::NotAsked;
            },
        };
        proof {
            lemma_peer_position(state.peers@, self.peer);
        }
        let ghost before = state.peers@;
        let asked = state.peers[p].add_ask_for_tx(tx_hash, last_ask_timeout, self.now);
        match asked {
            Some(next_ask_timeout) => {
                set_asked(&mut state.tx_already_asked, tx_hash, next_ask_timeout);
                TransactionHashOutcome::Asked(next_ask_timeout)
            },
            None => {
                assert(state.peers@ =~= before);
                TransactionHashOutcome::NotAsked
            },
        }
    }
}

} // verus!
