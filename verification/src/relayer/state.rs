//! What the relay remembers between messages, and the transaction pool as
//! the relay reads it.

use vstd::prelude::*;
use crate::peers::PeerIndex;
use crate::peers::distinct_peers;
use crate::primitives::Byte32;
use crate::primitives::ProposalShortId;
use crate::primitives::find_hash;
use crate::primitives::hash_keys;
use crate::primitives::lemma_position;
use crate::primitives::lemma_position_is;
use crate::primitives::lemma_position_none;
use crate::primitives::position;
use crate::relayer::pending::PendingCompactBlocks;
use crate::types::Transaction;

verus! {

/// The short identifiers of a list of transactions.
pub open spec fn tx_keys(txs: Seq<Transaction>) -> Seq<Seq<u8>> {
    Seq::new(txs.len(), |i: int| txs[i].spec_short_id())
}

/// The first transaction among `txs` with the short identifier `id`.
pub fn find_tx(txs: &[Transaction], id: &ProposalShortId) -> (r: Option<usize>)
    ensures
        r.is_none() <==> position(tx_keys(txs@), id@) == -1,
        r.is_some() ==> r.unwrap() as int == position(tx_keys(txs@), id@) && r.unwrap()
            < txs@.len(),
{
    let mut i: usize = 0;
    while i < txs.len()
        invariant
            0 <= i <= txs.len(),
            forall|j: int| 0 <= j < i ==> tx_keys(txs@)[j] != id@,
        decreases txs.len() - i,
    {
        let short_id = txs[i].proposal_short_id();
        if short_id.same(id) {
            proof {
                lemma_position_is(tx_keys(txs@), id@, i as int);
            }
            return Some(i);
        }
        i += 1;
    }
    proof {
        lemma_position_none(tx_keys(txs@), id@);
    }
    None
}

/// The transactions that wait in the pool.
#[derive(Debug)]
pub struct TxPool {
    pub txs: Vec<Transaction>,
}

impl TxPool {
    /// A pool with no transaction.
    pub fn new() -> (r: Self)
        ensures
            r.txs@.len() == 0,
    {
        TxPool { txs: Vec::new() }
    }

    /// The transaction with the short identifier `id`: the first that the
    /// pool holds.
    pub open spec fn spec_get_tx(&self, id: Seq<u8>) -> Option<Transaction> {
        let p = position(tx_keys(self.txs@), id);
        if p >= 0 {
            Some(self.txs@[p])
        } else {
            None
        }
    }

    /// The transaction with this short id, if the pool holds it.
    pub fn get_tx(&self, id: &ProposalShortId) -> (r: Option<&Transaction>)
        ensures
            r.is_some() == self.spec_get_tx(id@).is_some(),
            r.is_some() ==> *r.unwrap() == self.spec_get_tx(id@).unwrap(),
    {
        match find_tx(self.txs.as_slice(), id) {
            Some(i) => Some(&self.txs[i]),
            None => None,
        }
    }
}

/// The peers that wait for the transaction of a proposal.
#[derive(Clone, Debug, PartialEq, Eq)]
pub struct ProposalRequest {
    pub short_id: ProposalShortId,
    pub peers: Vec<PeerIndex>,
}

/// When the transaction with hash `tx_hash` may be asked for next.
#[derive(Clone, Copy, Debug, PartialEq, Eq)]
pub struct AskedTx {
    pub tx_hash: Byte32,
    pub next_ask: u64,
}

/// The most transactions that one peer is asked for at a time.
pub const MAX_ASK_SET_SIZE: usize = 100_000;

/// What the relay knows of a peer.
#[derive(Clone, Debug, PartialEq, Eq)]
pub struct PeerRelayState {
    pub peer: PeerIndex,
    /// The transactions to ask this peer for, each with the time from
    /// which it may be asked.
    pub tx_ask_for: Vec<AskedTx>,
}

/// The hashes of a list of asked transactions.
pub open spec fn asked_keys(asked: Seq<AskedTx>) -> Seq<Seq<u8>> {
    Seq::new(asked.len(), |i: int| asked[i].tx_hash@)
}

/// The first entry for the transaction with hash `key`.
pub fn find_asked(asked: &Vec<AskedTx>, key: &Byte32) -> (r: Option<usize>)
    ensures
        r.is_none() <==> position(asked_keys(asked@), key@) == -1,
        r.is_some() ==> r.unwrap() as int == position(asked_keys(asked@), key@) && r.unwrap()
            < asked@.len(),
{
    let mut i: usize = 0;
    while i < asked.len()
        invariant
            0 <= i <= asked.len(),
            forall|j: int| 0 <= j < i ==> asked_keys(asked@)[j] != key@,
        decreases asked.len() - i,
    {
        if asked[i].tx_hash.same(key) {
            proof {
                lemma_position_is(asked_keys(asked@), key@, i as int);
            }
            return Some(i);
        }
        i += 1;
    }
    proof {
        lemma_position_none(asked_keys(asked@), key@);
    }
    None
}

/// The time from which a transaction may be asked for: now, or thirty
/// seconds after the time another peer was given where that is later.
pub open spec fn next_ask_time(last_ask_timeout: Option<u64>, now: u64) -> int {
    match last_ask_timeout {
        Some(time) => if time + crate::RETRY_ASK_TX_TIMEOUT_INCREASE > now {
            time + crate::RETRY_ASK_TX_TIMEOUT_INCREASE
        } else {
            now as int
        },
        None => now as int,
    }
}

impl PeerRelayState {
    /// The state of a peer that has asked for nothing yet.
    pub fn new(peer: PeerIndex) -> (r: Self)
        ensures
            r.peer == peer,
            r.tx_ask_for@.len() == 0,
    {
        PeerRelayState { peer, tx_ask_for: Vec::new() }
    }

    /// Whether this peer is to be asked for the transaction with hash
    /// `hash` already.
    pub open spec fn spec_asked(&self, hash: Seq<u8>) -> bool {
        position(asked_keys(self.tx_ask_for@), hash) >= 0
    }

    /// Registers that this peer is to be asked for a transaction, and
    /// returns the time from which to ask.
    ///
    /// Nothing is registered, and `None` returned, where the peer's list
    /// is full, the transaction is on it already, or the time does not fit
    /// in 64 bits.
    pub fn add_ask_for_tx(&mut self, tx_hash: Byte32, last_ask_timeout: Option<u64>, now: u64) -> (r:
        Option<u64>)
        ensures
            final(self).peer == old(self).peer,
            old(self).tx_ask_for@.len() > MAX_ASK_SET_SIZE || old(self).spec_asked(tx_hash@)
                || next_ask_time(last_ask_timeout, now) > u64::MAX ==> r.is_none() && *final(self)
                == *old(self),
            !(old(self).tx_ask_for@.len() > MAX_ASK_SET_SIZE || old(self).spec_asked(tx_hash@)
                || next_ask_time(last_ask_timeout, now) > u64::MAX) ==> r == Some(
                next_ask_time(last_ask_timeout, now) as u64,
            ) && final(self).tx_ask_for@ == old(self).tx_ask_for@.push(
                AskedTx { tx_hash, next_ask: next_ask_time(last_ask_timeout, now) as u64 },
            ),
    {
        if self.tx_ask_for.len() > MAX_ASK_SET_SIZE {
            return None;
        }
        if find_asked(&self.tx_ask_for, &tx_hash).is_some() {
            return None;
        }
        let next_ask: u64 = match last_ask_timeout {
            Some(time) => {
                if time > u64::MAX - crate::RETRY_ASK_TX_TIMEOUT_INCREASE {
                    return None;
                }
                let retry = time + crate::RETRY_ASK_TX_TIMEOUT_INCREASE;
                if retry > now {
                    retry
                } else {
                    now
                }
            },
            None => now,
        };
        self.tx_ask_for.push(AskedTx { tx_hash, next_ask });
        Some(next_ask)
    }
}

/// What the relay remembers between messages.
pub struct RelayState {
    /// The hashes of the compact blocks seen.
    pub known_compact_blocks: Vec<Byte32>,
    /// The hashes of the transactions seen.
    pub known_txs: Vec<Byte32>,
    /// The compact blocks that wait for transactions.
    pub pending_compact_blocks: PendingCompactBlocks,
    /// The proposals asked for and not answered yet.
    pub inflight_proposals: Vec<ProposalShortId>,
    /// The peers that asked for a proposal that the pool did not hold.
    pub pending_proposal_requests: Vec<ProposalRequest>,
    /// The transactions asked for, each with the time of its next
    /// request.
    pub tx_already_asked: Vec<AskedTx>,
    /// What is known of each peer.
    pub peers: Vec<PeerRelayState>,
}

/// The short identifiers for which peers wait.
pub open spec fn request_keys(requests: Seq<ProposalRequest>) -> Seq<Seq<u8>> {
    Seq::new(requests.len(), |i: int| requests[i].short_id@)
}

impl RelayState {
    /// The pool of pending blocks is in order, and no peer waits twice for
    /// one proposal.
    pub open spec fn wf(&self) -> bool {
        &&& self.pending_compact_blocks.wf()
        &&& forall|i: int|
            0 <= i < self.pending_proposal_requests@.len() ==> distinct_peers(
                (#[trigger] self.pending_proposal_requests@[i]).peers@,
            )
    }

    /// A relay that remembers nothing, with a pool for `capacity` pending
    /// blocks.
    pub fn new(capacity: usize) -> (r: Self)
        ensures
            r.wf(),
            r.known_compact_blocks@.len() == 0,
            r.known_txs@.len() == 0,
            r.pending_compact_blocks.entries@.len() == 0,
            r.pending_compact_blocks.limit() == capacity as nat,
            r.inflight_proposals@.len() == 0,
            r.pending_proposal_requests@.len() == 0,
            r.tx_already_asked@.len() == 0,
            r.peers@.len() == 0,
    {
        RelayState {
            known_compact_blocks: Vec::new(),
            known_txs: Vec::new(),
            pending_compact_blocks: PendingCompactBlocks::new(capacity),
            inflight_proposals: Vec::new(),
            pending_proposal_requests: Vec::new(),
            tx_already_asked: Vec::new(),
            peers: Vec::new(),
        }
    }

    /// Whether the transaction with hash `hash` was seen.
    pub open spec fn spec_known_tx(&self, hash: Seq<u8>) -> bool {
        position(hash_keys(self.known_txs@), hash) >= 0
    }

    /// Whether a transaction with this hash was seen before.
    pub fn already_known_tx(&self, hash: &Byte32) -> (r: bool)
        ensures
            r == self.spec_known_tx(hash@),
    {
        find_hash(&self.known_txs, hash).is_some()
    }

    /// Whether the compact block with hash `hash` was seen.
    pub open spec fn spec_known_compact_block(&self, hash: Seq<u8>) -> bool {
        position(hash_keys(self.known_compact_blocks@), hash) >= 0
    }

    /// Whether a compact block with this hash waits for transactions.
    pub fn already_known_compact_block(&self, hash: &Byte32) -> (r: bool)
        ensures
            r == self.spec_known_compact_block(hash@),
    {
        find_hash(&self.known_compact_blocks, hash).is_some()
    }
}

/// Adds `hash` to a set of hashes.
pub fn mark_known(known: &mut Vec<Byte32>, hash: Byte32)
    ensures
        position(hash_keys(old(known)@), hash@) >= 0 ==> final(known)@ == old(known)@,
        position(hash_keys(old(known)@), hash@) < 0 ==> final(known)@ == old(known)@.push(hash),
        forall|other: Seq<u8>|
            #![trigger position(hash_keys(final(known)@), other)]
            position(hash_keys(final(known)@), other) >= 0 <==> position(
                hash_keys(old(known)@),
                other,
            ) >= 0 || other == hash@,
{
    let ghost before = known@;
    if find_hash(known, &hash).is_some() {
        proof {
            lemma_position(hash_keys(before), hash@);
        }
        return ;
    }
    known.push(hash);
    proof {
        let after = known@;
        assert forall|other: Seq<u8>|
            #![trigger position(hash_keys(after), other)]
            position(hash_keys(after), other) >= 0 <==> position(hash_keys(before), other) >= 0
                || other == hash@ by {
            lemma_position(hash_keys(after), other);
            lemma_position(hash_keys(before), other);
            let pa = position(hash_keys(after), other);
            let pb = position(hash_keys(before), other);
            if pb >= 0 {
                assert(hash_keys(after)[pb] == other);
            }
            if other == hash@ {
                assert(hash_keys(after)[before.len() as int] == other);
            }
            if pa >= 0 && pa < before.len() {
                assert(hash_keys(before)[pa] == other);
            }
        }
    }
}

} // verus!
