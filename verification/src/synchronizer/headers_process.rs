//! The handler of headers sent by a peer.

use vstd::prelude::*;
use crate::consensus::Consensus;
use crate::header_verifier::HeaderError;
use crate::header_verifier::HeaderVerifier;
use crate::header_verifier::header_fault;
use crate::peers::PeerIndex;
use crate::primitives::Byte32;
use crate::primitives::position;
use crate::store::ChainStore;
use crate::store::find_header;
use crate::store::header_keys;
use crate::sync_types::HeaderView;
use crate::sync_types::SyncState;
use crate::sync_types::lemma_sync_peer_position;
use crate::sync_types::sync_peer_position;
use crate::types::Header;

verus! {

/// How the handling of headers ends.
#[derive(Clone, Copy, Debug, PartialEq, Eq, Structural)]
pub enum HeadersDecision {
    /// More headers than a reply may carry: the message is malformed.
    TooMany,
    /// No headers: the peer has nothing beyond the locator.
    Empty,
    /// The headers do not follow one another.
    NotContinuous,
    /// The parent of the first header is unknown: headers are to be asked
    /// of the peer again, from the local locator.
    UnknownParent,
    /// The header at `index` is invalid; those before it were accepted.
    Invalid { index: usize, error: HeaderError },
    /// All headers were accepted. `more` tells that the reply was full and
    /// more headers are to be asked for.
    Accepted { more: bool },
}

/// Whether each header follows the one before it.
pub open spec fn continuous(headers: Seq<Header>) -> bool {
    forall|i: int|
        1 <= i < headers.len() ==> (#[trigger] headers[i]).parent_hash@ == headers[i - 1].hash@
            && headers[i].number == headers[i - 1].number + 1
}

/// The total difficulty of the chain that ends in the header with hash
/// `hash`: that recorded with an accepted header, else that of the store.
pub open spec fn known_total(
    header_map: Seq<Header>,
    totals: Seq<u128>,
    store: ChainStore,
    hash: Seq<u8>,
) -> Option<u128> {
    let p = position(header_keys(header_map), hash);
    if 0 <= p < totals.len() {
        Some(totals[p])
    } else {
        store.spec_total_difficulty(hash)
    }
}

/// The sum of a total difficulty and the difficulty of one more header,
/// capped at 128 bits.
pub open spec fn extended(total: u128, difficulty: u64) -> u128 {
    if total + difficulty > u128::MAX {
        u128::MAX
    } else {
        (total + difficulty) as u128
    }
}

/// The first of the first `n` headers that is invalid given the accepted
/// headers `header_map` and those before it in the message, with its
/// fault.
pub open spec fn first_invalid(
    header_map: Seq<Header>,
    store: ChainStore,
    consensus: Consensus,
    now: u64,
    headers: Seq<Header>,
    pow_valid: Seq<bool>,
    n: int,
) -> Option<(int, HeaderError)>
    decreases n,
{
    if n <= 0 {
        None
    } else {
        match first_invalid(header_map, store, consensus, now, headers, pow_valid, n - 1) {
            Some(f) => Some(f),
            None => match header_fault(
                header_map + headers.subrange(0, n - 1),
                store,
                consensus,
                now,
                headers[n - 1],
                pow_valid[n - 1],
            ) {
                Some(e) => Some((n - 1, e)),
                None => None,
            },
        }
    }
}

proof fn lemma_invalid_stays(
    header_map: Seq<Header>,
    store: ChainStore,
    consensus: Consensus,
    now: u64,
    headers: Seq<Header>,
    pow_valid: Seq<bool>,
    i: int,
    n: int,
)
    requires
        0 <= i <= n,
        first_invalid(header_map, store, consensus, now, headers, pow_valid, i).is_some(),
    ensures
        first_invalid(header_map, store, consensus, now, headers, pow_valid, n) == first_invalid(
            header_map,
            store,
            consensus,
            now,
            headers,
            pow_valid,
            i,
        ),
    decreases n - i,
{
    if i < n {
        lemma_invalid_stays(header_map, store, consensus, now, headers, pow_valid, i, n - 1);
    }
}

/// The handling of one batch of headers.
pub struct HeadersProcess<'a> {
    pub message: &'a Vec<Header>,
    pub store: &'a ChainStore,
    pub consensus: &'a Consensus,
    pub peer: PeerIndex,
    /// The local clock, in milliseconds.
    pub now: u64,
}

/// The heavier of the best header known so far and a header that was just
/// accepted; the new header where both weigh the same.
pub open spec fn heavier_of(known: Option<HeaderView>, accepted: HeaderView) -> Option<HeaderView> {
    match known {
        Some(k) => if accepted.total_difficulty >= k.total_difficulty {
            Some(accepted)
        } else {
            Some(k)
        },
        None => Some(accepted),
    }
}

impl<'a> HeadersProcess<'a> {
    /// The handling of `message` from `peer`.
    pub fn new(
        message: &'a Vec<Header>,
        store: &'a ChainStore,
        consensus: &'a Consensus,
        peer: PeerIndex,
        now: u64,
    ) -> (r: Self)
        ensures
            r.message == message,
            r.store == store,
            r.consensus == consensus,
            r.peer == peer,
            r.now == now,
    {
        HeadersProcess { message, store, consensus, peer, now }
    }

    /// How the handling ends, decided in this order: too many headers;
    /// none; headers that do not follow one another; an unknown parent of
    /// the first; the first invalid header; else all are accepted.
    pub open spec fn spec_decision(&self, state: SyncState, pow_valid: Seq<bool>) -> HeadersDecision {
        let headers = self.message@;
        if headers.len() > crate::MAX_HEADERS_LEN {
            HeadersDecision::TooMany
        } else if headers.len() == 0 {
            HeadersDecision::Empty
        } else if !continuous(headers) {
            HeadersDecision::NotContinuous
        } else if known_total(
            state.header_map@,
            state.header_totals@,
            *self.store,
            headers[0].parent_hash@,
        ).is_none() {
            HeadersDecision::UnknownParent
        } else {
            match first_invalid(
                state.header_map@,
                *self.store,
                *self.consensus,
                self.now,
                headers,
                pow_valid,
                headers.len() as int,
            ) {
                Some(f) => HeadersDecision::Invalid { index: f.0 as usize, error: f.1 },
                None => HeadersDecision::Accepted { more: headers.len() == crate::MAX_HEADERS_LEN },
            }
        }
    }

    /// The number of headers that are accepted.
    pub open spec fn spec_accepted(&self, state: SyncState, pow_valid: Seq<bool>) -> int {
        match self.spec_decision(state, pow_valid) {
            HeadersDecision::Invalid { index, error } => index as int,
            HeadersDecision::Accepted { more } => self.message@.len() as int,
            _ => 0,
        }
    }

    fn is_continuous(&self) -> (r: bool)
        ensures
            r == continuous(self.message@),
    {
        let headers = self.message;
        let mut i: usize = 1;
        while i < headers.len()
            invariant
                1 <= i,
                headers == self.message,
                forall|j: int|
                    1 <= j < i && j < headers@.len() ==> (#[trigger] headers@[j]).parent_hash@
                        == headers@[j - 1].hash@ && headers@[j].number == headers@[j - 1].number + 1,
            decreases headers.len() - i,
        {
            let previous = headers[i - 1];
            let current = headers[i];
            if !current.parent_hash.same(&previous.hash) || previous.number == u64::MAX
                || current.number != previous.number + 1 {
                return false;
            }
            i += 1;
        }
        true
    }

    /// Handles the headers. `pow_valid[i]` tells whether the proof of work
    /// of header `i` holds.
    ///
    /// Headers are accepted one after the other until one is invalid; each
    /// accepted header is remembered with the total difficulty of its
    /// chain. Where headers were accepted, the last of them becomes the
    /// best header known of the peer, and of any peer if its chain is the
    /// heaviest. An outbound peer whose chain is at least as heavy as
    /// `tip_total`, the total difficulty of the local tip, is protected
    /// from eviction while fewer than four peers are. The hashes of
    /// headers whose parent is unknown are remembered with the peer.
    pub fn execute(self, state: &mut SyncState, pow_valid: &Vec<bool>, tip_total: u128) -> (r:
        HeadersDecision)
        requires
            old(state).wf(),
            pow_valid@.len() == self.message@.len(),
        ensures
            final(state).wf(),
            r == self.spec_decision(*old(state), pow_valid@),
            final(state).peers@.len() == old(state).peers@.len(),
            final(state).header_map@ == old(state).header_map@ + self.message@.subrange(
                0,
                self.spec_accepted(*old(state), pow_valid@),
            ),
            final(state).header_totals@.subrange(0, old(state).header_totals@.len() as int) == old(state).header_totals@,
            forall|k: int|
                0 <= k < self.spec_accepted(*old(state), pow_valid@) ==> #[trigger] final(state).header_totals@[old(state).header_totals@.len() + k] == extended(
                    if k == 0 {
                        known_total(
                            old(state).header_map@,
                            old(state).header_totals@,
                            *self.store,
                            self.message@[0].parent_hash@,
                        ).unwrap()
                    } else {
                        final(state).header_totals@[old(state).header_totals@.len() + k - 1]
                    },
                    self.message@[k].difficulty,
                ),
            forall|j: int|
                0 <= j < old(state).peers@.len() && j != sync_peer_position(
                    old(state).peers@,
                    self.peer,
                ) ==> final(state).peers@[j] == old(state).peers@[j],
            self.spec_accepted(*old(state), pow_valid@) == 0 && r != HeadersDecision::UnknownParent
                ==> final(state).peers@ == old(state).peers@ && final(state).best_known_header
                == old(state).best_known_header,
            r == HeadersDecision::UnknownParent && sync_peer_position(old(state).peers@, self.peer)
                >= 0 ==> final(state).peers@[sync_peer_position(
                old(state).peers@,
                self.peer,
            )].unknown_header_list@ == header_hashes(self.message@),
            self.spec_accepted(*old(state), pow_valid@) > 0 ==> final(state).best_known_header
                == heavier_of(
                old(state).best_known_header,
                HeaderView {
                    inner: self.message@[self.spec_accepted(*old(state), pow_valid@) - 1],
                    total_difficulty: final(state).header_totals@[old(state).header_totals@.len()
                        + self.spec_accepted(*old(state), pow_valid@) - 1],
                },
            ),
            self.spec_accepted(*old(state), pow_valid@) > 0 && sync_peer_position(
                old(state).peers@,
                self.peer,
            ) >= 0 ==> final(state).peers@[sync_peer_position(
                old(state).peers@,
                self.peer,
            )].best_known_header == Some(
                HeaderView {
                    inner: self.message@[self.spec_accepted(*old(state), pow_valid@) - 1],
                    total_difficulty: final(state).header_totals@[old(state).header_totals@.len()
                        + self.spec_accepted(*old(state), pow_valid@) - 1],
                },
            ),
    {
        let headers = self.message;
        if headers.len() > crate::MAX_HEADERS_LEN {
            proof {
                lemma_nothing_accepted(state.header_map@, state.header_totals@, self.message@);
            }
            return HeadersDecision::TooMany;
        }
        if headers.len() == 0 {
            proof {
                lemma_nothing_accepted(state.header_map@, state.header_totals@, self.message@);
            }
            return HeadersDecision::Empty;
        }
        if !self.is_continuous() {
            proof {
                lemma_nothing_accepted(state.header_map@, state.header_totals@, self.message@);
            }
            return HeadersDecision::NotContinuous;
        }
        let parent_total = match find_header(&state.header_map, &headers[0].parent_hash) {
            Some(p) => Some(state.header_totals[p]),
            None => self.store.get_total_difficulty(&headers[0].parent_hash),
        };
        let ghost map0 = state.header_map@;
        let ghost totals0 = state.header_totals@;
        let mut total = match parent_total {
            Some(t) => t,
            None => {
                proof {
                    lemma_nothing_accepted(state.header_map@, state.header_totals@, self.message@);
                }
                match state.find_peer(self.peer) {
                    Some(p) => {
                        proof {
                            lemma_sync_peer_position(state.peers@, self.peer);
                        }
                        state.peers[p].unknown_header_list = collect_hashes(headers);
                    },
                    None => {},
                }
                return HeadersDecision::UnknownParent;
            },
        };
        let mut accepted: usize = 0;
        let mut fault: Option<HeaderError> = None;
        assert(map0 + headers@.subrange(0, 0) =~= map0);
        assert(state.header_totals@.subrange(0, totals0.len() as int) =~= totals0);
        while fault.is_none() && accepted < headers.len()
            invariant
                0 <= accepted <= headers.len(),
                headers == self.message,
                pow_valid@.len() == headers@.len(),
                map0 == old(state).header_map@,
                totals0 == old(state).header_totals@,
                map0.len() == totals0.len(),
                state.peers == old(state).peers,
                state.best_known_header == old(state).best_known_header,
                state.header_map@ == map0 + headers@.subrange(0, accepted as int),
                state.header_totals@.len() == state.header_map@.len(),
                state.header_totals@.subrange(0, totals0.len() as int) == totals0,
                parent_total == known_total(map0, totals0, *self.store, headers@[0].parent_hash@),
                parent_total.is_some(),
                accepted == 0 ==> total == parent_total.unwrap(),
                accepted > 0 ==> total == state.header_totals@[totals0.len() + accepted - 1],
                forall|k: int|
                    0 <= k < accepted ==> #[trigger] state.header_totals@[totals0.len() + k]
                        == extended(
                        if k == 0 {
                            parent_total.unwrap()
                        } else {
                            state.header_totals@[totals0.len() + k - 1]
                        },
                        headers@[k].difficulty,
                    ),
                fault.is_none() ==> first_invalid(
                    map0,
                    *self.store,
                    *self.consensus,
                    self.now,
                    headers@,
                    pow_valid@,
                    accepted as int,
                ).is_none(),
                fault.is_some() ==> first_invalid(
                    map0,
                    *self.store,
                    *self.consensus,
                    self.now,
                    headers@,
                    pow_valid@,
                    headers@.len() as int,
                ) == Some((accepted as int, fault.unwrap())),
            decreases
                    (if fault.is_some() {
                        0
                    } else {
                        headers.len() - accepted + 1
                    }),
        {
            let header = headers[accepted];
            let verifier = HeaderVerifier::new(
                &state.header_map,
                self.store,
                self.consensus,
                self.now,
            );
            match verifier.verify(&header, pow_valid[accepted]) {
                Err(e) => {
                    proof {
                        lemma_invalid_stays(
                            map0,
                            *self.store,
                            *self.consensus,
                            self.now,
                            headers@,
                            pow_valid@,
                            accepted as int + 1,
                            headers@.len() as int,
                        );
                    }
                    fault = Some(e);
                },
                Ok(_) => {
                    total = if total > u128::MAX - header.difficulty as u128 {
                        u128::MAX
                    } else {
                        total + header.difficulty as u128
                    };
                    let ghost before_totals = state.header_totals@;
                    state.header_map.push(header);
                    state.header_totals.push(total);
                    proof {
                        assert forall|k: int| 0 <= k < accepted + 1 implies #[trigger] state.header_totals@[totals0.len()
                            + k] == extended(
                            if k == 0 {
                                parent_total.unwrap()
                            } else {
                                state.header_totals@[totals0.len() + k - 1]
                            },
                            headers@[k].difficulty,
                        ) by {
                            if k < accepted {
                                assert(state.header_totals@[totals0.len() + k]
                                    == before_totals[totals0.len() + k]);
                                if k > 0 {
                                    assert(state.header_totals@[totals0.len() + k - 1]
                                        == before_totals[totals0.len() + k - 1]);
                                }
                            } else if k > 0 {
                                assert(state.header_totals@[totals0.len() + k - 1]
                                    == before_totals[totals0.len() + k - 1]);
                            }
                        }
                        assert(state.header_map@ =~= map0 + headers@.subrange(
                            0,
                            accepted as int + 1,
                        ));
                        assert(state.header_totals@.subrange(0, totals0.len() as int)
                            =~= before_totals.subrange(0, totals0.len() as int));
                    }
                    accepted += 1;
                },
            }
        }
        if accepted > 0 {
            let best = HeaderView { inner: headers[accepted - 1], total_difficulty: total };
            let heavier = match state.best_known_header {
                Some(known) => total >= known.total_difficulty,
                None => true,
            };
            if heavier {
                state.best_known_header = Some(best);
            }
            let protected = state.protected_outbound_peers();
            match state.find_peer(self.peer) {
                Some(p) => {
                    proof {
                        lemma_sync_peer_position(state.peers@, self.peer);
                    }
                    state.peers[p].best_known_header = Some(best);
                    let flags = state.peers[p].peer_flags;
                    if flags.is_outbound && !flags.is_protect && total >= tip_total && protected
                        < crate::MAX_OUTBOUND_PEERS_TO_PROTECT_FROM_DISCONNECT {
                        state.peers[p].peer_flags.is_protect = true;
                    }
                },
                None => {},
            }
        }
        match fault {
            Some(error) => HeadersDecision::Invalid { index: accepted, error },
            None => HeadersDecision::Accepted { more: headers.len() == crate::MAX_HEADERS_LEN },
        }
    }
}

/// Where no header of a message is accepted, the headers remembered and
/// their total difficulties are what they were.
proof fn lemma_nothing_accepted(map: Seq<Header>, totals: Seq<u128>, message: Seq<Header>)
    ensures
        map + message.subrange(0, 0) == map,
        totals.subrange(0, totals.len() as int) == totals,
{
    assert(message.subrange(0, 0) =~= Seq::<Header>::empty());
    assert(map + Seq::<Header>::empty() =~= map);
    assert(totals.subrange(0, totals.len() as int) =~= totals);
}

/// The hashes of a list of headers.
pub open spec fn header_hashes(headers: Seq<Header>) -> Seq<Byte32> {
    Seq::new(headers.len(), |i: int| headers[i].hash)
}

/// The hashes of a list of headers.
pub fn collect_hashes(headers: &Vec<Header>) -> (r: Vec<Byte32>)
    ensures
        r@ == header_hashes(headers@),
{
    let mut out: Vec<Byte32> = Vec::new();
    let mut i: usize = 0;
    while i < headers.len()
        invariant
            0 <= i <= headers.len(),
            out@.len() == i,
            forall|j: int| 0 <= j < i ==> (#[trigger] out@[j]) == headers@[j].hash,
        decreases headers.len() - i,
    {
        out.push(headers[i].hash);
        i += 1;
    }
    assert(out@ =~= header_hashes(headers@));
    out
}

} // verus!
