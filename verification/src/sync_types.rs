//! What the synchronizer knows of its peers, and the rules by which a peer
//! is scored, evicted or banned.

use vstd::prelude::*;
use crate::peers::PeerIndex;
use crate::primitives::Byte32;
use crate::types::Header;

verus! {

/// What kind of peer a peer is.
#[derive(Clone, Copy, Debug, Default, PartialEq, Eq, Structural)]
pub struct PeerFlags {
    pub is_outbound: bool,
    pub is_protect: bool,
    pub is_whitelist: bool,
}

/// The stage of a peer in synchronisation.
#[derive(Clone, Copy, Debug, PartialEq, Eq, Structural)]
pub enum PeerStatus {
    Unknown,
    HandshakeSent,
    Headers,
    Blocks,
    Stalled,
    Banned,
}

/// What moves a peer from one stage to another.
#[derive(Clone, Copy, Debug, PartialEq, Eq, Structural)]
pub enum PeerEvent {
    /// A handshake was sent to the peer.
    Handshake,
    /// The peer sent headers.
    HeadersReceived,
    /// The peer sent a block.
    BlockReceived,
    /// A deadline passed without progress.
    Timeout,
    /// The peer was banned.
    Ban,
}

impl PeerStatus {
    /// The stage after `event`. A banned peer stays banned. A ban bans. A
    /// handshake moves an unknown peer on; headers move any peer that has
    /// shaken hands to the headers stage, a block to the blocks stage; a
    /// timeout stalls a peer that was at either.
    pub open spec fn spec_next(self, event: PeerEvent) -> PeerStatus {
        match (self, event) {
            (PeerStatus::Banned, _) => PeerStatus::Banned,
            (_, PeerEvent::Ban) => PeerStatus::Banned,
            (PeerStatus::Unknown, PeerEvent::Handshake) => PeerStatus::HandshakeSent,
            (PeerStatus::Unknown, _) => PeerStatus::Unknown,
            (_, PeerEvent::Handshake) => self,
            (_, PeerEvent::HeadersReceived) => PeerStatus::Headers,
            (PeerStatus::HandshakeSent, PeerEvent::BlockReceived) => PeerStatus::HandshakeSent,
            (_, PeerEvent::BlockReceived) => PeerStatus::Blocks,
            (PeerStatus::Headers, PeerEvent::Timeout) => PeerStatus::Stalled,
            (PeerStatus::Blocks, PeerEvent::Timeout) => PeerStatus::Stalled,
            (_, PeerEvent::Timeout) => self,
        }
    }

    /// The status after `event`.
    #[verifier::when_used_as_spec(spec_next)]
    pub fn next(self, event: PeerEvent) -> (r: PeerStatus)
        ensures
            r == self.spec_next(event),
    {
        match (self, event) {
            (PeerStatus::Banned, _) => PeerStatus::Banned,
            (_, PeerEvent::Ban) => PeerStatus::Banned,
            (PeerStatus::Unknown, PeerEvent::Handshake) => PeerStatus::HandshakeSent,
            (PeerStatus::Unknown, _) => PeerStatus::Unknown,
            (_, PeerEvent::Handshake) => self,
            (_, PeerEvent::HeadersReceived) => PeerStatus::Headers,
            (PeerStatus::HandshakeSent, PeerEvent::BlockReceived) => PeerStatus::HandshakeSent,
            (_, PeerEvent::BlockReceived) => PeerStatus::Blocks,
            (PeerStatus::Headers, PeerEvent::Timeout) => PeerStatus::Stalled,
            (PeerStatus::Blocks, PeerEvent::Timeout) => PeerStatus::Stalled,
            (_, PeerEvent::Timeout) => self,
        }
    }
}

/// A header with the total difficulty of its chain.
#[derive(Clone, Copy, Debug, PartialEq, Eq)]
pub struct HeaderView {
    pub inner: Header,
    pub total_difficulty: u128,
}

/// The watch kept on an outbound peer whose chain lags behind.
#[derive(Clone, Copy, Debug, PartialEq, Eq)]
pub struct ChainSyncState {
    /// The deadline, in milliseconds; zero where none is set.
    pub timeout: u64,
    /// The tip when the deadline was set.
    pub work_header: Option<Header>,
    /// The total difficulty of that tip.
    pub total_difficulty: Option<u128>,
    /// Whether headers were asked of the peer since the deadline passed.
    pub sent_getheaders: bool,
}

/// The number of strikes at which a peer is banned.
pub const BAN_THRESHOLD: u32 = 3;

/// What the synchronizer knows of a peer.
#[derive(Debug)]
pub struct PeerState {
    pub peer: PeerIndex,
    pub peer_flags: PeerFlags,
    pub status: PeerStatus,
    pub chain_sync: ChainSyncState,
    pub best_known_header: Option<HeaderView>,
    /// The locator of a request that came during initial block download.
    pub unknown_header_list: Vec<Byte32>,
    /// The strikes against the peer.
    pub misbehavior: u32,
}

/// What the synchronizer knows.
#[derive(Debug)]
pub struct SyncState {
    pub peers: Vec<PeerState>,
    /// The headers accepted from peers that the store does not hold yet.
    pub header_map: Vec<Header>,
    /// The total difficulty of each of those headers.
    pub header_totals: Vec<u128>,
    /// The best header known of any peer.
    pub best_known_header: Option<HeaderView>,
}

/// The place of `peer` among the peers known, or -1.
pub open spec fn sync_peer_position(peers: Seq<PeerState>, peer: PeerIndex) -> int
    decreases peers.len(),
{
    if peers.len() == 0 {
        -1
    } else if sync_peer_position(peers.drop_last(), peer) >= 0 {
        sync_peer_position(peers.drop_last(), peer)
    } else if peers.last().peer == peer {
        peers.len() - 1
    } else {
        -1
    }
}

/// The position of a peer is the first index that holds it.
pub proof fn lemma_sync_peer_position(peers: Seq<PeerState>, peer: PeerIndex)
    ensures
        sync_peer_position(peers, peer) == -1 || 0 <= sync_peer_position(peers, peer)
            < peers.len(),
        sync_peer_position(peers, peer) >= 0 ==> peers[sync_peer_position(peers, peer)].peer
            == peer && forall|j: int|
            0 <= j < sync_peer_position(peers, peer) ==> peers[j].peer != peer,
        sync_peer_position(peers, peer) == -1 ==> forall|j: int|
            0 <= j < peers.len() ==> peers[j].peer != peer,
    decreases peers.len(),
{
    if peers.len() > 0 {
        lemma_sync_peer_position(peers.drop_last(), peer);
        assert forall|j: int| 0 <= j < peers.len() - 1 implies peers[j] == peers.drop_last()[j] by {}
    }
}

/// The number of the first `n` peers that are outbound and protected.
pub open spec fn protected_count(peers: Seq<PeerState>, n: int) -> int
    decreases n,
{
    if n <= 0 {
        0
    } else {
        protected_count(peers, n - 1) + (if peers[n - 1].peer_flags.is_outbound
            && peers[n - 1].peer_flags.is_protect {
            1int
        } else {
            0int
        })
    }
}

/// Whether a node whose tip has the timestamp `tip_time` is in initial
/// block download at `now`: the tip is more than 24 hours old.
pub open spec fn spec_is_initial_block_download(tip_time: u64, now: u64) -> bool {
    tip_time < now - crate::MAX_TIP_AGE
}

/// Whether a node whose tip has the time `tip_time` is still in its initial
/// download at `now`.
#[verifier::when_used_as_spec(spec_is_initial_block_download)]
pub fn is_initial_block_download(tip_time: u64, now: u64) -> (r: bool)
    ensures
        r == spec_is_initial_block_download(tip_time, now),
{
    now >= crate::MAX_TIP_AGE && tip_time < now - crate::MAX_TIP_AGE
}

impl SyncState {
    /// Every header accepted has its total difficulty.
    pub open spec fn wf(&self) -> bool {
        self.header_map@.len() == self.header_totals@.len()
    }

    /// A state with no peer and no header.
    pub fn new() -> (r: Self)
        ensures
            r.wf(),
            r.peers@.len() == 0,
            r.header_map@.len() == 0,
            r.best_known_header.is_none(),
    {
        SyncState {
            peers: Vec::new(),
            header_map: Vec::new(),
            header_totals: Vec::new(),
            best_known_header: None,
        }
    }

    /// The number of outbound peers that are protected from eviction.
    pub fn protected_outbound_peers(&self) -> (r: usize)
        ensures
            r == protected_count(self.peers@, self.peers@.len() as int),
    {
        let mut count: usize = 0;
        let mut i: usize = 0;
        while i < self.peers.len()
            invariant
                0 <= i <= self.peers.len(),
                count == protected_count(self.peers@, i as int),
                count <= i,
            decreases self.peers.len() - i,
        {
            if self.peers[i].peer_flags.is_outbound && self.peers[i].peer_flags.is_protect {
                count += 1;
            }
            i += 1;
        }
        count
    }

    /// The place of `peer` among the peers known.
    pub fn find_peer(&self, peer: PeerIndex) -> (r: Option<usize>)
        ensures
            r.is_none() <==> sync_peer_position(self.peers@, peer) == -1,
            r.is_some() ==> r.unwrap() as int == sync_peer_position(self.peers@, peer)
                && r.unwrap() < self.peers@.len(),
    {
        let mut i: usize = 0;
        while i < self.peers.len()
            invariant
                0 <= i <= self.peers.len(),
                forall|j: int| 0 <= j < i ==> self.peers@[j].peer != peer,
            decreases self.peers.len() - i,
        {
            if self.peers[i].peer == peer {
                proof {
                    lemma_sync_peer_position(self.peers@, peer);
                }
                return Some(i);
            }
            i += 1;
        }
        proof {
            lemma_sync_peer_position(self.peers@, peer);
        }
        None
    }

    /// The flags of `peer`, if it is known.
    pub open spec fn spec_get_flag(&self, peer: PeerIndex) -> Option<PeerFlags> {
        let p = sync_peer_position(self.peers@, peer);
        if p >= 0 {
            Some(self.peers@[p].peer_flags)
        } else {
            None
        }
    }

    /// The flags of `peer`, if it is connected.
    pub fn get_flag(&self, peer: PeerIndex) -> (r: Option<PeerFlags>)
        ensures
            r == self.spec_get_flag(peer),
    {
        match self.find_peer(peer) {
            Some(p) => Some(self.peers[p].peer_flags),
            None => None,
        }
    }

    /// Registers a peer that connected, unless it is known already.
    pub fn on_connected(&mut self, peer: PeerIndex, peer_flags: PeerFlags)
        ensures
            final(self).header_map == old(self).header_map,
            final(self).header_totals == old(self).header_totals,
            final(self).best_known_header == old(self).best_known_header,
            sync_peer_position(old(self).peers@, peer) >= 0 ==> final(self).peers@ == old(self).peers@,
            sync_peer_position(old(self).peers@, peer) < 0 ==> final(self).peers@.len() == old(self).peers@.len() + 1 && final(self).peers@.drop_last() == old(self).peers@ && final(self).peers@.last().peer == peer && final(self).peers@.last().peer_flags == peer_flags
                && final(self).peers@.last().status == PeerStatus::HandshakeSent && final(self).peers@.last().misbehavior == 0 && final(self).peers@.last().unknown_header_list@.len()
                == 0,
    {
        if self.find_peer(peer).is_some() {
            return ;
        }
        let ghost before = self.peers@;
        self.peers.push(
            PeerState {
                peer,
                peer_flags,
                status: PeerStatus::HandshakeSent,
                chain_sync: ChainSyncState {
                    timeout: 0,
                    work_header: None,
                    total_difficulty: None,
                    sent_getheaders: false,
                },
                best_known_header: None,
                unknown_header_list: Vec::new(),
                misbehavior: 0,
            },
        );
        assert(self.peers@.drop_last() =~= before);
    }

    /// Records a strike against `peer`; a peer with three strikes is
    /// banned. Returns for how long to ban the peer, if at all.
    pub fn punish(&mut self, peer: PeerIndex) -> (r: Option<u64>)
        ensures
            final(self).header_map == old(self).header_map,
            final(self).header_totals == old(self).header_totals,
            final(self).best_known_header == old(self).best_known_header,
            final(self).peers@.len() == old(self).peers@.len(),
            sync_peer_position(old(self).peers@, peer) < 0 ==> r.is_none() && final(self).peers@
                == old(self).peers@,
            sync_peer_position(old(self).peers@, peer) >= 0 ==> {
                let p = sync_peer_position(old(self).peers@, peer);
                let strikes = if old(self).peers@[p].misbehavior < u32::MAX {
                    (old(self).peers@[p].misbehavior + 1) as u32
                } else {
                    u32::MAX
                };
                &&& final(self).peers@[p].misbehavior == strikes
                &&& final(self).peers@[p].peer == peer
                &&& final(self).peers@[p].peer_flags == old(self).peers@[p].peer_flags
                &&& final(self).peers@[p].unknown_header_list == old(self).peers@[p].unknown_header_list
                &&& strikes >= BAN_THRESHOLD ==> r == Some(crate::BAD_MESSAGE_BAN_TIME) && final(self).peers@[p].status == PeerStatus::Banned
                &&& strikes < BAN_THRESHOLD ==> r.is_none() && final(self).peers@[p].status == old(self).peers@[p].status
                &&& forall|j: int|
                    0 <= j < old(self).peers@.len() && j != p ==> final(self).peers@[j] == old(self).peers@[j]
            },
    {
        let p = match self.find_peer(peer) {
            Some(p) => p,
            None => {
                return None;
            },
        };
        proof {
            lemma_sync_peer_position(self.peers@, peer);
        }
        let strikes: u32 = if self.peers[p].misbehavior < u32::MAX {
            self.peers[p].misbehavior + 1
        } else {
            u32::MAX
        };
        self.peers[p].misbehavior = strikes;
        if strikes >= BAN_THRESHOLD {
            self.peers[p].status = PeerStatus::Banned;
            Some(crate::BAD_MESSAGE_BAN_TIME)
        } else {
            None
        }
    }
}

} // verus!
