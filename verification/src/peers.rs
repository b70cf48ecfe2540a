//! Sets of peers, kept as lists without repetition.

use vstd::prelude::*;

verus! {

/// The number by which the network layer knows a peer.
pub type PeerIndex = u64;

/// No peer occurs twice.
pub open spec fn distinct_peers(peers: Seq<PeerIndex>) -> bool {
    forall|i: int, j: int| 0 <= i < j < peers.len() ==> peers[i] != peers[j]
}

/// Whether `peer` is among `peers`.
pub fn has_peer(peers: &Vec<PeerIndex>, peer: PeerIndex) -> (r: bool)
    ensures
        r == peers@.contains(peer),
{
    let mut i: usize = 0;
    while i < peers.len()
        invariant
            0 <= i <= peers.len(),
            forall|j: int| 0 <= j < i ==> peers@[j] != peer,
        decreases peers.len() - i,
    {
        if peers[i] == peer {
            return true;
        }
        i += 1;
    }
    false
}

/// Adds `peer` unless it is there already; tells whether it was added.
pub fn insert_peer(peers: &mut Vec<PeerIndex>, peer: PeerIndex) -> (r: bool)
    requires
        distinct_peers(old(peers)@),
    ensures
        distinct_peers(final(peers)@),
        r == !old(peers)@.contains(peer),
        r ==> final(peers)@ == old(peers)@.push(peer),
        !r ==> final(peers)@ == old(peers)@,
        forall|p: PeerIndex| final(peers)@.contains(p) <==> old(peers)@.contains(p) || p == peer,
{
    if has_peer(peers, peer) {
        return false;
    }
    let ghost before = peers@;
    peers.push(peer);
    proof {
        assert(peers@[before.len() as int] == peer);
        assert forall|p: PeerIndex| peers@.contains(p) <==> before.contains(p) || p == peer by {
            if before.contains(p) {
                let i = choose|i: int| 0 <= i < before.len() && before[i] == p;
                assert(peers@[i] == p);
            }
        }
    }
    true
}

} // verus!
