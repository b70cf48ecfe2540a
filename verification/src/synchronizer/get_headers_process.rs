//! The handler of a request for headers.

use vstd::prelude::*;
use crate::locator::get_locator_response;
use crate::locator::headers_between;
use crate::locator::latest_common;
use crate::locator::locate_latest_common_block;
use crate::locator::response_end;
use crate::peers::PeerIndex;
use crate::primitives::Byte32;
use crate::status::Status;
use crate::status::StatusCode;
use crate::store::ChainStore;
use crate::sync_types::PeerFlags;
use crate::sync_types::SyncState;
use crate::sync_types::is_initial_block_download;
use crate::sync_types::lemma_sync_peer_position;
use crate::sync_types::spec_is_initial_block_download;
use crate::sync_types::sync_peer_position;
use crate::types::Header;

verus! {

/// A request for the headers that follow a locator.
#[derive(Clone, Debug, PartialEq, Eq)]
pub struct GetHeaders {
    pub block_locator_hashes: Vec<Byte32>,
    pub hash_stop: Byte32,
}

/// What is sent back.
#[derive(Debug)]
pub enum GetHeadersReply {
    /// This node is in initial block download and serves no headers.
    InIbd,
    /// The headers that follow the latest common block.
    SendHeaders(Vec<Header>),
}

/// A copy of a list of hashes.
pub fn copy_hashes(hashes: &Vec<Byte32>) -> (r: Vec<Byte32>)
    ensures
        r@ == hashes@,
{
    let mut out: Vec<Byte32> = Vec::new();
    let mut i: usize = 0;
    while i < hashes.len()
        invariant
            0 <= i <= hashes.len(),
            out@ == hashes@.subrange(0, i as int),
        decreases hashes.len() - i,
    {
        out.push(hashes[i]);
        assert(out@ =~= hashes@.subrange(0, i as int + 1));
        i += 1;
    }
    assert(hashes@.subrange(0, hashes@.len() as int) =~= hashes@);
    out
}

/// The handling of one request for headers.
pub struct GetHeadersProcess<'a> {
    pub message: &'a GetHeaders,
    pub store: &'a ChainStore,
    pub peer: PeerIndex,
    /// The local clock, in milliseconds.
    pub now: u64,
}

/// Whether the locator of a peer with these flags is remembered during
/// initial block download.
pub open spec fn remembers_locator(flags: Option<PeerFlags>) -> bool {
    match flags {
        Some(f) => f.is_outbound || f.is_whitelist || f.is_protect,
        None => false,
    }
}

impl<'a> GetHeadersProcess<'a> {
    /// The handling of `message` from `peer` at the time `now`.
    pub fn new(message: &'a GetHeaders, store: &'a ChainStore, peer: PeerIndex, now: u64) -> (r:
        Self)
        ensures
            r.message == message,
            r.store == store,
            r.peer == peer,
            r.now == now,
    {
        GetHeadersProcess { message, store, peer, now }
    }

    /// The timestamp of the tip; zero for an empty chain.
    pub open spec fn spec_tip_time(&self) -> u64 {
        match self.store.spec_tip_header() {
            Some(h) => h.timestamp,
            None => 0,
        }
    }

    /// Whether this node is in initial block download.
    pub open spec fn spec_in_ibd(&self) -> bool {
        spec_is_initial_block_download(self.spec_tip_time(), self.now)
    }

    /// The status with which the request ends: a locator of more than 101
    /// entries is malformed; during initial block download the request is
    /// ignored; a locator without common block misses its ancestors.
    pub open spec fn spec_code(&self) -> StatusCode {
        if self.message.block_locator_hashes@.len() > crate::MAX_LOCATOR_SIZE {
            StatusCode::ProtocolMessageIsMalformed
        } else if self.spec_in_ibd() {
            StatusCode::Ignored
        } else if latest_common(*self.store, self.message.block_locator_hashes@).is_some() {
            StatusCode::OK
        } else {
            StatusCode::GetHeadersMissCommonAncestors
        }
    }

    /// What the handling of the request comes to: `r` is what is handed
    /// back, `before` and `after` are the state before and after.
    ///
    /// An over-long locator changes nothing and sends nothing. During
    /// initial block download the marker is sent, and the locator of an
    /// outbound, whitelisted or protected peer is remembered. Otherwise the
    /// headers that follow the latest common block are sent, 2 000 at most;
    /// without a common block nothing is sent.
    pub open spec fn spec_handled(
        &self,
        before: SyncState,
        after: SyncState,
        r: (Status, Option<GetHeadersReply>),
    ) -> bool {
        &&& r.0.code == self.spec_code()
        &&& self.spec_code() == StatusCode::ProtocolMessageIsMalformed ==> r.1.is_none()
            && after == before
        &&& self.spec_code() == StatusCode::GetHeadersMissCommonAncestors ==> r.1.is_none()
            && after == before
        &&& self.spec_code() == StatusCode::OK ==> after == before && r.1.is_some()
            && match r.1.unwrap() {
            GetHeadersReply::SendHeaders(headers) => headers@ == headers_between(
                *self.store,
                latest_common(*self.store, self.message.block_locator_hashes@).unwrap() + 1,
                response_end(
                    *self.store,
                    latest_common(*self.store, self.message.block_locator_hashes@).unwrap(),
                ),
                self.message.hash_stop@,
            ) && headers@.len() <= crate::MAX_HEADERS_LEN,
            GetHeadersReply::InIbd => false,
        }
        &&& self.spec_code() == StatusCode::Ignored ==> r.1.is_some() && r.1.unwrap() is InIbd
        &&& self.spec_code() == StatusCode::Ignored && !remembers_locator(
            before.spec_get_flag(self.peer),
        ) ==> after == before
        &&& self.spec_code() == StatusCode::Ignored && remembers_locator(
            before.spec_get_flag(self.peer),
        ) ==> {
            let p = sync_peer_position(before.peers@, self.peer);
            &&& after.peers@.len() == before.peers@.len()
            &&& after.peers@[p].unknown_header_list@
                == self.message.block_locator_hashes@
            &&& after.peers@[p].peer == before.peers@[p].peer
            &&& after.peers@[p].peer_flags == before.peers@[p].peer_flags
            &&& after.peers@[p].status == before.peers@[p].status
            &&& after.peers@[p].chain_sync == before.peers@[p].chain_sync
            &&& after.peers@[p].best_known_header == before.peers@[p].best_known_header
            &&& after.peers@[p].misbehavior == before.peers@[p].misbehavior
            &&& forall|j: int|
                0 <= j < before.peers@.len() && j != p ==> after.peers@[j] == before.peers@[j]
        }
    }

    /// Handles the request.
    ///
    /// An over-long locator changes nothing and sends nothing. During
    /// initial block download the marker is sent, and the locator of an
    /// outbound, whitelisted or protected peer is remembered. Otherwise the
    /// headers that follow the latest common block are sent, 2 000 at most.
    pub fn execute(self, state: &mut SyncState) -> (r: (Status, Option<GetHeadersReply>))
        ensures
            self.spec_handled(*old(state), *final(state), r),
    {
        let block_locator_hashes = &self.message.block_locator_hashes;
        let hash_stop = &self.message.hash_stop;
        let locator_size = block_locator_hashes.len();
        if locator_size > crate::MAX_LOCATOR_SIZE {
            return (Status::new(StatusCode::ProtocolMessageIsMalformed), None);
        }
        let tip_time = match self.store.tip_header() {
            Some(h) => h.timestamp,
            None => 0,
        };
        if is_initial_block_download(tip_time, self.now) {
            match state.find_peer(self.peer) {
                Some(p) => {
                    proof {
                        lemma_sync_peer_position(state.peers@, self.peer);
                    }
                    let flag = state.peers[p].peer_flags;
                    if flag.is_outbound || flag.is_whitelist || flag.is_protect {
                        state.peers[p].unknown_header_list = copy_hashes(block_locator_hashes);
                    }
                },
                None => {},
            }
            return (Status::ignored(), Some(GetHeadersReply::InIbd));
        }
        match locate_latest_common_block(self.store, hash_stop, block_locator_hashes) {
            Some(block_number) => {
                let headers = get_locator_response(self.store, block_number, hash_stop);
                (Status::ok(), Some(GetHeadersReply::SendHeaders(headers)))
            },
            None => (Status::new(StatusCode::GetHeadersMissCommonAncestors), None),
        }
    }
}

} // verus!
