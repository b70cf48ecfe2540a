//! The envelope of a message on the wire: a length, a type, and the
//! payload.
//!
//! The first four bytes hold the length of the whole message, the next
//! four the type, both little-endian; the payload follows.

use vstd::prelude::*;
use vstd::bytes::lemma_auto_spec_u32_to_from_le_bytes;
use vstd::bytes::spec_u32_from_le_bytes;
use vstd::bytes::spec_u32_to_le_bytes;
use vstd::bytes::u32_from_le_bytes;
use vstd::bytes::u32_to_le_bytes;
use vstd::slice::slice_subrange;
use crate::primitives::Byte32;
use crate::status::Status;
use crate::status::StatusCode;
use crate::synchronizer::get_headers_process::GetHeaders;

verus! {

/// The bytes of an envelope before the payload.
pub const ENVELOPE_HEADER_SIZE: usize = 8;

/// The messages of the synchronisation protocol.
#[derive(Clone, Copy, Debug, PartialEq, Eq, Structural)]
pub enum SyncMessageKind {
    GetHeaders,
    SendHeaders,
    GetBlocks,
    SendBlock,
    InIBD,
}

/// The messages of the relay protocol.
#[derive(Clone, Copy, Debug, PartialEq, Eq, Structural)]
pub enum RelayMessageKind {
    CompactBlock,
    RelayTransactionHash,
    GetBlockTransactions,
    BlockTransactions,
    GetBlockProposal,
    BlockProposal,
}

/// The number whose little-endian encoding is the first four bytes of
/// `buf`.
fn read_u32_le(buf: &[u8]) -> (r: u32)
    requires
        buf@.len() >= 4,
    ensures
        r == spec_u32_from_le_bytes(buf@.subrange(0, 4)),
{
    u32_from_le_bytes(slice_subrange(buf, 0, 4))
}

/// The little-endian encoding of `n`, in four bytes.
fn write_u32_le(n: u32) -> (r: Vec<u8>)
    ensures
        r@ == spec_u32_to_le_bytes(n),
        r@.len() == 4,
{
    u32_to_le_bytes(n)
}

/// The length that an envelope declares.
pub open spec fn declared_length(bytes: Seq<u8>) -> u32 {
    spec_u32_from_le_bytes(bytes.subrange(0, 4))
}

/// The type that an envelope declares.
pub open spec fn declared_type(bytes: Seq<u8>) -> u32 {
    spec_u32_from_le_bytes(bytes.subrange(4, 8))
}

/// An envelope is well framed when it has its header and is as long as it
/// declares.
pub open spec fn well_framed(bytes: Seq<u8>) -> bool {
    bytes.len() >= ENVELOPE_HEADER_SIZE && declared_length(bytes) == bytes.len()
}

/// The type of a well-framed envelope; `None` for any other bytes.
pub fn envelope_type(bytes: &[u8]) -> (r: Option<u32>)
    ensures
        well_framed(bytes@) ==> r == Some(declared_type(bytes@)),
        !well_framed(bytes@) ==> r.is_none(),
{
    if bytes.len() < ENVELOPE_HEADER_SIZE {
        return None;
    }
    let head = slice_subrange(bytes, 0, 4);
    assert(head@.subrange(0, 4) =~= bytes@.subrange(0, 4));
    let length = read_u32_le(head);
    if length as u64 != bytes.len() as u64 {
        return None;
    }
    let tag = slice_subrange(bytes, 4, 8);
    assert(tag@.subrange(0, 4) =~= bytes@.subrange(4, 8));
    Some(read_u32_le(tag))
}

/// The envelope of a message of type `tag` with `payload`.
pub open spec fn envelope_of(tag: u32, payload: Seq<u8>) -> Seq<u8> {
    spec_u32_to_le_bytes((ENVELOPE_HEADER_SIZE + payload.len()) as u32) + spec_u32_to_le_bytes(tag)
        + payload
}

/// Puts `payload` into the envelope of a message of type `tag`; `None`
/// where the length does not fit the four bytes that declare it.
pub fn encode_envelope(tag: u32, payload: &[u8]) -> (r: Option<Vec<u8>>)
    ensures
        ENVELOPE_HEADER_SIZE + payload@.len() <= u32::MAX ==> r.is_some() && r.unwrap()@
            == envelope_of(tag, payload@),
        ENVELOPE_HEADER_SIZE + payload@.len() > u32::MAX ==> r.is_none(),
{
    if payload.len() as u128 + ENVELOPE_HEADER_SIZE as u128 > u32::MAX as u128 {
        return None;
    }
    let length = write_u32_le((payload.len() + ENVELOPE_HEADER_SIZE) as u32);
    let kind = write_u32_le(tag);
    let mut out: Vec<u8> = Vec::new();
    let mut i: usize = 0;
    while i < 4
        invariant
            0 <= i <= 4,
            length@.len() == 4,
            out@ == length@.subrange(0, i as int),
        decreases 4 - i,
    {
        out.push(length[i]);
        assert(out@ =~= length@.subrange(0, i as int + 1));
        i += 1;
    }
    let mut j: usize = 0;
    while j < 4
        invariant
            0 <= j <= 4,
            length@.len() == 4,
            kind@.len() == 4,
            out@ == length@.subrange(0, 4) + kind@.subrange(0, j as int),
        decreases 4 - j,
    {
        out.push(kind[j]);
        assert(out@ =~= length@.subrange(0, 4) + kind@.subrange(0, j as int + 1));
        j += 1;
    }
    assert(length@.subrange(0, 4) =~= length@);
    assert(kind@.subrange(0, 4) =~= kind@);
    let ghost head = out@;
    let mut k: usize = 0;
    while k < payload.len()
        invariant
            0 <= k <= payload.len(),
            out@ == head + payload@.subrange(0, k as int),
        decreases payload.len() - k,
    {
        out.push(payload[k]);
        assert(out@ =~= head + payload@.subrange(0, k as int + 1));
        k += 1;
    }
    assert(payload@.subrange(0, payload@.len() as int) =~= payload@);
    Some(out)
}

/// An envelope that was written is well framed and declares its type.
pub proof fn lemma_envelope_written_is_read(tag: u32, payload: Seq<u8>)
    requires
        ENVELOPE_HEADER_SIZE + payload.len() <= u32::MAX,
    ensures
        well_framed(envelope_of(tag, payload)),
        declared_type(envelope_of(tag, payload)) == tag,
        envelope_of(tag, payload).subrange(
            ENVELOPE_HEADER_SIZE as int,
            envelope_of(tag, payload).len() as int,
        ) == payload,
{
    lemma_auto_spec_u32_to_from_le_bytes();
    let bytes = envelope_of(tag, payload);
    let length = spec_u32_to_le_bytes((ENVELOPE_HEADER_SIZE + payload.len()) as u32);
    let kind = spec_u32_to_le_bytes(tag);
    assert(bytes.subrange(0, 4) =~= length);
    assert(bytes.subrange(4, 8) =~= kind);
    assert(bytes.subrange(8, bytes.len() as int) =~= payload);
}

/// The message of the synchronisation protocol with type `tag`.
pub open spec fn spec_sync_kind(tag: u32) -> Option<SyncMessageKind> {
    if tag == 0 {
        Some(SyncMessageKind::GetHeaders)
    } else if tag == 1 {
        Some(SyncMessageKind::SendHeaders)
    } else if tag == 2 {
        Some(SyncMessageKind::GetBlocks)
    } else if tag == 3 {
        Some(SyncMessageKind::SendBlock)
    } else if tag == 4 {
        Some(SyncMessageKind::InIBD)
    } else {
        None
    }
}

/// The message of the relay protocol with type `tag`.
pub open spec fn spec_relay_kind(tag: u32) -> Option<RelayMessageKind> {
    if tag == 0 {
        Some(RelayMessageKind::CompactBlock)
    } else if tag == 1 {
        Some(RelayMessageKind::RelayTransactionHash)
    } else if tag == 2 {
        Some(RelayMessageKind::GetBlockTransactions)
    } else if tag == 3 {
        Some(RelayMessageKind::BlockTransactions)
    } else if tag == 4 {
        Some(RelayMessageKind::GetBlockProposal)
    } else if tag == 5 {
        Some(RelayMessageKind::BlockProposal)
    } else {
        None
    }
}

/// The message that bytes received on the synchronisation protocol carry.
pub open spec fn spec_sync_message(bytes: Seq<u8>) -> Option<SyncMessageKind> {
    if well_framed(bytes) {
        spec_sync_kind(declared_type(bytes))
    } else {
        None
    }
}

/// The message that bytes received on the relay protocol carry.
pub open spec fn spec_relay_message(bytes: Seq<u8>) -> Option<RelayMessageKind> {
    if well_framed(bytes) {
        spec_relay_kind(declared_type(bytes))
    } else {
        None
    }
}

/// Tells which message of the synchronisation protocol the bytes carry.
/// Bytes that are not well framed, or that declare a type the protocol
/// does not have, are malformed.
pub fn classify_sync_message(bytes: &[u8]) -> (r: Result<SyncMessageKind, Status>)
    ensures
        match r {
            Ok(kind) => spec_sync_message(bytes@) == Some(kind),
            Err(status) => spec_sync_message(bytes@).is_none() && status.code
                == StatusCode::ProtocolMessageIsMalformed,
        },
{
    let kind = match envelope_type(bytes) {
        Some(0) => Some(SyncMessageKind::GetHeaders),
        Some(1) => Some(SyncMessageKind::SendHeaders),
        Some(2) => Some(SyncMessageKind::GetBlocks),
        Some(3) => Some(SyncMessageKind::SendBlock),
        Some(4) => Some(SyncMessageKind::InIBD),
        _ => None,
    };
    match kind {
        Some(k) => Ok(k),
        None => Err(Status::new(StatusCode::ProtocolMessageIsMalformed)),
    }
}

/// Tells which message of the relay protocol the bytes carry.
pub fn classify_relay_message(bytes: &[u8]) -> (r: Result<RelayMessageKind, Status>)
    ensures
        match r {
            Ok(kind) => spec_relay_message(bytes@) == Some(kind),
            Err(status) => spec_relay_message(bytes@).is_none() && status.code
                == StatusCode::ProtocolMessageIsMalformed,
        },
{
    let kind = match envelope_type(bytes) {
        Some(0) => Some(RelayMessageKind::CompactBlock),
        Some(1) => Some(RelayMessageKind::RelayTransactionHash),
        Some(2) => Some(RelayMessageKind::GetBlockTransactions),
        Some(3) => Some(RelayMessageKind::BlockTransactions),
        Some(4) => Some(RelayMessageKind::GetBlockProposal),
        Some(5) => Some(RelayMessageKind::BlockProposal),
        _ => None,
    };
    match kind {
        Some(k) => Ok(k),
        None => Err(Status::new(StatusCode::ProtocolMessageIsMalformed)),
    }
}

/// The bytes of the first `n` hashes, one after the other.
pub open spec fn hashes_bytes(hashes: Seq<Byte32>, n: int) -> Seq<u8>
    decreases n,
{
    if n <= 0 {
        Seq::<u8>::empty()
    } else {
        hashes_bytes(hashes, n - 1) + hashes[n - 1]@
    }
}

/// The payload of a request for headers: the stop hash, the number of
/// locator entries in four bytes, little-endian, and the entries.
pub open spec fn get_headers_payload(hash_stop: Byte32, locator: Seq<Byte32>) -> Seq<u8> {
    hash_stop@ + spec_u32_to_le_bytes(locator.len() as u32) + hashes_bytes(
        locator,
        locator.len() as int,
    )
}

/// Whether `payload` is the payload of a request for headers: it holds a
/// stop hash, a number, and exactly that number of hashes.
pub open spec fn is_get_headers(payload: Seq<u8>) -> bool {
    payload.len() >= 36 && payload.len() == 36 + 32 * spec_u32_from_le_bytes(
        payload.subrange(32, 36),
    )
}

fn read_hash(bytes: &[u8], at: usize) -> (r: Byte32)
    requires
        at + 32 <= bytes@.len(),
    ensures
        r@ == bytes@.subrange(at as int, at + 32),
{
    let mut out = [0u8; 32];
    let total = bytes.len();
    let mut i: usize = 0;
    while i < 32
        invariant
            0 <= i <= 32,
            at + 32 <= bytes@.len(),
            total == bytes@.len(),
            forall|j: int| 0 <= j < i ==> out@[j] == bytes@[at + j],
        decreases 32 - i,
    {
        out[i] = bytes[at + i];
        i += 1;
    }
    let r = Byte32 { bytes: out };
    assert(r@ =~= bytes@.subrange(at as int, at + 32));
    r
}

/// Whether `message` is the request for headers that `payload` carries:
/// the stop hash is the first 32 bytes, and the locator holds the hashes
/// that follow the number, in their order.
pub open spec fn decodes_to(payload: Seq<u8>, message: GetHeaders) -> bool {
    &&& is_get_headers(payload)
    &&& message.hash_stop@ == payload.subrange(0, 32)
    &&& message.block_locator_hashes@.len() == spec_u32_from_le_bytes(payload.subrange(32, 36))
    &&& forall|i: int|
        0 <= i < message.block_locator_hashes@.len() ==> (
        #[trigger] message.block_locator_hashes@[i])@ == payload.subrange(
            36 + 32 * i,
            36 + 32 * i + 32,
        )
}

/// Reads a request for headers from its payload; `None` for bytes that
/// are no such payload.
pub fn decode_get_headers(payload: &[u8]) -> (r: Option<GetHeaders>)
    ensures
        r.is_some() == is_get_headers(payload@),
        r.is_some() ==> decodes_to(payload@, r.unwrap()),
{
    if payload.len() < 36 {
        return None;
    }
    let counted = slice_subrange(payload, 32, 36);
    assert(counted@.subrange(0, 4) =~= payload@.subrange(32, 36));
    let count = read_u32_le(counted);
    if (payload.len() - 36) as u128 != 32u128 * (count as u128) {
        return None;
    }
    let hash_stop = read_hash(payload, 0);
    let total = payload.len();
    let mut hashes: Vec<Byte32> = Vec::new();
    let mut i: usize = 0;
    while i < count as usize
        invariant
            0 <= i <= count,
            total == payload@.len(),
            payload@.len() == 36 + 32 * count,
            hashes@.len() == i,
            forall|j: int|
                0 <= j < i ==> (#[trigger] hashes@[j])@ == payload@.subrange(
                    36 + 32 * j,
                    36 + 32 * j + 32,
                ),
        decreases count - i,
    {
        hashes.push(read_hash(payload, 36 + 32 * i));
        i += 1;
    }
    Some(GetHeaders { block_locator_hashes: hashes, hash_stop })
}

/// Writes the payload of a request for headers.
pub fn encode_get_headers(message: &GetHeaders) -> (r: Vec<u8>)
    requires
        message.block_locator_hashes@.len() <= u32::MAX,
    ensures
        r@ == get_headers_payload(message.hash_stop, message.block_locator_hashes@),
{
    let mut out: Vec<u8> = Vec::new();
    push_bytes(&mut out, &message.hash_stop.bytes);
    let count = write_u32_le(message.block_locator_hashes.len() as u32);
    let mut c: usize = 0;
    let ghost head = out@;
    while c < 4
        invariant
            0 <= c <= 4,
            count@.len() == 4,
            out@ == head + count@.subrange(0, c as int),
        decreases 4 - c,
    {
        out.push(count[c]);
        assert(out@ =~= head + count@.subrange(0, c as int + 1));
        c += 1;
    }
    assert(count@.subrange(0, 4) =~= count@);
    let ghost prefix = out@;
    let hashes = &message.block_locator_hashes;
    let mut i: usize = 0;
    assert(out@ =~= prefix + hashes_bytes(hashes@, 0));
    while i < hashes.len()
        invariant
            0 <= i <= hashes.len(),
            out@ == prefix + hashes_bytes(hashes@, i as int),
        decreases hashes.len() - i,
    {
        push_bytes(&mut out, &hashes[i].bytes);
        assert(out@ =~= prefix + hashes_bytes(hashes@, i as int + 1));
        i += 1;
    }
    out
}

fn push_bytes(out: &mut Vec<u8>, bytes: &[u8; 32])
    ensures
        final(out)@ == old(out)@ + bytes@,
{
    let ghost before = out@;
    let mut i: usize = 0;
    while i < 32
        invariant
            0 <= i <= 32,
            out@ == before + bytes@.subrange(0, i as int),
        decreases 32 - i,
    {
        out.push(bytes[i]);
        assert(out@ =~= before + bytes@.subrange(0, i as int + 1));
        i += 1;
    }
    assert(bytes@.subrange(0, 32) =~= bytes@);
}

/// A payload that was written is read as a request for headers with as
/// many locator entries as were written.
pub proof fn lemma_get_headers_written_is_read(hash_stop: Byte32, locator: Seq<Byte32>)
    requires
        locator.len() <= u32::MAX,
    ensures
        is_get_headers(get_headers_payload(hash_stop, locator)),
        spec_u32_from_le_bytes(get_headers_payload(hash_stop, locator).subrange(32, 36))
            == locator.len(),
        get_headers_payload(hash_stop, locator).subrange(0, 32) == hash_stop@,
{
    lemma_auto_spec_u32_to_from_le_bytes();
    lemma_hashes_bytes_len(locator, locator.len() as int);
    let payload = get_headers_payload(hash_stop, locator);
    let count = spec_u32_to_le_bytes(locator.len() as u32);
    assert(hash_stop@.len() == 32);
    assert(payload.subrange(32, 36) =~= count);
    assert(payload.subrange(0, 32) =~= hash_stop@);
}

proof fn lemma_hashes_bytes_len(hashes: Seq<Byte32>, n: int)
    requires
        0 <= n <= hashes.len(),
    ensures
        hashes_bytes(hashes, n).len() == 32 * n,
    decreases n,
{
    if n > 0 {
        lemma_hashes_bytes_len(hashes, n - 1);
        assert(hashes[n - 1]@.len() == 32);
    }
}

/// The number of locator entries that the payload of an envelope
/// declares.
pub open spec fn declared_locator_size(bytes: Seq<u8>) -> u32 {
    spec_u32_from_le_bytes(
        bytes.subrange(ENVELOPE_HEADER_SIZE as int, bytes.len() as int).subrange(32, 36),
    )
}

/// Handles bytes received on the synchronisation protocol as far as
/// requests for headers go.
///
/// Bytes that carry no message, a request whose payload is no request,
/// and a request with more than 101 locator entries are malformed: the
/// state stays as it is, nothing is sent, and the status bans the sender.
/// A well-formed request is handled as the handler of requests does, on
/// the message that the payload carries. Other messages are left to their
/// handlers.
pub fn receive_sync_bytes(
    bytes: &[u8],
    state: &mut crate::sync_types::SyncState,
    store: &crate::store::ChainStore,
    peer: crate::peers::PeerIndex,
    now: u64,
) -> (r: (Status, Option<crate::synchronizer::get_headers_process::GetHeadersReply>))
    ensures
        spec_sync_message(bytes@).is_none() ==> r.0.code
            == StatusCode::ProtocolMessageIsMalformed && r.1.is_none() && *final(state) == *old(state),
        spec_sync_message(bytes@) == Some(SyncMessageKind::GetHeaders) && !is_get_headers(
            bytes@.subrange(ENVELOPE_HEADER_SIZE as int, bytes@.len() as int),
        ) ==> r.0.code == StatusCode::ProtocolMessageIsMalformed && r.1.is_none() && *final(state)
            == *old(state),
        spec_sync_message(bytes@) == Some(SyncMessageKind::GetHeaders) && is_get_headers(
            bytes@.subrange(ENVELOPE_HEADER_SIZE as int, bytes@.len() as int),
        ) && declared_locator_size(bytes@) > crate::MAX_LOCATOR_SIZE ==> r.0.code
            == StatusCode::ProtocolMessageIsMalformed && r.1.is_none() && *final(state) == *old(state),
        spec_sync_message(bytes@) == Some(SyncMessageKind::GetHeaders) && is_get_headers(
            bytes@.subrange(ENVELOPE_HEADER_SIZE as int, bytes@.len() as int),
        ) ==> exists|message: GetHeaders|
            #[trigger] decodes_to(
                bytes@.subrange(ENVELOPE_HEADER_SIZE as int, bytes@.len() as int),
                message,
            ) && (crate::synchronizer::get_headers_process::GetHeadersProcess {
                message: &message,
                store: store,
                peer: peer,
                now: now,
            }).spec_handled(*old(state), *final(state), r),
        spec_sync_message(bytes@).is_some() && spec_sync_message(bytes@) != Some(
            SyncMessageKind::GetHeaders,
        ) ==> r.0.code == StatusCode::Ignored && r.1.is_none() && *final(state) == *old(state),
        r.0.code == StatusCode::ProtocolMessageIsMalformed ==> r.0.spec_should_ban() == Some(
            crate::BAD_MESSAGE_BAN_TIME,
        ),
{
    match classify_sync_message(bytes) {
        Err(status) => (status, None),
        Ok(SyncMessageKind::GetHeaders) => {
            let payload = slice_subrange(bytes, ENVELOPE_HEADER_SIZE, bytes.len());
            match decode_get_headers(payload) {
                None => (Status::new(StatusCode::ProtocolMessageIsMalformed), None),
                Some(message) => {
                    let process = crate::synchronizer::get_headers_process::GetHeadersProcess::new(
                        &message,
                        store,
                        peer,
                        now,
                    );
                    let r = process.execute(state);
                    assert(decodes_to(payload@, message));
                    assert(process.spec_handled(*old(state), *state, r));
                    r
                },
            }
        },
        Ok(_) => (Status::ignored(), None),
    }
}

/// Bytes shorter than the header of an envelope carry no message, and
/// the sender of such bytes is banned.
pub proof fn lemma_short_message_is_malformed(bytes: Seq<u8>)
    requires
        bytes.len() < ENVELOPE_HEADER_SIZE,
    ensures
        spec_sync_message(bytes).is_none(),
        spec_relay_message(bytes).is_none(),
        (Status { code: StatusCode::ProtocolMessageIsMalformed }).spec_should_ban() == Some(
            crate::BAD_MESSAGE_BAN_TIME,
        ),
{
}

} // verus!
