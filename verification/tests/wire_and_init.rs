#![allow(unused_imports)]
use ckb_node_core::consensus::{Consensus, EpochExt, ProposalWindow};
use ckb_node_core::dao_utils::pack_dao_data;
use ckb_node_core::error::{verify_chain_name, verify_genesis, SpecError};
use ckb_node_core::init::{
    block_assembler_advice, init_kind, BlockAssemblerWarning, CodeHashChoice, ExitCode, InitKind,
};
use ckb_node_core::primitives::{Byte32, Capacity, Ratio};
use ckb_node_core::status::StatusCode;
use ckb_node_core::store::{BlockExt, ChainStore, StoredBlock};
use ckb_node_core::sync_types::{PeerFlags, SyncState};
use ckb_node_core::synchronizer::get_headers_process::{GetHeaders, GetHeadersReply};
use ckb_node_core::types::{
    Block, CellInput, CellOutput, Header, OutPoint, Script, Transaction,
};
use ckb_node_core::wire::{
    classify_sync_message, decode_get_headers, encode_envelope, encode_get_headers, envelope_type,
    receive_sync_bytes, SyncMessageKind,
};
use ckb_node_core::{BAD_MESSAGE_BAN_TIME, MAX_LOCATOR_SIZE};

#[allow(dead_code)]
fn hash_of(seed: u64) -> Byte32 {
    let mut bytes = [0u8; 32];
    bytes[..8].copy_from_slice(&seed.to_le_bytes());
    bytes[8] = 0xa5;
    bytes[31] = 0x5a;
    Byte32::new(bytes)
}

#[allow(dead_code)]
fn script(args: &[u8]) -> Script {
    Script { code_hash: hash_of(0xc0de), hash_type: 0, args: args.to_vec() }
}

#[allow(dead_code)]
fn output(capacity: u64) -> CellOutput {
    CellOutput { capacity: Capacity::shannons(capacity), lock: script(&[]), type_: None }
}

#[allow(dead_code)]
fn tx(seed: u64, inputs: Vec<CellInput>, outputs: Vec<CellOutput>) -> Transaction {
    let outputs_data = outputs.iter().map(|_| Vec::new()).collect();
    Transaction {
        hash: hash_of(0x1000_0000 + seed),
        witness_hash: hash_of(0x2000_0000 + seed),
        inputs,
        outputs,
        outputs_data,
        header_deps: Vec::new(),
        witnesses: Vec::new(),
        serialized_size: 100,
    }
}

#[allow(dead_code)]
fn cellbase(number: u64, outputs: Vec<CellOutput>) -> Transaction {
    tx(0xcb00_0000 + number, vec![CellInput::new_cellbase_input(number)], outputs)
}

#[allow(dead_code)]
fn spend(seed: u64, since: u64) -> Transaction {
    tx(seed, vec![CellInput::new(OutPoint::new(hash_of(0xfeed + seed), 0), since)], vec![output(1)])
}

#[allow(dead_code)]
fn header(number: u64, hash: Byte32, parent_hash: Byte32, timestamp: u64) -> Header {
    Header {
        hash,
        parent_hash,
        number,
        timestamp,
        difficulty: 1,
        epoch: 0,
        transactions_root: Byte32::zero(),
        proposals_hash: Byte32::zero(),
        witnesses_root: Byte32::zero(),
        uncles_hash: Byte32::zero(),
        dao: Byte32::zero(),
        nonce: 0,
    }
}

#[allow(dead_code)]
fn epoch(number: u64, start_number: u64, length: u64, primary: u64, secondary: u64) -> EpochExt {
    EpochExt {
        number,
        length,
        start_number,
        primary_reward: Capacity::shannons(primary),
        secondary_reward: Capacity::shannons(secondary),
        difficulty: 1,
    }
}

#[allow(dead_code)]
fn consensus() -> Consensus {
    Consensus {
        tx_proposal_window: ProposalWindow { closest: 2, farthest: 10 },
        cellbase_maturity: 4,
        median_time_block_count: 11,
        max_block_cycles: 1_000,
        max_uncles_num: 2,
        max_block_bytes: 10_000,
        max_block_proposals_limit: 100,
        allowed_future_time: 15_000,
        genesis_epoch_ext: epoch(0, 0, 1000, 1_000_000, 100_000),
        dao_type_hash: Some(hash_of(0xda0)),
        satoshi_pubkey_hash: vec![0x62; 20],
        satoshi_cell_occupied_ratio: Ratio { numer: 6, denom: 10 },
    }
}

#[allow(dead_code)]
fn stored(h: Header) -> StoredBlock {
    StoredBlock {
        header: h,
        uncles: Vec::new(),
        proposals: Vec::new(),
        epoch: Some(epoch(0, 0, 1000, 1_000_000, 100_000)),
        next_epoch: None,
        ext: Some(BlockExt {
            total_difficulty: (h.number as u128) + 1,
            total_uncles_count: 0,
            txs_fees: Vec::new(),
        }),
        miner_lock: script(&[0xaa]),
    }
}

/// A store whose main chain has the blocks 0 to `tip`, one second apart.
#[allow(dead_code)]
fn chain(tip: u64) -> ChainStore {
    let mut store = ChainStore::new();
    let mut parent = Byte32::zero();
    for number in 0..=tip {
        let hash = hash_of(0xb10c_0000 + number);
        let mut h = header(number, hash, parent, 1_000_000 + number * 1_000);
        h.dao = pack_dao_data(
            10_000_000_000_000_000,
            Capacity::shannons(1_000_000_000),
            Capacity::shannons(1_000),
        );
        store.blocks.push(stored(h));
        store.main_chain.push(hash);
        parent = hash;
    }
    store
}

#[allow(dead_code)]
fn block_on(store: &ChainStore, transactions: Vec<Transaction>) -> Block {
    let tip = store.tip_header().unwrap();
    let mut h = header(tip.number + 1, hash_of(0xb10c_0000 + tip.number + 1), tip.hash, tip.timestamp + 1_000);
    h.dao = tip.dao;
    Block { header: h, uncles: Vec::new(), transactions, proposals: Vec::new(), serialized_size: 500 }
}

fn framed(tag: u32, payload: &[u8]) -> Vec<u8> {
    encode_envelope(tag, payload).unwrap()
}

#[test]
fn envelope_is_written_as_it_is_read() {
    assert_eq!(encode_envelope(3, b"abc"), Some(vec![11, 0, 0, 0, 3, 0, 0, 0, b'a', b'b', b'c']));
    assert_eq!(encode_envelope(0x0102_0304, b""), Some(vec![8, 0, 0, 0, 4, 3, 2, 1]));
    assert_eq!(envelope_type(&framed(0x0102_0304, b"xyz")), Some(0x0102_0304));
    assert_eq!(classify_sync_message(&framed(4, b"")), Ok(SyncMessageKind::InIBD));
}

#[test]
fn get_headers_payload_round_trip() {
    let message = GetHeaders {
        block_locator_hashes: vec![hash_of(1), hash_of(2), hash_of(3)],
        hash_stop: hash_of(9),
    };
    let payload = encode_get_headers(&message);
    assert_eq!(payload.len(), 32 + 4 + 3 * 32);
    assert_eq!(&payload[..32], &hash_of(9).bytes[..]);
    assert_eq!(&payload[32..36], &[3, 0, 0, 0]);
    assert_eq!(&payload[36..68], &hash_of(1).bytes[..]);
    assert_eq!(decode_get_headers(&payload), Some(message));

    let empty = GetHeaders { block_locator_hashes: vec![], hash_stop: Byte32::zero() };
    assert_eq!(encode_get_headers(&empty), vec![0u8; 36]);
    assert_eq!(decode_get_headers(&[0u8; 36]), Some(empty));
    // A byte too few or too many, and a number that the bytes do not keep.
    assert_eq!(decode_get_headers(&payload[..payload.len() - 1]), None);
    let mut long = payload.clone();
    long.push(0);
    assert_eq!(decode_get_headers(&long), None);
    let mut lying = payload.clone();
    lying[32] = 4;
    assert_eq!(decode_get_headers(&lying), None);
    assert_eq!(decode_get_headers(&[0u8; 35]), None);
    assert_eq!(decode_get_headers(&[]), None);
}

#[test]
fn bytes_on_the_sync_protocol() {
    let store = chain(20);
    let mut state = SyncState::new();
    state.on_connected(1, PeerFlags { is_outbound: true, is_protect: false, is_whitelist: false });
    let now = 1_020_000;
    let request = |entries: usize| {
        framed(
            0,
            &encode_get_headers(&GetHeaders {
                block_locator_hashes: vec![store.main_chain[18]; entries],
                hash_stop: Byte32::zero(),
            }),
        )
    };

    // Four arbitrary bytes, twice: malformed, and the sender is banned.
    for bytes in [vec![0u8, 0, 0, 0], vec![0, 1, 2, 3]] {
        let (status, reply) = receive_sync_bytes(&bytes, &mut state, &store, 1, now);
        assert_eq!(status.code, StatusCode::ProtocolMessageIsMalformed);
        assert_eq!(status.should_ban(), Some(BAD_MESSAGE_BAN_TIME));
        assert!(reply.is_none());
    }
    // A locator of 102 entries is malformed even in a well-formed frame,
    // and even during initial block download.
    for now in [now, now + 100 * 60 * 60 * 1_000] {
        let (status, reply) =
            receive_sync_bytes(&request(MAX_LOCATOR_SIZE + 1), &mut state, &store, 1, now);
        assert_eq!(status.code, StatusCode::ProtocolMessageIsMalformed);
        assert!(reply.is_none());
        assert!(state.peers[0].unknown_header_list.is_empty());
    }
    // A payload that is no request.
    let (status, _) = receive_sync_bytes(&framed(0, &[1, 2, 3]), &mut state, &store, 1, now);
    assert_eq!(status.code, StatusCode::ProtocolMessageIsMalformed);
    // A type that the protocol does not have.
    let (status, _) = receive_sync_bytes(&framed(77, &[]), &mut state, &store, 1, now);
    assert_eq!(status.code, StatusCode::ProtocolMessageIsMalformed);
    // Another message is left alone.
    let (status, reply) = receive_sync_bytes(&framed(3, &[1, 2]), &mut state, &store, 1, now);
    assert_eq!(status.code, StatusCode::Ignored);
    assert!(reply.is_none());

    // A request at the bound is served.
    let (status, reply) = receive_sync_bytes(&request(MAX_LOCATOR_SIZE), &mut state, &store, 1, now);
    assert_eq!(status.code, StatusCode::OK);
    match reply {
        Some(GetHeadersReply::SendHeaders(headers)) => {
            assert_eq!(headers.iter().map(|h| h.number).collect::<Vec<_>>(), vec![19, 20]);
        }
        other => panic!("unexpected {:?}", other),
    }
}

#[test]
fn init_decides_before_it_writes() {
    assert_eq!(init_kind(false, false), Ok(InitKind::Initialized));
    assert_eq!(init_kind(true, false), Ok(InitKind::Initialized));
    assert_eq!(init_kind(true, true), Ok(InitKind::Reinitialized));
    assert_eq!(init_kind(false, true), Err(ExitCode::Failure));

    let default_hash = "0x9bd7".to_string();
    let advice = |hash: Option<&str>, args: &[usize]| {
        block_assembler_advice(&hash.map(|h| h.to_string()), &args.to_vec(), &default_hash)
    };
    assert_eq!(
        advice(None, &[]),
        (CodeHashChoice::Absent, Some(BlockAssemblerWarning::MiningDisabled))
    );
    assert_eq!(advice(None, &[42]), (CodeHashChoice::Default, None));
    assert_eq!(
        advice(None, &[41]),
        (CodeHashChoice::Default, Some(BlockAssemblerWarning::InvalidArg))
    );
    assert_eq!(
        advice(None, &[42, 42]),
        (CodeHashChoice::Default, Some(BlockAssemblerWarning::InvalidArg))
    );
    assert_eq!(advice(Some("0x9bd7"), &[42]), (CodeHashChoice::Given, None));
    assert_eq!(
        advice(Some("0x9bd7"), &[]),
        (CodeHashChoice::Given, Some(BlockAssemblerWarning::InvalidArg))
    );
    assert_eq!(
        advice(Some("0x9bd8"), &[42]),
        (CodeHashChoice::Given, Some(BlockAssemblerWarning::NonDefaultCodeHash))
    );
    assert_eq!(
        advice(Some("0x9bd8"), &[]),
        (CodeHashChoice::Given, Some(BlockAssemblerWarning::NonDefaultCodeHash))
    );
}

#[test]
fn chain_specification_is_checked_at_startup() {
    assert_eq!(verify_genesis(hash_of(1), hash_of(1)), Ok(()));
    assert_eq!(
        verify_genesis(hash_of(1), hash_of(2)),
        Err(SpecError::UnmatchedGenesis { expected: hash_of(1), actual: hash_of(2) })
    );
    let reserved = vec!["ckb".to_string(), "ckb_testnet".to_string()];
    assert_eq!(verify_chain_name("ckb_dev".to_string(), &reserved), Ok(()));
    assert_eq!(
        verify_chain_name("ckb_testnet".to_string(), &reserved),
        Err(SpecError::NotAllowedChainName("ckb_testnet".to_string()))
    );
    assert_eq!(verify_chain_name("ckb".to_string(), &vec![]), Ok(()));
}
