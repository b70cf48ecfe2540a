#![allow(unused_imports)]
use ckb_node_core::consensus::{Consensus, EpochExt, ProposalWindow};
use ckb_node_core::dao_utils::pack_dao_data;
use ckb_node_core::locator::{
    get_locator, get_locator_response, locate_fork_point, locate_latest_common_block,
};
use ckb_node_core::median_time::block_median_time;
use ckb_node_core::primitives::{Byte32, Capacity, Ratio};
use ckb_node_core::status::{Status, StatusCode};
use ckb_node_core::store::{BlockExt, ChainStore, StoredBlock};
use ckb_node_core::sync_types::{
    is_initial_block_download, ChainSyncState, PeerEvent, PeerFlags, PeerStatus, SyncState,
};
use ckb_node_core::synchronizer::block_process::BlockProcess;
use ckb_node_core::synchronizer::eviction::{eviction_step, ChainSyncAction};
use ckb_node_core::synchronizer::get_headers_process::{
    GetHeaders, GetHeadersProcess, GetHeadersReply,
};
use ckb_node_core::synchronizer::inflight::{
    DownloadScheduler, InflightBlocks, TimeAnalyzer, TimeQuantile,
};
use ckb_node_core::types::{
    Block, CellInput, CellOutput, Header, OutPoint, Script, Transaction,
};
use ckb_node_core::wire::{
    classify_relay_message, classify_sync_message, envelope_type, RelayMessageKind,
    SyncMessageKind,
};
use ckb_node_core::{
    BAD_MESSAGE_BAN_TIME, BLOCK_DOWNLOAD_TIMEOUT, CHAIN_SYNC_TIMEOUT,
    EVICTION_HEADERS_RESPONSE_TIME, MAX_HEADERS_LEN, MAX_LOCATOR_SIZE, MAX_TIP_AGE,
};

#[allow(dead_code)]
fn hash_of(seed: u64) -> Byte32 {
    let mut bytes = [0u8; 32];
    bytes[..8].copy_from_slice(&seed.to_le_bytes());
    bytes[8] = 0xa5;
    bytes[31] = 0x5a;
    Byte32::new(bytes)
}

#[allow(dead_code)]
fn script(args: &[u8]) -> Script {
    Script { code_hash: hash_of(0xc0de), hash_type: 0, args: args.to_vec() }
}

#[allow(dead_code)]
fn output(capacity: u64) -> CellOutput {
    CellOutput { capacity: Capacity::shannons(capacity), lock: script(&[]), type_: None }
}

#[allow(dead_code)]
fn tx(seed: u64, inputs: Vec<CellInput>, outputs: Vec<CellOutput>) -> Transaction {
    let outputs_data = outputs.iter().map(|_| Vec::new()).collect();
    Transaction {
        hash: hash_of(0x1000_0000 + seed),
        witness_hash: hash_of(0x2000_0000 + seed),
        inputs,
        outputs,
        outputs_data,
        header_deps: Vec::new(),
        witnesses: Vec::new(),
        serialized_size: 100,
    }
}

#[allow(dead_code)]
fn cellbase(number: u64, outputs: Vec<CellOutput>) -> Transaction {
    tx(0xcb00_0000 + number, vec![CellInput::new_cellbase_input(number)], outputs)
}

#[allow(dead_code)]
fn spend(seed: u64, since: u64) -> Transaction {
    tx(seed, vec![CellInput::new(OutPoint::new(hash_of(0xfeed + seed), 0), since)], vec![output(1)])
}

#[allow(dead_code)]
fn header(number: u64, hash: Byte32, parent_hash: Byte32, timestamp: u64) -> Header {
    Header {
        hash,
        parent_hash,
        number,
        timestamp,
        difficulty: 1,
        epoch: 0,
        transactions_root: Byte32::zero(),
        proposals_hash: Byte32::zero(),
        witnesses_root: Byte32::zero(),
        uncles_hash: Byte32::zero(),
        dao: Byte32::zero(),
        nonce: 0,
    }
}

#[allow(dead_code)]
fn epoch(number: u64, start_number: u64, length: u64, primary: u64, secondary: u64) -> EpochExt {
    EpochExt {
        number,
        length,
        start_number,
        primary_reward: Capacity::shannons(primary),
        secondary_reward: Capacity::shannons(secondary),
        difficulty: 1,
    }
}

#[allow(dead_code)]
fn consensus() -> Consensus {
    Consensus {
        tx_proposal_window: ProposalWindow { closest: 2, farthest: 10 },
        cellbase_maturity: 4,
        median_time_block_count: 11,
        max_block_cycles: 1_000,
        max_uncles_num: 2,
        max_block_bytes: 10_000,
        max_block_proposals_limit: 100,
        allowed_future_time: 15_000,
        genesis_epoch_ext: epoch(0, 0, 1000, 1_000_000, 100_000),
        dao_type_hash: Some(hash_of(0xda0)),
        satoshi_pubkey_hash: vec![0x62; 20],
        satoshi_cell_occupied_ratio: Ratio { numer: 6, denom: 10 },
    }
}

#[allow(dead_code)]
fn stored(h: Header) -> StoredBlock {
    StoredBlock {
        header: h,
        uncles: Vec::new(),
        proposals: Vec::new(),
        epoch: Some(epoch(0, 0, 1000, 1_000_000, 100_000)),
        next_epoch: None,
        ext: Some(BlockExt {
            total_difficulty: (h.number as u128) + 1,
            total_uncles_count: 0,
            txs_fees: Vec::new(),
        }),
        miner_lock: script(&[0xaa]),
    }
}

/// A store whose main chain has the blocks 0 to `tip`, one second apart.
#[allow(dead_code)]
fn chain(tip: u64) -> ChainStore {
    let mut store = ChainStore::new();
    let mut parent = Byte32::zero();
    for number in 0..=tip {
        let hash = hash_of(0xb10c_0000 + number);
        let mut h = header(number, hash, parent, 1_000_000 + number * 1_000);
        h.dao = pack_dao_data(
            10_000_000_000_000_000,
            Capacity::shannons(1_000_000_000),
            Capacity::shannons(1_000),
        );
        store.blocks.push(stored(h));
        store.main_chain.push(hash);
        parent = hash;
    }
    store
}

#[allow(dead_code)]
fn block_on(store: &ChainStore, transactions: Vec<Transaction>) -> Block {
    let tip = store.tip_header().unwrap();
    let mut h = header(tip.number + 1, hash_of(0xb10c_0000 + tip.number + 1), tip.hash, tip.timestamp + 1_000);
    h.dao = tip.dao;
    Block { header: h, uncles: Vec::new(), transactions, proposals: Vec::new(), serialized_size: 500 }
}

const HOUR: u64 = 60 * 60 * 1_000;

fn outbound() -> PeerFlags {
    PeerFlags { is_outbound: true, is_protect: false, is_whitelist: false }
}

fn request(locator: Vec<Byte32>) -> GetHeaders {
    GetHeaders { block_locator_hashes: locator, hash_stop: Byte32::zero() }
}

#[test]
fn locator_over_the_bound_is_malformed_and_changes_nothing() {
    let store = chain(20);
    let mut state = SyncState::new();
    state.on_connected(1, outbound());
    let message = request(vec![hash_of(1); MAX_LOCATOR_SIZE + 1]);
    // Even during initial block download, when the locator of an outbound
    // peer would be remembered.
    for now in [1_020_000, 1_020_000 + 25 * HOUR] {
        let (status, reply) = GetHeadersProcess::new(&message, &store, 1, now).execute(&mut state);
        assert_eq!(status.code, StatusCode::ProtocolMessageIsMalformed);
        assert!(reply.is_none());
        assert_eq!(status.should_ban(), Some(BAD_MESSAGE_BAN_TIME));
        assert!(state.peers[0].unknown_header_list.is_empty());
        assert_eq!(state.peers.len(), 1);
    }
    // At the bound the locator is judged by its content.
    let message = request(vec![hash_of(1); MAX_LOCATOR_SIZE]);
    let (status, _) = GetHeadersProcess::new(&message, &store, 1, 1_020_000).execute(&mut state);
    assert_eq!(status.code, StatusCode::GetHeadersMissCommonAncestors);
}

#[test]
fn ibd_gate() {
    // The tip of A is 25 hours old.
    let store = chain(20);
    let tip_time = store.tip_header().unwrap().timestamp;
    let now = tip_time + 25 * HOUR;
    let locator = vec![store.main_chain[5], store.main_chain[0]];
    let mut state = SyncState::new();
    state.on_connected(1, outbound());
    state.on_connected(2, PeerFlags::default());
    state.on_connected(3, PeerFlags { is_outbound: false, is_protect: false, is_whitelist: true });
    state.on_connected(4, PeerFlags { is_outbound: false, is_protect: true, is_whitelist: false });

    for peer in [1u64, 2, 3, 4, 9] {
        let message = request(locator.clone());
        let (status, reply) = GetHeadersProcess::new(&message, &store, peer, now).execute(&mut state);
        assert_eq!(status.code, StatusCode::Ignored);
        assert!(matches!(reply, Some(GetHeadersReply::InIbd)));
    }
    assert_eq!(state.peers[0].unknown_header_list, locator);
    assert!(state.peers[1].unknown_header_list.is_empty());
    assert_eq!(state.peers[2].unknown_header_list, locator);
    assert_eq!(state.peers[3].unknown_header_list, locator);
    assert_eq!(state.peers.len(), 4);

    // Exactly 24 hours is not yet initial block download.
    assert!(!is_initial_block_download(tip_time, tip_time + MAX_TIP_AGE));
    assert!(is_initial_block_download(tip_time, tip_time + MAX_TIP_AGE + 1));
    assert!(!is_initial_block_download(tip_time, 0));
    assert!(!is_initial_block_download(0, MAX_TIP_AGE));
}

#[test]
fn get_headers_serves_what_follows_the_common_block() {
    let store = chain(20);
    let mut state = SyncState::new();
    let now = 1_020_000;
    let numbers = |reply: Option<GetHeadersReply>| -> Vec<u64> {
        match reply {
            Some(GetHeadersReply::SendHeaders(headers)) => headers.iter().map(|h| h.number).collect(),
            other => panic!("unexpected {:?}", other),
        }
    };

    // The first entry that the main chain holds decides.
    let message = request(vec![hash_of(0x404), store.main_chain[17], store.main_chain[3]]);
    let (status, reply) = GetHeadersProcess::new(&message, &store, 1, now).execute(&mut state);
    assert_eq!(status.code, StatusCode::OK);
    assert_eq!(numbers(reply), vec![18, 19, 20]);

    // The reply ends before the stop hash.
    let mut message = request(vec![store.main_chain[10]]);
    message.hash_stop = store.main_chain[14];
    let (_, reply) = GetHeadersProcess::new(&message, &store, 1, now).execute(&mut state);
    assert_eq!(numbers(reply), vec![11, 12, 13]);

    // At the tip nothing follows.
    let message = request(vec![store.main_chain[20]]);
    let (status, reply) = GetHeadersProcess::new(&message, &store, 1, now).execute(&mut state);
    assert_eq!(status.code, StatusCode::OK);
    assert_eq!(numbers(reply), Vec::<u64>::new());

    let message = request(vec![]);
    let (status, reply) = GetHeadersProcess::new(&message, &store, 1, now).execute(&mut state);
    assert_eq!(status.code, StatusCode::GetHeadersMissCommonAncestors);
    assert!(reply.is_none());
    // A peer without a common block is banned for ten minutes.
    assert_eq!(status.should_ban(), Some(10 * 60 * 1_000));
    assert_eq!(Status::ok().should_ban(), None);
    assert_eq!(Status::ignored().should_ban(), None);
    assert_eq!(Status::new(StatusCode::Network).should_ban(), None);
}

#[test]
fn reply_is_capped_at_two_thousand_headers() {
    let store = chain(2_500);
    let headers = get_locator_response(&store, 100, &Byte32::zero());
    assert_eq!(headers.len(), MAX_HEADERS_LEN);
    assert_eq!(headers[0].number, 101);
    assert_eq!(headers[1_999].number, 2_100);
    assert_eq!(get_locator_response(&store, 2_400, &Byte32::zero()).len(), 100);
    assert_eq!(get_locator_response(&store, 2_500, &Byte32::zero()).len(), 0);
    assert_eq!(get_locator_response(&store, 9_999, &Byte32::zero()).len(), 0);
}

#[test]
fn locator_steps_double() {
    let heights = |tip: u64| -> Vec<u64> {
        let store = chain(tip);
        get_locator(&store)
            .iter()
            .map(|h| store.get_block_number(h).unwrap())
            .collect()
    };
    assert_eq!(heights(0), vec![0]);
    assert_eq!(heights(1), vec![1, 0]);
    assert_eq!(heights(2), vec![2, 1, 0]);
    assert_eq!(heights(3), vec![3, 2, 1, 0]);
    assert_eq!(heights(5), vec![5, 4, 3, 1, 0]);
    assert_eq!(heights(100), vec![100, 99, 98, 96, 92, 84, 68, 36, 0]);
    assert_eq!(heights(36 + 64), heights(100));
    assert_eq!(heights(131), vec![131, 130, 129, 127, 123, 115, 99, 67, 3, 0]);
    assert!(get_locator(&ChainStore::new()).is_empty());
    assert!(get_locator(&chain(2_500)).len() <= MAX_LOCATOR_SIZE);

    let store = chain(100);
    let locator = get_locator(&store);
    assert_eq!(locate_latest_common_block(&store, &Byte32::zero(), &locator), Some(100));
    let shorter = chain(50);
    assert_eq!(locate_latest_common_block(&shorter, &Byte32::zero(), &locator), Some(36));
}

#[test]
fn median_time_is_the_middle_timestamp() {
    let mut store = chain(20);
    let tip = store.main_chain[20];
    let none = Vec::new();
    assert_eq!(block_median_time(&none, &store, &tip, 11), Some(1_015_000));
    // Of an even number the upper middle is taken.
    assert_eq!(block_median_time(&none, &store, &tip, 4), Some(1_019_000));
    assert_eq!(block_median_time(&none, &store, &tip, 1), Some(1_020_000));
    assert_eq!(block_median_time(&none, &store, &tip, 0), None);
    // The walk ends at genesis.
    assert_eq!(block_median_time(&none, &store, &store.main_chain[2], 11), Some(1_001_000));
    assert_eq!(block_median_time(&none, &store, &hash_of(0x404), 11), None);
    // Timestamps need not ascend.
    store.blocks[20].header.timestamp = 5;
    store.blocks[19].header.timestamp = 2_000_000;
    assert_eq!(block_median_time(&none, &store, &tip, 3), Some(1_018_000));
    assert_eq!(block_median_time(&none, &store, &tip, 2), Some(2_000_000));
    // A missing ancestor leaves no median.
    store.blocks.remove(18);
    assert_eq!(block_median_time(&none, &store, &tip, 3), None);
    assert_eq!(block_median_time(&none, &store, &tip, 2), Some(2_000_000));
}

#[test]
fn fork_reconciliation() {
    // Two nodes build nine blocks each on a common genesis: A with the
    // timestamps pushed by 2, B by 1. The chain of A is the heavier.
    let build = |offset: u64, difficulty: u64| -> ChainStore {
        let mut store = chain(0);
        let mut parent = store.main_chain[0];
        let mut total = 1u128;
        for number in 1..=9u64 {
            let hash = hash_of(offset * 0x1_0000 + number);
            let mut h = header(number, hash, parent, 1_000_000 + number * 1_000 + offset);
            h.difficulty = difficulty;
            total += difficulty as u128;
            let mut block = stored(h);
            block.ext.as_mut().unwrap().total_difficulty = total;
            store.blocks.push(block);
            store.main_chain.push(hash);
            parent = hash;
        }
        store
    };
    let a = build(2, 3);
    let mut b = build(1, 2);
    let none = Vec::new();
    let median = |s: &ChainStore| block_median_time(&none, s, s.main_chain.last().unwrap(), 11);
    assert_eq!(a.tip_header().unwrap().number, b.tip_header().unwrap().number);
    assert_ne!(a.tip_header().unwrap().hash, b.tip_header().unwrap().hash);
    assert_ne!(median(&a), median(&b));

    // B finds the genesis block as the latest common block of A's locator
    // and takes the headers that follow it.
    let locator = get_locator(&b);
    let common = locate_latest_common_block(&a, &Byte32::zero(), &locator).unwrap();
    assert_eq!(common, 0);
    let headers = get_locator_response(&a, common, &Byte32::zero());
    assert_eq!(headers.len(), 9);
    let heavier = a.get_total_difficulty(&a.main_chain[9]).unwrap();
    assert!(heavier > b.get_total_difficulty(&b.main_chain[9]).unwrap());
    // B takes the blocks and moves its tip to the heavier chain.
    let lighter_tip = b.main_chain[9];
    let lighter: Vec<StoredBlock> = b.blocks[1..].to_vec();
    for h in &headers {
        b.blocks.push(a.get_block(&h.hash).unwrap().clone());
    }
    assert!(b.switch_to(&a.main_chain[9]));
    assert_eq!(b.main_chain, a.main_chain);
    // Once there, it stays.
    assert!(!b.switch_to(&a.main_chain[9]));
    assert!(!b.switch_to(&lighter_tip));
    assert_eq!(b.main_chain, a.main_chain);
    // A, given the blocks of B, stays where it is: they weigh less.
    let mut a = a;
    a.blocks.extend(lighter);
    assert_eq!(a.find_branch(&lighter_tip).unwrap().1, 0);
    assert_eq!(a.find_branch(&lighter_tip).unwrap().0.len(), 9);
    assert!(!a.switch_to(&lighter_tip));
    assert_eq!(b.main_chain, a.main_chain);
    // A block without its parent, or with a number out of step, is no
    // tip to move to.
    let mut loose = stored(header(11, hash_of(0xdead), hash_of(0x404), 0));
    loose.ext.as_mut().unwrap().total_difficulty = 1_000;
    a.blocks.push(loose);
    let mut skipping = stored(header(12, hash_of(0xbeef), a.main_chain[9], 0));
    skipping.ext.as_mut().unwrap().total_difficulty = 1_000;
    a.blocks.push(skipping);
    assert!(!a.switch_to(&hash_of(0xdead)));
    assert!(!a.switch_to(&hash_of(0xbeef)));
    assert!(!a.switch_to(&hash_of(0x404)));
    assert_eq!(b.main_chain, a.main_chain);
    // A heavier block on a block below the tip takes the tip.
    let mut fork = stored(header(8, hash_of(0xf08), a.main_chain[7], 0));
    fork.ext.as_mut().unwrap().total_difficulty = 1_000;
    a.blocks.push(fork);
    assert!(a.switch_to(&hash_of(0xf08)));
    assert_eq!(a.main_chain.len(), 9);
    assert_eq!(a.main_chain[..8], b.main_chain[..8]);
    assert_eq!(a.main_chain[8], hash_of(0xf08));
    let a = {
        let mut back = a;
        back.main_chain = b.main_chain.clone();
        back
    };
    for number in 1..=9 {
        assert_eq!(
            a.get_block(&a.main_chain[number]),
            b.get_block(&b.main_chain[number]),
        );
    }
    assert_eq!(median(&a), median(&b));
    // A sees nothing better in the chain that B had.
    assert_eq!(locate_latest_common_block(&a, &Byte32::zero(), &get_locator(&b)), Some(9));
}

#[test]
fn malformed_message() {
    // Four arbitrary bytes, twice.
    let mut state = SyncState::new();
    state.on_connected(1, outbound());
    for message in [[0u8, 0, 0, 0], [0, 1, 2, 3]] {
        let status = classify_sync_message(&message).unwrap_err();
        assert_eq!(status.code, StatusCode::ProtocolMessageIsMalformed);
        // The sender is banned for five minutes.
        assert_eq!(status.should_ban(), Some(5 * 60 * 1_000));
        assert!(classify_relay_message(&message).is_err());
    }
    state.peers[0].status = state.peers[0].status.next(PeerEvent::Ban);
    assert_eq!(state.peers[0].status, PeerStatus::Banned);
}

#[test]
fn envelope_is_length_and_type() {
    let framed = |tag: u32, payload: &[u8]| -> Vec<u8> {
        let mut bytes = ((8 + payload.len()) as u32).to_le_bytes().to_vec();
        bytes.extend_from_slice(&tag.to_le_bytes());
        bytes.extend_from_slice(payload);
        bytes
    };
    assert_eq!(envelope_type(&framed(3, b"abc")), Some(3));
    assert_eq!(envelope_type(&framed(0x0102_0304, b"")), Some(0x0102_0304));
    assert_eq!(classify_sync_message(&framed(0, b"")), Ok(SyncMessageKind::GetHeaders));
    assert_eq!(classify_sync_message(&framed(1, b"x")), Ok(SyncMessageKind::SendHeaders));
    assert_eq!(classify_sync_message(&framed(2, b"x")), Ok(SyncMessageKind::GetBlocks));
    assert_eq!(classify_sync_message(&framed(3, b"x")), Ok(SyncMessageKind::SendBlock));
    assert_eq!(classify_sync_message(&framed(4, b"")), Ok(SyncMessageKind::InIBD));
    assert!(classify_sync_message(&framed(5, b"")).is_err());
    assert_eq!(classify_relay_message(&framed(0, b"")), Ok(RelayMessageKind::CompactBlock));
    assert_eq!(classify_relay_message(&framed(5, b"")), Ok(RelayMessageKind::BlockProposal));
    assert!(classify_relay_message(&framed(6, b"")).is_err());
    // A wrong length, and too few bytes for a header.
    let mut long = framed(1, b"abc");
    long.push(0);
    assert_eq!(envelope_type(&long), None);
    assert_eq!(envelope_type(&framed(1, b"abc")[..10]), None);
    assert_eq!(envelope_type(&[8, 0, 0, 0, 1, 0, 0]), None);
    assert_eq!(envelope_type(&[]), None);
}

#[test]
fn peer_stages() {
    type S = PeerStatus;
    type E = PeerEvent;
    assert_eq!(S::Unknown.next(E::Handshake), S::HandshakeSent);
    assert_eq!(S::Unknown.next(E::HeadersReceived), S::Unknown);
    assert_eq!(S::HandshakeSent.next(E::HeadersReceived), S::Headers);
    assert_eq!(S::HandshakeSent.next(E::BlockReceived), S::HandshakeSent);
    assert_eq!(S::HandshakeSent.next(E::Timeout), S::HandshakeSent);
    assert_eq!(S::Headers.next(E::BlockReceived), S::Blocks);
    assert_eq!(S::Blocks.next(E::HeadersReceived), S::Headers);
    assert_eq!(S::Headers.next(E::Timeout), S::Stalled);
    assert_eq!(S::Blocks.next(E::Timeout), S::Stalled);
    assert_eq!(S::Stalled.next(E::Timeout), S::Stalled);
    assert_eq!(S::Stalled.next(E::HeadersReceived), S::Headers);
    assert_eq!(S::Stalled.next(E::BlockReceived), S::Blocks);
    assert_eq!(S::Blocks.next(E::Handshake), S::Blocks);
    let stages = [S::Unknown, S::HandshakeSent, S::Headers, S::Blocks, S::Stalled, S::Banned];
    let events = [E::Handshake, E::HeadersReceived, E::BlockReceived, E::Timeout, E::Ban];
    for status in stages {
        assert_eq!(status.next(E::Ban), S::Banned);
        for event in events {
            assert_eq!(S::Banned.next(event), S::Banned);
        }
    }
}

#[test]
fn three_strikes_ban() {
    let mut state = SyncState::new();
    state.on_connected(1, outbound());
    state.on_connected(1, PeerFlags::default());
    assert_eq!(state.peers.len(), 1);
    assert_eq!(state.get_flag(1), Some(outbound()));
    assert_eq!(state.get_flag(2), None);
    assert_eq!(state.punish(2), None);
    assert_eq!(state.punish(1), None);
    assert_eq!(state.punish(1), None);
    assert_eq!(state.peers[0].status, PeerStatus::HandshakeSent);
    assert_eq!(state.punish(1), Some(BAD_MESSAGE_BAN_TIME));
    assert_eq!(state.peers[0].status, PeerStatus::Banned);
    assert_eq!(state.peers[0].misbehavior, 3);
    state.peers[0].misbehavior = u32::MAX;
    assert_eq!(state.punish(1), Some(BAD_MESSAGE_BAN_TIME));
    assert_eq!(state.peers[0].misbehavior, u32::MAX);
}

#[test]
fn blocks_in_flight() {
    let mut inflight = InflightBlocks::new();
    let mut peer = DownloadScheduler::new(1);
    peer.task_count = 2;
    assert!(inflight.insert(&peer, hash_of(1), 1_000));
    assert!(!inflight.insert(&peer, hash_of(1), 1_001));
    assert!(inflight.insert(&peer, hash_of(2), 2_000));
    // The peer has its two blocks; another peer has room.
    assert!(!inflight.insert(&peer, hash_of(3), 3_000));
    assert!(inflight.insert(&DownloadScheduler::new(2), hash_of(3), 3_000));
    assert_eq!(inflight.peer_inflight_count(1), 2);
    assert_eq!(inflight.peer_inflight_count(2), 1);

    // A block that was not asked for is dropped.
    let block = |seed: u64| Block {
        header: header(1, hash_of(seed), Byte32::zero(), 0),
        uncles: Vec::new(),
        transactions: Vec::new(),
        proposals: Vec::new(),
        serialized_size: 0,
    };
    let unrequested = block(9);
    assert_eq!(BlockProcess::new(&unrequested, 1, 5_000).execute(&mut inflight), None);
    let asked = block(2);
    assert_eq!(BlockProcess::new(&asked, 1, 5_000).execute(&mut inflight), Some((1, 3_000)));
    assert_eq!(BlockProcess::new(&asked, 1, 5_000).execute(&mut inflight), None);

    // Thirty seconds is not yet a timeout.
    assert!(inflight.prune(1_000 + BLOCK_DOWNLOAD_TIMEOUT).is_empty());
    let gone = inflight.prune(1_001 + BLOCK_DOWNLOAD_TIMEOUT);
    assert_eq!(gone.len(), 1);
    assert_eq!((gone[0].hash, gone[0].peer), (hash_of(1), 1));
    assert_eq!(inflight.entries.len(), 1);
    // The block may be asked for again.
    assert!(inflight.insert(&DownloadScheduler::new(2), hash_of(1), 40_000));
}

#[test]
fn download_is_held_back_at_the_window() {
    let mut inflight = InflightBlocks::new();
    for peer in 0..64u64 {
        let mut scheduler = DownloadScheduler::new(peer);
        scheduler.task_count = 128;
        for k in 0..128u64 {
            assert!(inflight.insert(&scheduler, hash_of(peer * 1_000 + k), 0));
        }
    }
    assert_eq!(inflight.entries.len(), 8_192);
    assert!(!inflight.insert(&DownloadScheduler::new(99), hash_of(999_999), 0));
}

#[test]
fn batch_adapts_within_sixteen_and_a_hundred_and_twenty_eight() {
    let mut s = DownloadScheduler::new(1);
    assert_eq!(s.task_count, 16);
    s.adjust(TimeQuantile::NormalToUpper);
    assert_eq!(s.task_count, 16);
    s.adjust(TimeQuantile::UpperToMax);
    assert_eq!(s.task_count, 16);
    s.adjust(TimeQuantile::MinToFast);
    assert_eq!(s.task_count, 18);
    s.adjust(TimeQuantile::FastToNormal);
    assert_eq!(s.task_count, 19);
    s.adjust(TimeQuantile::UpperToMax);
    assert_eq!(s.task_count, 17);
    s.adjust(TimeQuantile::NormalToUpper);
    assert_eq!(s.task_count, 16);
    s.task_count = 127;
    s.adjust(TimeQuantile::MinToFast);
    assert_eq!(s.task_count, 128);
    s.adjust(TimeQuantile::FastToNormal);
    assert_eq!(s.task_count, 128);
}

#[test]
fn time_analyzer_blends_thresholds_every_512_samples() {
    let mut analyzer = TimeAnalyzer::new();
    assert_eq!(analyzer.push_time(1_000), TimeQuantile::MinToFast);
    assert_eq!(analyzer.push_time(1_001), TimeQuantile::FastToNormal);
    assert_eq!(analyzer.push_time(1_250), TimeQuantile::FastToNormal);
    assert_eq!(analyzer.push_time(1_251), TimeQuantile::NormalToUpper);
    assert_eq!(analyzer.push_time(1_500), TimeQuantile::NormalToUpper);
    assert_eq!(analyzer.push_time(1_501), TimeQuantile::UpperToMax);
    // Fill the trace with the samples 511 down to 0, in no order.
    let mut analyzer = TimeAnalyzer::new();
    for k in 0..512u64 {
        analyzer.push_time((k * 37) % 512);
    }
    assert_eq!(analyzer.trace.len(), 512);
    assert_eq!((analyzer.fast_time, analyzer.normal_time, analyzer.low_time), (1_000, 1_250, 1_500));
    // The next sample sorts the trace: the marks are 170, 409 and 460.
    assert_eq!(analyzer.push_time(600), TimeQuantile::FastToNormal);
    assert_eq!(analyzer.trace, vec![600]);
    assert_eq!(
        (analyzer.fast_time, analyzer.normal_time, analyzer.low_time),
        ((1_000 + 170) / 2, (1_250 + 409) / 2, (1_500 + 460) / 2)
    );
}

#[test]
fn chain_sync_timeout() {
    let tip = header(20, hash_of(20), hash_of(19), 0);
    let idle = ChainSyncState { timeout: 0, work_header: None, total_difficulty: None, sent_getheaders: false };
    let now = 1_000_000;

    // Inbound peers are not watched.
    assert_eq!(
        eviction_step(idle, PeerFlags::default(), None, tip, 21, now),
        (idle, ChainSyncAction::Nothing)
    );
    // A lagging outbound peer gets twelve minutes.
    let (watch, action) = eviction_step(idle, outbound(), Some(10), tip, 21, now);
    assert_eq!(action, ChainSyncAction::Nothing);
    assert_eq!(
        watch,
        ChainSyncState {
            timeout: now + CHAIN_SYNC_TIMEOUT,
            work_header: Some(tip),
            total_difficulty: Some(21),
            sent_getheaders: false
        }
    );
    // Nothing happens until the deadline has passed.
    assert_eq!(
        eviction_step(watch, outbound(), Some(10), tip, 25, now + CHAIN_SYNC_TIMEOUT),
        (watch, ChainSyncAction::Nothing)
    );
    // Then headers are asked for once, with two minutes to answer.
    let late = now + CHAIN_SYNC_TIMEOUT + 1;
    let (asked, action) = eviction_step(watch, outbound(), Some(10), tip, 25, late);
    assert_eq!(action, ChainSyncAction::SendGetHeaders);
    assert_eq!(asked.timeout, late + EVICTION_HEADERS_RESPONSE_TIME);
    assert!(asked.sent_getheaders);
    // After that the peer is evicted, unless it is protected.
    let later = late + EVICTION_HEADERS_RESPONSE_TIME + 1;
    assert_eq!(eviction_step(asked, outbound(), Some(10), tip, 25, later).1, ChainSyncAction::Evict);
    let mut protected = outbound();
    protected.is_protect = true;
    assert_eq!(
        eviction_step(asked, protected, Some(10), tip, 25, later),
        (asked, ChainSyncAction::Nothing)
    );
    // A peer that reaches the chain it was measured against gets a new
    // deadline; one that catches up is released.
    let (renewed, _) = eviction_step(asked, outbound(), Some(21), tip, 25, later);
    assert_eq!(renewed.timeout, later + CHAIN_SYNC_TIMEOUT);
    assert_eq!(renewed.total_difficulty, Some(25));
    assert_eq!(eviction_step(asked, outbound(), Some(25), tip, 25, later), (idle, ChainSyncAction::Nothing));
}

#[test]
fn common_block_is_the_fork_point_where_the_fork_is_known() {
    let main = |n: u64| hash_of(0xb10c_0000 + n);
    let side = |n: u64| hash_of(0x51de_0000 + n);
    // A side chain that leaves the main chain after block 6.
    let mut store = chain(9);
    let mut parent = main(6);
    for number in 7..=10 {
        store.blocks.push(stored(header(number, side(number), parent, 2_000_000 + number)));
        parent = side(number);
    }
    // The locator of the side chain skips the fork point.
    let locator = vec![side(10), side(9), side(7), main(3), main(0)];
    assert_eq!(locate_latest_common_block(&store, &Byte32::zero(), &locator), Some(6));
    assert_eq!(locate_fork_point(&store, &side(10)), Some(6));
    assert_eq!(locate_fork_point(&store, &main(4)), Some(4));
    assert_eq!(locate_fork_point(&store, &hash_of(1)), None);
    // A node that does not hold the fork answers with the first common
    // entry.
    assert_eq!(locate_latest_common_block(&chain(9), &Byte32::zero(), &locator), Some(3));
    // The first entry is on the main chain: nothing to look for.
    assert_eq!(
        locate_latest_common_block(&store, &Byte32::zero(), &vec![main(5), main(0)]),
        Some(5)
    );
    // Only genesis is shared.
    assert_eq!(
        locate_latest_common_block(&store, &Byte32::zero(), &vec![side(9), main(0)]),
        Some(0)
    );
    assert_eq!(locate_latest_common_block(&store, &Byte32::zero(), &vec![hash_of(77)]), None);
    assert_eq!(locate_latest_common_block(&store, &Byte32::zero(), &Vec::new()), None);
}
