#![allow(unused_imports)]
use ckb_node_core::cell::{resolve_transaction, LiveCells};
use ckb_node_core::consensus::{Consensus, EpochExt, ProposalWindow};
use ckb_node_core::dao_utils::pack_dao_data;
use ckb_node_core::error::TransactionError;
use ckb_node_core::primitives::{Byte32, Capacity, Ratio};
use ckb_node_core::store::{BlockExt, ChainStore, StoredBlock};
use ckb_node_core::synchronizer::block_process::{process_new_block, Arrival, BlockProcess};
use ckb_node_core::synchronizer::inflight::{DownloadScheduler, InflightBlocks};
use ckb_node_core::synchronizer::orphan_block_pool::OrphanBlockPool;
use ckb_node_core::tx_verifier::{CellMeta, TransactionInfo};
use ckb_node_core::types::{
    Block, CellInput, CellOutput, Header, OutPoint, Script, Transaction,
};

#[allow(dead_code)]
fn hash_of(seed: u64) -> Byte32 {
    let mut bytes = [0u8; 32];
    bytes[..8].copy_from_slice(&seed.to_le_bytes());
    bytes[8] = 0xa5;
    bytes[31] = 0x5a;
    Byte32::new(bytes)
}

#[allow(dead_code)]
fn script(args: &[u8]) -> Script {
    Script { code_hash: hash_of(0xc0de), hash_type: 0, args: args.to_vec() }
}

#[allow(dead_code)]
fn output(capacity: u64) -> CellOutput {
    CellOutput { capacity: Capacity::shannons(capacity), lock: script(&[]), type_: None }
}

#[allow(dead_code)]
fn tx(seed: u64, inputs: Vec<CellInput>, outputs: Vec<CellOutput>) -> Transaction {
    let outputs_data = outputs.iter().map(|_| Vec::new()).collect();
    Transaction {
        hash: hash_of(0x1000_0000 + seed),
        witness_hash: hash_of(0x2000_0000 + seed),
        inputs,
        outputs,
        outputs_data,
        header_deps: Vec::new(),
        witnesses: Vec::new(),
        serialized_size: 100,
    }
}

#[allow(dead_code)]
fn cellbase(number: u64, outputs: Vec<CellOutput>) -> Transaction {
    tx(0xcb00_0000 + number, vec![CellInput::new_cellbase_input(number)], outputs)
}

#[allow(dead_code)]
fn spend(seed: u64, since: u64) -> Transaction {
    tx(seed, vec![CellInput::new(OutPoint::new(hash_of(0xfeed + seed), 0), since)], vec![output(1)])
}

#[allow(dead_code)]
fn header(number: u64, hash: Byte32, parent_hash: Byte32, timestamp: u64) -> Header {
    Header {
        hash,
        parent_hash,
        number,
        timestamp,
        difficulty: 1,
        epoch: 0,
        transactions_root: Byte32::zero(),
        proposals_hash: Byte32::zero(),
        witnesses_root: Byte32::zero(),
        uncles_hash: Byte32::zero(),
        dao: Byte32::zero(),
        nonce: 0,
    }
}

#[allow(dead_code)]
fn epoch(number: u64, start_number: u64, length: u64, primary: u64, secondary: u64) -> EpochExt {
    EpochExt {
        number,
        length,
        start_number,
        primary_reward: Capacity::shannons(primary),
        secondary_reward: Capacity::shannons(secondary),
        difficulty: 1,
    }
}

#[allow(dead_code)]
fn consensus() -> Consensus {
    Consensus {
        tx_proposal_window: ProposalWindow { closest: 2, farthest: 10 },
        cellbase_maturity: 4,
        median_time_block_count: 11,
        max_block_cycles: 1_000,
        max_uncles_num: 2,
        max_block_bytes: 10_000,
        max_block_proposals_limit: 100,
        allowed_future_time: 15_000,
        genesis_epoch_ext: epoch(0, 0, 1000, 1_000_000, 100_000),
        dao_type_hash: Some(hash_of(0xda0)),
        satoshi_pubkey_hash: vec![0x62; 20],
        satoshi_cell_occupied_ratio: Ratio { numer: 6, denom: 10 },
    }
}

#[allow(dead_code)]
fn stored(h: Header) -> StoredBlock {
    StoredBlock {
        header: h,
        uncles: Vec::new(),
        proposals: Vec::new(),
        epoch: Some(epoch(0, 0, 1000, 1_000_000, 100_000)),
        next_epoch: None,
        ext: Some(BlockExt {
            total_difficulty: (h.number as u128) + 1,
            total_uncles_count: 0,
            txs_fees: Vec::new(),
        }),
        miner_lock: script(&[0xaa]),
    }
}

/// A store whose main chain has the blocks 0 to `tip`, one second apart.
#[allow(dead_code)]
fn chain(tip: u64) -> ChainStore {
    let mut store = ChainStore::new();
    let mut parent = Byte32::zero();
    for number in 0..=tip {
        let hash = hash_of(0xb10c_0000 + number);
        let mut h = header(number, hash, parent, 1_000_000 + number * 1_000);
        h.dao = pack_dao_data(
            10_000_000_000_000_000,
            Capacity::shannons(1_000_000_000),
            Capacity::shannons(1_000),
        );
        store.blocks.push(stored(h));
        store.main_chain.push(hash);
        parent = hash;
    }
    store
}

#[allow(dead_code)]
fn block_on(store: &ChainStore, transactions: Vec<Transaction>) -> Block {
    let tip = store.tip_header().unwrap();
    let mut h = header(tip.number + 1, hash_of(0xb10c_0000 + tip.number + 1), tip.hash, tip.timestamp + 1_000);
    h.dao = tip.dao;
    Block { header: h, uncles: Vec::new(), transactions, proposals: Vec::new(), serialized_size: 500 }
}

fn block(number: u64, hash: Byte32, parent: Byte32) -> Block {
    Block {
        header: header(number, hash, parent, 1_000_000 + number * 1_000),
        uncles: Vec::new(),
        transactions: vec![cellbase(number, vec![output(1)])],
        proposals: Vec::new(),
        serialized_size: 300,
    }
}

/// What a node does with a block: it joins the chain if its parent is the
/// tip, and waits as an orphan otherwise.
fn accept(store: &mut ChainStore, orphans: &mut OrphanBlockPool, block: Block) {
    match process_new_block(store, orphans, block) {
        Arrival::Accept { block, descendants } => {
            for b in std::iter::once(block).chain(descendants) {
                assert_eq!(store.tip_header().unwrap().hash, b.header.parent_hash);
                store.blocks.push(stored(b.header));
                store.main_chain.push(b.header.hash);
            }
        }
        Arrival::Waits | Arrival::AlreadyWaiting => {}
    }
}

#[test]
fn orphan_delay() {
    let mut store = chain(0);
    let mut blocks = Vec::new();
    let mut parent = store.main_chain[0];
    for number in 1..=5u64 {
        let hash = hash_of(0x0b00 + number);
        blocks.push(block(number, hash, parent));
        parent = hash;
    }
    // The five headers arrive: the five blocks are asked of the peer.
    let mut inflight = InflightBlocks::new();
    let peer = DownloadScheduler::new(1);
    for b in &blocks {
        assert!(inflight.insert(&peer, b.header.hash, 1_000));
    }
    // The bodies of all blocks but the first arrive, the last first.
    let mut orphans = OrphanBlockPool::new();
    let first = blocks.remove(0);
    for b in blocks.into_iter().rev() {
        assert!(BlockProcess::new(&b, 1, 2_000).execute(&mut inflight).is_some());
        accept(&mut store, &mut orphans, b);
    }
    assert_eq!(store.tip_header().unwrap().number, 0);
    assert_eq!(orphans.len(), 4);
    // The first block is still asked for.
    assert_eq!(inflight.entries.len(), 1);
    assert_eq!(inflight.entries[0].hash, first.header.hash);
    // It arrives, and the tip advances to 5.
    assert!(BlockProcess::new(&first, 1, 3_000).execute(&mut inflight).is_some());
    accept(&mut store, &mut orphans, first);
    assert_eq!(store.tip_header().unwrap().number, 5);
    assert_eq!(orphans.len(), 0);
    assert!(inflight.entries.is_empty());
}

#[test]
fn orphans_leave_with_their_descendants_only() {
    let mut pool = OrphanBlockPool::new();
    // a <- b <- c and a <- d; x <- y waits for another parent.
    let (a, b, c, d, x, y) = (hash_of(1), hash_of(2), hash_of(3), hash_of(4), hash_of(5), hash_of(6));
    pool.insert(block(3, c, b));
    pool.insert(block(9, y, x));
    pool.insert(block(2, d, a));
    pool.insert(block(2, b, a));
    let released: Vec<Byte32> =
        pool.remove_blocks_by_parent(&a).iter().map(|b| b.header.hash).collect();
    assert_eq!(released, vec![d, b, c]);
    assert_eq!(pool.len(), 1);
    assert_eq!(pool.blocks[0].header.hash, y);
    assert!(pool.remove_blocks_by_parent(&a).is_empty());
    assert!(pool.remove_blocks_by_parent(&y).is_empty());
    assert_eq!(pool.remove_blocks_by_parent(&x).len(), 1);
    assert_eq!(pool.len(), 0);
}

fn live_cell(seed: u64, index: u32) -> CellMeta {
    CellMeta {
        cell_output: output(seed),
        out_point: OutPoint::new(hash_of(seed), index),
        transaction_info: Some(TransactionInfo {
            block_hash: hash_of(0xb10c_0003),
            block_number: 3,
            block_epoch: 0,
            index: 1,
        }),
        data_bytes: 0,
    }
}

fn spending(seed: u64, out_points: &[(u64, u32)]) -> Transaction {
    tx(
        seed,
        out_points.iter().map(|(s, i)| CellInput::new(OutPoint::new(hash_of(*s), *i), 0)).collect(),
        vec![output(1)],
    )
}

#[test]
fn inputs_resolve_to_live_cells() {
    let store = chain(5);
    let mut live = LiveCells::new();
    for (seed, index) in [(1, 0), (1, 1), (2, 0), (3, 0)] {
        live.insert(live_cell(seed, index));
    }
    let mut seen = Vec::new();

    let first = spending(10, &[(2, 0), (1, 1)]);
    let rtx = resolve_transaction(&first, &mut seen, &mut live, &store).unwrap();
    assert_eq!(rtx.resolved_inputs, vec![live_cell(2, 0), live_cell(1, 1)]);
    assert!(std::ptr::eq(rtx.transaction, &first));
    assert_eq!(seen, vec![OutPoint::new(hash_of(2), 0), OutPoint::new(hash_of(1), 1)]);
    assert_eq!(live.slots, vec![Some(live_cell(1, 0)), None, None, Some(live_cell(3, 0))]);

    // What the block spent already cannot be spent again.
    let again = spending(11, &[(3, 0), (2, 0)]);
    assert_eq!(
        resolve_transaction(&again, &mut seen, &mut live, &store).err(),
        Some(TransactionError::DoubleSpend)
    );
    // Nor twice within one transaction.
    let twice = spending(12, &[(3, 0), (3, 0)]);
    assert_eq!(
        resolve_transaction(&twice, &mut seen, &mut live, &store).err(),
        Some(TransactionError::DoubleSpend)
    );
    // A cell spent by an earlier block is dead; an unknown one is unknown.
    let mut fresh_seen = Vec::new();
    assert_eq!(
        resolve_transaction(&again, &mut fresh_seen, &mut live, &store).err(),
        Some(TransactionError::DeadOrUnknownCell)
    );
    let unknown = spending(13, &[(9, 9)]);
    assert_eq!(
        resolve_transaction(&unknown, &mut seen, &mut live, &store).err(),
        Some(TransactionError::DeadOrUnknownCell)
    );
    // A failure changes nothing.
    assert_eq!(seen.len(), 2);
    assert!(fresh_seen.is_empty());
    assert_eq!(live.slots, vec![Some(live_cell(1, 0)), None, None, Some(live_cell(3, 0))]);

    // Header dependencies must be on the main chain.
    let mut with_dep = spending(14, &[(3, 0)]);
    with_dep.header_deps = vec![store.main_chain[2], hash_of(0x404)];
    assert_eq!(
        resolve_transaction(&with_dep, &mut seen, &mut live, &store).err(),
        Some(TransactionError::InvalidHeaderDep)
    );
    with_dep.header_deps.pop();
    assert!(resolve_transaction(&with_dep, &mut seen, &mut live, &store).is_ok());
    assert_eq!(live.slots[3], None);

    // The cellbase spends nothing.
    let base = cellbase(6, vec![output(1)]);
    let rtx = resolve_transaction(&base, &mut seen, &mut live, &store).unwrap();
    assert!(rtx.resolved_inputs.is_empty());
    assert_eq!(seen.len(), 3);
}

#[test]
fn a_block_waits_for_its_parent_once() {
    let store = chain(2);
    let tip = store.main_chain[2];
    let mut orphans = OrphanBlockPool::new();
    let (a, b, c) = (hash_of(0x0a), hash_of(0x0b), hash_of(0x0c));

    // c follows b, which follows a, which follows the tip.
    assert!(matches!(process_new_block(&store, &mut orphans, block(5, c, b)), Arrival::Waits));
    assert!(orphans.contains(&c));
    assert!(!orphans.contains(&b));
    assert!(matches!(
        process_new_block(&store, &mut orphans, block(5, c, b)),
        Arrival::AlreadyWaiting
    ));
    assert_eq!(orphans.len(), 1);
    assert!(matches!(process_new_block(&store, &mut orphans, block(4, b, a)), Arrival::Waits));
    assert_eq!(orphans.len(), 2);

    match process_new_block(&store, &mut orphans, block(3, a, tip)) {
        Arrival::Accept { block, descendants } => {
            assert_eq!(block.header.hash, a);
            let hashes: Vec<Byte32> = descendants.iter().map(|d| d.header.hash).collect();
            assert_eq!(hashes, vec![b, c]);
        }
        other => panic!("the parent is the tip: {:?}", other),
    }
    assert_eq!(orphans.len(), 0);

    // A block on a stored block that is not the tip is accepted as well.
    match process_new_block(&store, &mut orphans, block(2, hash_of(0x0d), store.main_chain[1])) {
        Arrival::Accept { descendants, .. } => assert!(descendants.is_empty()),
        other => panic!("the parent is stored: {:?}", other),
    }
}

#[test]
fn a_full_pool_lets_go_of_the_block_that_waited_longest() {
    let mut pool = OrphanBlockPool::with_capacity(2);
    pool.insert(block(2, hash_of(2), hash_of(1)));
    pool.insert(block(3, hash_of(3), hash_of(2)));
    assert_eq!(pool.len(), 2);
    pool.insert(block(4, hash_of(4), hash_of(3)));
    assert_eq!(pool.len(), 2);
    assert!(!pool.contains(&hash_of(2)));
    assert!(pool.contains(&hash_of(3)));
    assert!(pool.contains(&hash_of(4)));

    let released: Vec<Byte32> =
        pool.remove_blocks_by_parent(&hash_of(2)).iter().map(|b| b.header.hash).collect();
    assert_eq!(released, vec![hash_of(3), hash_of(4)]);
    assert_eq!(pool.len(), 0);
    assert_eq!(pool.capacity, 2);

    let mut none = OrphanBlockPool::with_capacity(0);
    none.insert(block(2, hash_of(2), hash_of(1)));
    assert_eq!(none.len(), 0);
    assert_eq!(OrphanBlockPool::new().capacity, usize::MAX);
}
