#![allow(unused_imports)]
use ckb_node_core::consensus::{
    Consensus, EpochExt, EpochNumberWithFraction, ProposalWindow, DEFAULT_TX_PROPOSAL_WINDOW,
};
use ckb_node_core::dao_utils::pack_dao_data;
use ckb_node_core::error::TransactionError;
use ckb_node_core::lru::CycleCache;
use ckb_node_core::primitives::{Byte32, Capacity, Ratio};
use ckb_node_core::since::{
    since_from_absolute_block_number, since_from_absolute_epoch_number,
    since_from_absolute_timestamp, since_from_relative_block_number,
    since_from_relative_epoch_number, since_from_relative_timestamp, Since, SinceMetric,
    FLAG_SINCE_BLOCK_NUMBER, FLAG_SINCE_EPOCH_NUMBER, FLAG_SINCE_RELATIVE, FLAG_SINCE_TIMESTAMP,
};
use ckb_node_core::sorting::{median, sorted_copy};
use ckb_node_core::specs::{
    node_ports, BlockRelayBasic, BlockSyncDuplicatedAndReconnect, BlockSyncForks,
    BlockSyncFromOne, BlockSyncOrphanBlocks, BootstrapCellbase, CellbaseMaturity, CyclesLimit,
    DifferentTxsWithSameInput, Disconnect, IBDProcess, IndexerBasic, InvalidLocatorSize,
    MalformedMessage, PoolLimits, PoolReconcile, PoolResurrect, Setup, SizeLimit, SyncTimeout,
    TemplateSizeLimit, TestProtocol, ValidSince, PROTOCOL_RELAY, PROTOCOL_SYNC,
};
use ckb_node_core::store::{BlockExt, ChainStore, StoredBlock};
use ckb_node_core::tx_verifier::{
    CellMeta, ContextualTransactionVerifier, ResolvedTransaction, TransactionInfo,
};
use ckb_node_core::types::{
    Block, CellInput, CellOutput, Header, OutPoint, Script, Transaction,
};

#[allow(dead_code)]
fn hash_of(seed: u64) -> Byte32 {
    let mut bytes = [0u8; 32];
    bytes[..8].copy_from_slice(&seed.to_le_bytes());
    bytes[8] = 0xa5;
    bytes[31] = 0x5a;
    Byte32::new(bytes)
}

#[allow(dead_code)]
fn script(args: &[u8]) -> Script {
    Script { code_hash: hash_of(0xc0de), hash_type: 0, args: args.to_vec() }
}

#[allow(dead_code)]
fn output(capacity: u64) -> CellOutput {
    CellOutput { capacity: Capacity::shannons(capacity), lock: script(&[]), type_: None }
}

#[allow(dead_code)]
fn tx(seed: u64, inputs: Vec<CellInput>, outputs: Vec<CellOutput>) -> Transaction {
    let outputs_data = outputs.iter().map(|_| Vec::new()).collect();
    Transaction {
        hash: hash_of(0x1000_0000 + seed),
        witness_hash: hash_of(0x2000_0000 + seed),
        inputs,
        outputs,
        outputs_data,
        header_deps: Vec::new(),
        witnesses: Vec::new(),
        serialized_size: 100,
    }
}

#[allow(dead_code)]
fn cellbase(number: u64, outputs: Vec<CellOutput>) -> Transaction {
    tx(0xcb00_0000 + number, vec![CellInput::new_cellbase_input(number)], outputs)
}

#[allow(dead_code)]
fn spend(seed: u64, since: u64) -> Transaction {
    tx(seed, vec![CellInput::new(OutPoint::new(hash_of(0xfeed + seed), 0), since)], vec![output(1)])
}

#[allow(dead_code)]
fn header(number: u64, hash: Byte32, parent_hash: Byte32, timestamp: u64) -> Header {
    Header {
        hash,
        parent_hash,
        number,
        timestamp,
        difficulty: 1,
        epoch: 0,
        transactions_root: Byte32::zero(),
        proposals_hash: Byte32::zero(),
        witnesses_root: Byte32::zero(),
        uncles_hash: Byte32::zero(),
        dao: Byte32::zero(),
        nonce: 0,
    }
}

#[allow(dead_code)]
fn epoch(number: u64, start_number: u64, length: u64, primary: u64, secondary: u64) -> EpochExt {
    EpochExt {
        number,
        length,
        start_number,
        primary_reward: Capacity::shannons(primary),
        secondary_reward: Capacity::shannons(secondary),
        difficulty: 1,
    }
}

#[allow(dead_code)]
fn consensus() -> Consensus {
    Consensus {
        tx_proposal_window: ProposalWindow { closest: 2, farthest: 10 },
        cellbase_maturity: 4,
        median_time_block_count: 11,
        max_block_cycles: 1_000,
        max_uncles_num: 2,
        max_block_bytes: 10_000,
        max_block_proposals_limit: 100,
        allowed_future_time: 15_000,
        genesis_epoch_ext: epoch(0, 0, 1000, 1_000_000, 100_000),
        dao_type_hash: Some(hash_of(0xda0)),
        satoshi_pubkey_hash: vec![0x62; 20],
        satoshi_cell_occupied_ratio: Ratio { numer: 6, denom: 10 },
    }
}

#[allow(dead_code)]
fn stored(h: Header) -> StoredBlock {
    StoredBlock {
        header: h,
        uncles: Vec::new(),
        proposals: Vec::new(),
        epoch: Some(epoch(0, 0, 1000, 1_000_000, 100_000)),
        next_epoch: None,
        ext: Some(BlockExt {
            total_difficulty: (h.number as u128) + 1,
            total_uncles_count: 0,
            txs_fees: Vec::new(),
        }),
        miner_lock: script(&[0xaa]),
    }
}

/// A store whose main chain has the blocks 0 to `tip`, one second apart.
#[allow(dead_code)]
fn chain(tip: u64) -> ChainStore {
    let mut store = ChainStore::new();
    let mut parent = Byte32::zero();
    for number in 0..=tip {
        let hash = hash_of(0xb10c_0000 + number);
        let mut h = header(number, hash, parent, 1_000_000 + number * 1_000);
        h.dao = pack_dao_data(
            10_000_000_000_000_000,
            Capacity::shannons(1_000_000_000),
            Capacity::shannons(1_000),
        );
        store.blocks.push(stored(h));
        store.main_chain.push(hash);
        parent = hash;
    }
    store
}

#[allow(dead_code)]
fn block_on(store: &ChainStore, transactions: Vec<Transaction>) -> Block {
    let tip = store.tip_header().unwrap();
    let mut h = header(tip.number + 1, hash_of(0xb10c_0000 + tip.number + 1), tip.hash, tip.timestamp + 1_000);
    h.dao = tip.dao;
    Block { header: h, uncles: Vec::new(), transactions, proposals: Vec::new(), serialized_size: 500 }
}

#[test]
fn since_flags_and_values() {
    assert_eq!(FLAG_SINCE_RELATIVE, 1 << 63);
    assert_eq!(FLAG_SINCE_BLOCK_NUMBER, 0);
    assert_eq!(FLAG_SINCE_EPOCH_NUMBER, 1 << 61);
    assert_eq!(FLAG_SINCE_TIMESTAMP, 1 << 62);
    assert_eq!(since_from_absolute_block_number(7), 7);
    assert_eq!(since_from_relative_block_number(7), (1 << 63) | 7);
    assert_eq!(since_from_absolute_epoch_number(7), (1 << 61) | 7);
    assert_eq!(since_from_relative_epoch_number(7), (1 << 63) | (1 << 61) | 7);
    assert_eq!(since_from_absolute_timestamp(7), (1 << 62) | 7);
    assert_eq!(since_from_relative_timestamp(7), (1 << 63) | (1 << 62) | 7);

    let top = (1u64 << 61) - 1;
    assert_eq!(Since(top).extract_metric(), Some(SinceMetric::BlockNumber(top)));
    assert!(Since(top).is_absolute() && !Since(top).is_relative());
    assert_eq!(
        Since(since_from_relative_epoch_number(5)).extract_metric(),
        Some(SinceMetric::EpochNumber(5))
    );
    assert!(Since(since_from_relative_epoch_number(5)).is_relative());
    assert_eq!(
        Since(since_from_absolute_timestamp(top)).extract_metric(),
        Some(SinceMetric::Timestamp(top))
    );
    // Both metric bits set name no metric.
    assert_eq!(Since((3 << 61) | 5).extract_metric(), None);
    assert_eq!(Since((7 << 61) | 5).extract_metric(), None);
}

#[test]
fn epoch_with_fraction_packs_into_56_bits() {
    let point = EpochNumberWithFraction::new(0x12_3456, 0x789a, 0xbcde);
    assert_eq!(point.full_value(), 0x00bc_de78_9a12_3456);
    assert_eq!(EpochNumberWithFraction::from_full_value(0x00bc_de78_9a12_3456), point);
    assert_eq!((point.number(), point.index(), point.length()), (0x12_3456, 0x789a, 0xbcde));
    // Bits above the 56th are not read.
    assert_eq!(EpochNumberWithFraction::from_full_value(0xff00_0000_0000_0001).number(), 1);
    let p = EpochNumberWithFraction::new;
    assert!(p(2, 0, 10).reached(&p(1, 9, 10)));
    assert!(!p(1, 9, 10).reached(&p(2, 0, 10)));
    assert!(p(1, 5, 10).reached(&p(1, 1, 2)));
    assert!(p(1, 1, 2).reached(&p(1, 5, 10)));
    assert!(!p(1, 4, 10).reached(&p(1, 1, 2)));
    assert!(p(1, 0, 0).reached(&p(1, 0, 0)));
}

fn cell(created_at: u64, index: u32) -> CellMeta {
    CellMeta {
        cell_output: output(50),
        out_point: OutPoint::new(hash_of(0xce11), 0),
        transaction_info: Some(TransactionInfo {
            block_hash: hash_of(0xb10c_0000 + created_at),
            block_number: created_at,
            block_epoch: EpochNumberWithFraction::new(created_at / 10, 0, 0).full_value(),
            index,
        }),
        data_bytes: 0,
    }
}

fn decision(store: &ChainStore, since: u64, cell: CellMeta, block_number: u64) -> Result<(), TransactionError> {
    let consensus = consensus();
    let transaction = spend(1, since);
    let rtx = ResolvedTransaction { transaction: &transaction, resolved_inputs: vec![cell] };
    let none = Vec::new();
    let parent = store.main_chain[(block_number - 1) as usize];
    let epoch = EpochNumberWithFraction::new(block_number / 10, 0, 0).full_value();
    ContextualTransactionVerifier::new(&rtx, &none, store, block_number, epoch, parent, &consensus)
        .verify()
}

#[test]
fn since_matures_by_block_number() {
    let store = chain(40);
    let immature = Err(TransactionError::Immature);
    // Absolute: not before the block of the number.
    let since = since_from_absolute_block_number(30);
    assert_eq!(decision(&store, since, cell(3, 1), 29), immature);
    assert_eq!(decision(&store, since, cell(3, 1), 30), Ok(()));
    assert_eq!(decision(&store, since, cell(3, 1), 31), Ok(()));
    // Relative: not before the block lies that far above the cell's.
    let since = since_from_relative_block_number(10);
    assert_eq!(decision(&store, since, cell(20, 1), 29), immature);
    assert_eq!(decision(&store, since, cell(20, 1), 30), Ok(()));
    assert_eq!(decision(&store, since, cell(25, 1), 30), immature);
    // A cell without origin satisfies nothing relative.
    let mut homeless = cell(3, 1);
    homeless.transaction_info = None;
    assert_eq!(decision(&store, since, homeless.clone(), 40), immature);
    assert_eq!(decision(&store, since_from_absolute_block_number(40), homeless.clone(), 40), Ok(()));
    assert_eq!(decision(&store, 0, homeless, 1), Ok(()));
    assert_eq!(decision(&store, since_from_relative_block_number(0), cell(30, 1), 30), Ok(()));
    assert_eq!(
        decision(&store, (3 << 61) | 1, cell(3, 1), 30),
        Err(TransactionError::InvalidSince)
    );
}

#[test]
fn since_matures_by_epoch_and_time() {
    let store = chain(40);
    let immature = Err(TransactionError::Immature);
    // Block 30 lies in epoch 3.
    assert_eq!(decision(&store, since_from_absolute_epoch_number(3), cell(3, 1), 30), Ok(()));
    assert_eq!(decision(&store, since_from_absolute_epoch_number(4), cell(3, 1), 30), immature);
    assert_eq!(decision(&store, since_from_relative_epoch_number(2), cell(10, 1), 30), Ok(()));
    assert_eq!(decision(&store, since_from_relative_epoch_number(3), cell(10, 1), 30), immature);

    // The median time at block 29, the parent, is the timestamp of block
    // 24: 1 024 seconds.
    assert_eq!(decision(&store, since_from_absolute_timestamp(1_024), cell(3, 1), 30), Ok(()));
    assert_eq!(decision(&store, since_from_absolute_timestamp(1_025), cell(3, 1), 30), immature);
    // The median time at the parent of the cell's block 20 is that of
    // block 14: ten seconds earlier.
    assert_eq!(decision(&store, since_from_relative_timestamp(10), cell(20, 1), 30), Ok(()));
    assert_eq!(decision(&store, since_from_relative_timestamp(11), cell(20, 1), 30), immature);
    assert_eq!(
        decision(&store, since_from_absolute_timestamp((1 << 61) - 1), cell(3, 1), 30),
        immature
    );
}

#[test]
fn cellbase_matures_after_the_maturity() {
    // The maturity of the chain is 4.
    let store = chain(40);
    let immature = Err(TransactionError::CellbaseImmaturity);
    assert_eq!(decision(&store, 0, cell(20, 0), 21), immature);
    assert_eq!(decision(&store, 0, cell(20, 0), 23), immature);
    assert_eq!(decision(&store, 0, cell(20, 0), 24), Ok(()));
    // An output of another transaction of the block is spendable at once.
    assert_eq!(decision(&store, 0, cell(20, 1), 21), Ok(()));
    // Immaturity is named before an unsatisfied since.
    assert_eq!(decision(&store, since_from_absolute_block_number(40), cell(20, 0), 21), immature);
    assert_eq!(
        decision(&store, since_from_absolute_block_number(40), cell(20, 0), 24),
        Err(TransactionError::Immature)
    );
    // A cell from above the block is immature.
    assert_eq!(decision(&store, 0, cell(30, 0), 21), immature);
}

#[test]
fn header_deps_must_be_known() {
    let store = chain(40);
    let consensus = consensus();
    let mut transaction = spend(1, 0);
    transaction.header_deps = vec![store.main_chain[3], hash_of(0xfeed)];
    let rtx = ResolvedTransaction { transaction: &transaction, resolved_inputs: vec![cell(3, 1)] };
    let parent = store.main_chain[29];
    let none = Vec::new();
    let verify = |pending: &Vec<Header>| {
        ContextualTransactionVerifier::new(&rtx, pending, &store, 30, 0, parent, &consensus).verify()
    };
    assert_eq!(verify(&none), Err(TransactionError::InvalidHeaderDep));
    // A pending header counts as known.
    let pending = vec![header(41, hash_of(0xfeed), store.main_chain[40], 0)];
    assert_eq!(verify(&pending), Ok(()));
}

#[test]
fn sorting_and_median() {
    assert_eq!(sorted_copy(&vec![]), Vec::<u64>::new());
    assert_eq!(sorted_copy(&vec![3, 1, 2, 1, u64::MAX, 0]), vec![0, 1, 1, 2, 3, u64::MAX]);
    assert_eq!(median(&vec![5]), 5);
    assert_eq!(median(&vec![5, 1]), 5);
    assert_eq!(median(&vec![9, 1, 5]), 5);
    assert_eq!(median(&vec![4, 3, 2, 1]), 3);
}

#[test]
fn cycle_cache_keeps_the_most_recently_used() {
    let mut cache = CycleCache::new(2);
    assert_eq!(cache.capacity(), 2);
    assert_eq!(cache.insert(hash_of(1), 10), None);
    assert_eq!(cache.insert(hash_of(2), 20), None);
    assert_eq!(cache.insert(hash_of(1), 11), Some(10));
    assert_eq!(cache.len(), 2);
    // 2 is now the least recently used and leaves for 3.
    assert_eq!(cache.insert(hash_of(3), 30), None);
    assert_eq!(cache.get(&hash_of(2)), None);
    assert_eq!(cache.get(&hash_of(1)), Some(11));
    // Reading 1 made 3 the least recently used.
    assert_eq!(cache.insert(hash_of(4), 40), None);
    assert_eq!(cache.get(&hash_of(3)), None);
    assert_eq!(cache.get(&hash_of(1)), Some(11));
    assert_eq!(cache.get(&hash_of(4)), Some(40));
    assert_eq!(cache.len(), 2);

    let mut none = CycleCache::new(0);
    assert_eq!(none.insert(hash_of(1), 1), None);
    assert_eq!(none.len(), 0);
    assert_eq!(none.get(&hash_of(1)), None);
}

#[test]
fn scenarios_are_described() {
    assert_eq!(IndexerBasic.name(), "indexer_basic");
    assert_eq!(BootstrapCellbase.name(), "bootstrap_cellbase");
    assert_eq!(TemplateSizeLimit.name(), "template_size_limit");
    assert_eq!(Disconnect.name(), "disconnect");
    assert_eq!(MalformedMessage.name(), "malformed_message");
    assert_eq!(BlockRelayBasic.name(), "block_relay_basic");
    assert_eq!(BlockSyncFromOne.name(), "block_sync_from_one");
    assert_eq!(BlockSyncForks.name(), "block_sync_forks");
    assert_eq!(BlockSyncDuplicatedAndReconnect.name(), "block_sync_duplicated_and_reconnect");
    assert_eq!(BlockSyncOrphanBlocks.name(), "block_sync_orphan_blocks");
    assert_eq!(IBDProcess.name(), "ibd_process");
    assert_eq!(InvalidLocatorSize.name(), "invalid_locator_size");
    assert_eq!(SyncTimeout.name(), "sync_timeout");
    assert_eq!(CellbaseMaturity.name(), "cellbase_maturity");
    assert_eq!(DifferentTxsWithSameInput.name(), "different_txs_with_same_input");
    assert_eq!(SizeLimit.name(), "size_limit");
    assert_eq!(CyclesLimit.name(), "cycles_limit");
    assert_eq!(PoolReconcile.name(), "pool_reconcile");
    assert_eq!(PoolResurrect.name(), "pool_resurrect");
    assert_eq!(ValidSince.name(), "valid_since");

    let shape = |s: Setup| (s.num_nodes, s.connect_all, s.protocols.len());
    assert_eq!(shape(Setup::default()), (1, true, 0));
    assert_eq!(shape(IndexerBasic.setup()), (2, false, 0));
    assert_eq!(shape(BootstrapCellbase.setup()), (1, true, 0));
    assert_eq!(shape(TemplateSizeLimit.setup()), (1, true, 0));
    assert_eq!(shape(Disconnect.setup()), (2, true, 0));
    assert_eq!(shape(MalformedMessage.setup()), (1, true, 1));
    assert_eq!(shape(BlockRelayBasic.setup()), (3, true, 0));
    assert_eq!(shape(BlockSyncFromOne.setup()), (2, false, 1));
    assert_eq!(shape(BlockSyncForks.setup()), (2, false, 1));
    assert_eq!(shape(BlockSyncDuplicatedAndReconnect.setup()), (1, true, 1));
    assert_eq!(shape(BlockSyncOrphanBlocks.setup()), (2, false, 1));
    assert_eq!(shape(IBDProcess.setup()), (7, false, 0));
    assert_eq!(shape(InvalidLocatorSize.setup()), (1, true, 1));
    assert_eq!(shape(SyncTimeout.setup()), (5, false, 0));
    assert_eq!(shape(CellbaseMaturity.setup()), (1, true, 0));
    assert_eq!(shape(DifferentTxsWithSameInput.setup()), (1, true, 0));
    assert_eq!(shape(SizeLimit.setup()), (1, true, 0));
    assert_eq!(shape(CyclesLimit.setup()), (1, true, 0));
    assert_eq!(shape(PoolReconcile.setup()), (2, false, 0));
    assert_eq!(shape(PoolResurrect.setup()), (2, false, 0));
    assert_eq!(shape(ValidSince.setup()), (1, true, 0));

    let sync = TestProtocol::sync();
    assert_eq!((sync.id, sync.protocol_name.as_str()), (PROTOCOL_SYNC, "syn"));
    assert_eq!(sync.supported_versions, vec!["1".to_string()]);
    let relay = TestProtocol::relay();
    assert_eq!((relay.id, relay.protocol_name.as_str()), (PROTOCOL_RELAY, "rel"));
    assert_eq!(BlockSyncForks.setup().protocols[0].id, 100);
}

#[test]
fn scenarios_carry_their_parameters() {
    assert_eq!(DEFAULT_TX_PROPOSAL_WINDOW, (2, 10));
    assert_eq!(ValidSince.cellbase_maturity(), 4);
    assert_eq!(ValidSince.relative_since(), since_from_relative_block_number(9));
    assert_eq!(ValidSince.absolute_since(100), 109);
    assert_eq!(CellbaseMaturity.maturity(), 5);
    assert_eq!(CellbaseMaturity.immature_blocks(), 3);
    assert_eq!(SizeLimit.pool_limits(), PoolLimits { max_mem_size: 930, max_cycles: 200_000_000_000 });
    assert_eq!(CyclesLimit.pool_limits(), PoolLimits { max_mem_size: 20_000_000, max_cycles: 60 });
    assert_eq!(InvalidLocatorSize.locator_size(), 102);
    assert_eq!(MalformedMessage.messages(), (vec![0, 0, 0, 0], vec![0, 1, 2, 3]));
    assert_eq!(BlockSyncForks.timestamp_offsets(0), vec![2, 0, 0, 0, 0, 0, 0, 0, 0]);
    assert_eq!(BlockSyncForks.timestamp_offsets(1), vec![1, 0, 0, 0, 0, 0, 0, 0, 0]);
    assert_eq!(BlockSyncFromOne.blocks_ahead(), 3);
    assert_eq!(BlockSyncOrphanBlocks.blocks(), 5);
    assert_eq!(IBDProcess.expected_peers(), 4);
    assert_eq!(SyncTimeout.expected_tip(), 402);
    assert_eq!(node_ports(9000, 0), Some((9001, 9002)));
    assert_eq!(node_ports(9000, 3), Some((9007, 9008)));
    assert_eq!(node_ports(65_533, 0), Some((65_534, 65_535)));
    assert_eq!(node_ports(65_534, 0), None);
    assert_eq!(node_ports(0, 65_535), None);
}

#[test]
fn valid_since_scenario_against_the_verifier() {
    // The chain of the scenario: maturity 4, the cellbase of block 1 is
    // spent with a relative since of 9 blocks.
    let store = chain(40);
    let since = ValidSince.relative_since();
    let maturity = ValidSince.cellbase_maturity();
    for tip in 2..1 + maturity {
        assert_eq!(
            decision(&store, since, cell(1, 0), tip),
            Err(TransactionError::CellbaseImmaturity),
            "at {}",
            tip
        );
    }
    for tip in 1 + maturity..1 + 9 {
        assert_eq!(decision(&store, since, cell(1, 0), tip), Err(TransactionError::Immature), "at {}", tip);
    }
    assert_eq!(decision(&store, since, cell(1, 0), 10), Ok(()));
}
