#![allow(unused_imports)]
use ckb_node_core::consensus::{Consensus, EpochExt, EpochNumberWithFraction, ProposalWindow};
use ckb_node_core::contextual_block_verifier::{
    prepare_epoch_ext, BlockReward, BlockTxsVerifier, CommitVerifier, ContextualBlockVerifier,
    DaoHeaderVerifier, RewardVerifier, UncleVerifierContext, UnclesVerifier, VerifyContext,
};
use ckb_node_core::dao::DaoCalculator;
use ckb_node_core::dao_utils::{pack_dao_data, Error as DaoError};
use ckb_node_core::error::{
    BlockErrorKind, CellbaseError, CommitError, Error, TransactionError, UnclesError,
};
use ckb_node_core::lru::CycleCache;
use ckb_node_core::primitives::{Byte32, Capacity, CapacityError, ProposalShortId, Ratio};
use ckb_node_core::store::{BlockExt, ChainStore, StoredBlock};
use ckb_node_core::tx_verifier::{CellMeta, ResolvedTransaction, TransactionInfo};
use ckb_node_core::types::{
    Block, CellInput, CellOutput, Header, OutPoint, Script, Transaction, UncleBlock,
};

#[allow(dead_code)]
fn hash_of(seed: u64) -> Byte32 {
    let mut bytes = [0u8; 32];
    bytes[..8].copy_from_slice(&seed.to_le_bytes());
    bytes[8] = 0xa5;
    bytes[31] = 0x5a;
    Byte32::new(bytes)
}

#[allow(dead_code)]
fn script(args: &[u8]) -> Script {
    Script { code_hash: hash_of(0xc0de), hash_type: 0, args: args.to_vec() }
}

#[allow(dead_code)]
fn output(capacity: u64) -> CellOutput {
    CellOutput { capacity: Capacity::shannons(capacity), lock: script(&[]), type_: None }
}

#[allow(dead_code)]
fn tx(seed: u64, inputs: Vec<CellInput>, outputs: Vec<CellOutput>) -> Transaction {
    let outputs_data = outputs.iter().map(|_| Vec::new()).collect();
    Transaction {
        hash: hash_of(0x1000_0000 + seed),
        witness_hash: hash_of(0x2000_0000 + seed),
        inputs,
        outputs,
        outputs_data,
        header_deps: Vec::new(),
        witnesses: Vec::new(),
        serialized_size: 100,
    }
}

#[allow(dead_code)]
fn cellbase(number: u64, outputs: Vec<CellOutput>) -> Transaction {
    tx(0xcb00_0000 + number, vec![CellInput::new_cellbase_input(number)], outputs)
}

#[allow(dead_code)]
fn spend(seed: u64, since: u64) -> Transaction {
    tx(seed, vec![CellInput::new(OutPoint::new(hash_of(0xfeed + seed), 0), since)], vec![output(1)])
}

#[allow(dead_code)]
fn header(number: u64, hash: Byte32, parent_hash: Byte32, timestamp: u64) -> Header {
    Header {
        hash,
        parent_hash,
        number,
        timestamp,
        difficulty: 1,
        epoch: 0,
        transactions_root: Byte32::zero(),
        proposals_hash: Byte32::zero(),
        witnesses_root: Byte32::zero(),
        uncles_hash: Byte32::zero(),
        dao: Byte32::zero(),
        nonce: 0,
    }
}

#[allow(dead_code)]
fn epoch(number: u64, start_number: u64, length: u64, primary: u64, secondary: u64) -> EpochExt {
    EpochExt {
        number,
        length,
        start_number,
        primary_reward: Capacity::shannons(primary),
        secondary_reward: Capacity::shannons(secondary),
        difficulty: 1,
    }
}

#[allow(dead_code)]
fn consensus() -> Consensus {
    Consensus {
        tx_proposal_window: ProposalWindow { closest: 2, farthest: 10 },
        cellbase_maturity: 4,
        median_time_block_count: 11,
        max_block_cycles: 1_000,
        max_uncles_num: 2,
        max_block_bytes: 10_000,
        max_block_proposals_limit: 100,
        allowed_future_time: 15_000,
        genesis_epoch_ext: epoch(0, 0, 1000, 1_000_000, 100_000),
        dao_type_hash: Some(hash_of(0xda0)),
        satoshi_pubkey_hash: vec![0x62; 20],
        satoshi_cell_occupied_ratio: Ratio { numer: 6, denom: 10 },
    }
}

#[allow(dead_code)]
fn stored(h: Header) -> StoredBlock {
    StoredBlock {
        header: h,
        uncles: Vec::new(),
        proposals: Vec::new(),
        epoch: Some(epoch(0, 0, 1000, 1_000_000, 100_000)),
        next_epoch: None,
        ext: Some(BlockExt {
            total_difficulty: (h.number as u128) + 1,
            total_uncles_count: 0,
            txs_fees: Vec::new(),
        }),
        miner_lock: script(&[0xaa]),
    }
}

/// A store whose main chain has the blocks 0 to `tip`, one second apart.
#[allow(dead_code)]
fn chain(tip: u64) -> ChainStore {
    let mut store = ChainStore::new();
    let mut parent = Byte32::zero();
    for number in 0..=tip {
        let hash = hash_of(0xb10c_0000 + number);
        let mut h = header(number, hash, parent, 1_000_000 + number * 1_000);
        h.dao = pack_dao_data(
            10_000_000_000_000_000,
            Capacity::shannons(1_000_000_000),
            Capacity::shannons(1_000),
        );
        store.blocks.push(stored(h));
        store.main_chain.push(hash);
        parent = hash;
    }
    store
}

#[allow(dead_code)]
fn block_on(store: &ChainStore, transactions: Vec<Transaction>) -> Block {
    let tip = store.tip_header().unwrap();
    let mut h = header(tip.number + 1, hash_of(0xb10c_0000 + tip.number + 1), tip.hash, tip.timestamp + 1_000);
    h.dao = tip.dao;
    Block { header: h, uncles: Vec::new(), transactions, proposals: Vec::new(), serialized_size: 500 }
}

fn cell(capacity: u64, created_at: Option<(u64, u32)>) -> CellMeta {
    CellMeta {
        cell_output: output(capacity),
        out_point: OutPoint::new(hash_of(0xce11), 0),
        transaction_info: created_at.map(|(number, index)| TransactionInfo {
            block_hash: hash_of(0xb10c_0000 + number),
            block_number: number,
            block_epoch: 0,
            index,
        }),
        data_bytes: 0,
    }
}

fn with_proposals(store: &mut ChainStore, number: usize, ids: Vec<ProposalShortId>) {
    store.blocks[number].proposals = ids;
}

#[test]
fn commit_verifier_accepts_what_was_proposed_in_the_window() {
    let consensus = consensus();
    let committed = spend(1, 0);
    let id = committed.proposal_short_id();

    // Proposed by block 15; block 21 has the window [11, 19].
    let mut store = chain(20);
    with_proposals(&mut store, 15, vec![id]);
    let block = block_on(&store, vec![cellbase(21, vec![output(1)]), spend(1, 0)]);
    let context = VerifyContext::new(&store, &consensus);
    assert_eq!(CommitVerifier::new(&context, &block).verify(), Ok(()));

    // The two ends of the window are inside it.
    for at in [11usize, 19] {
        let mut store = chain(20);
        with_proposals(&mut store, at, vec![id]);
        let context = VerifyContext::new(&store, &consensus);
        assert_eq!(CommitVerifier::new(&context, &block).verify(), Ok(()), "proposed at {}", at);
    }

    // One block nearer or farther is outside.
    for at in [10usize, 20] {
        let mut store = chain(20);
        with_proposals(&mut store, at, vec![id]);
        let context = VerifyContext::new(&store, &consensus);
        assert_eq!(
            CommitVerifier::new(&context, &block).verify(),
            Err(Error::Commit(CommitError::NotInProposalWindow)),
            "proposed at {}",
            at
        );
    }
}

#[test]
fn commit_verifier_counts_the_proposals_of_uncles() {
    let consensus = consensus();
    let committed = spend(1, 0);
    let id = committed.proposal_short_id();
    let mut store = chain(20);
    let uncle_header = header(12, hash_of(0xabc), hash_of(0xb10c_0000 + 11), 5);
    store.blocks[13].uncles = vec![UncleBlock { header: uncle_header, proposals: vec![id] }];
    let block = block_on(&store, vec![cellbase(21, vec![output(1)]), spend(1, 0)]);
    let context = VerifyContext::new(&store, &consensus);
    assert_eq!(CommitVerifier::new(&context, &block).verify(), Ok(()));
}

#[test]
fn commit_verifier_edges() {
    let consensus = consensus();
    // The genesis block commits freely.
    let store = ChainStore::new();
    let context = VerifyContext::new(&store, &consensus);
    let genesis = Block {
        header: header(0, hash_of(1), Byte32::zero(), 0),
        uncles: Vec::new(),
        transactions: vec![cellbase(0, vec![]), spend(5, 0)],
        proposals: Vec::new(),
        serialized_size: 0,
    };
    assert_eq!(CommitVerifier::new(&context, &genesis).verify(), Ok(()));

    // The cellbase alone needs no proposal.
    let store = chain(20);
    let context = VerifyContext::new(&store, &consensus);
    let block = block_on(&store, vec![cellbase(21, vec![output(1)])]);
    assert_eq!(CommitVerifier::new(&context, &block).verify(), Ok(()));

    // A block far above the chain has no ancestor at the near end.
    let mut high = block_on(&store, vec![cellbase(30, vec![output(1)])]);
    high.header.number = 30;
    assert_eq!(
        CommitVerifier::new(&context, &high).verify(),
        Err(Error::Commit(CommitError::NonexistentAncestor))
    );

    // The genesis block is an ancestor like any other: block 6 has the
    // window [0, 4].
    let committed = spend(1, 0);
    let mut short = chain(5);
    with_proposals(&mut short, 0, vec![committed.proposal_short_id()]);
    let context = VerifyContext::new(&short, &consensus);
    let block = block_on(&short, vec![cellbase(6, vec![output(1)]), spend(1, 0)]);
    assert_eq!(CommitVerifier::new(&context, &block).verify(), Ok(()));
    // Block 5 is too near.
    let mut short = chain(5);
    with_proposals(&mut short, 5, vec![committed.proposal_short_id()]);
    let context = VerifyContext::new(&short, &consensus);
    assert_eq!(
        CommitVerifier::new(&context, &block).verify(),
        Err(Error::Commit(CommitError::NotInProposalWindow))
    );

    // A block that the store lacks on the way down the window: block 21
    // has the window [11, 19], and block 14 is gone.
    let mut holed = chain(20);
    with_proposals(&mut holed, 17, vec![committed.proposal_short_id()]);
    holed.blocks.remove(14);
    let context = VerifyContext::new(&holed, &consensus);
    let block = block_on(&holed, vec![cellbase(21, vec![output(1)]), spend(1, 0)]);
    assert_eq!(
        CommitVerifier::new(&context, &block).verify(),
        Err(Error::Commit(CommitError::NonexistentAncestor))
    );
    // Below the window a hole does no harm.
    let mut holed = chain(20);
    with_proposals(&mut holed, 17, vec![committed.proposal_short_id()]);
    holed.blocks.remove(10);
    let context = VerifyContext::new(&holed, &consensus);
    assert_eq!(CommitVerifier::new(&context, &block).verify(), Ok(()));
}

#[test]
fn uncles_verifier_names_each_fault() {
    let consensus = consensus();
    let mut store = chain(20);
    let known_uncle = header(18, hash_of(0x0ac1e), hash_of(0xb10c_0000 + 17), 5);
    store.uncle_headers.push(known_uncle);
    let context = VerifyContext::new(&store, &consensus);
    let the_epoch = epoch(0, 0, 1000, 1_000_000, 100_000);

    let uncle = |h: Header| UncleBlock { header: h, proposals: Vec::new() };
    let verify = |uncles: Vec<UncleBlock>| {
        let mut block = block_on(&store, vec![cellbase(21, vec![output(1)])]);
        block.uncles = uncles;
        UnclesVerifier::new(UncleVerifierContext::new(&context, &the_epoch), &block).verify()
    };

    // A fresh uncle on top of a main-chain block.
    let good = header(20, hash_of(0x900d), hash_of(0xb10c_0000 + 19), 5);
    assert_eq!(verify(vec![uncle(good)]), Ok(()));
    // A fresh uncle on top of a known uncle.
    let on_uncle = header(19, hash_of(0x900e), known_uncle.hash, 5);
    assert_eq!(verify(vec![uncle(on_uncle)]), Ok(()));
    assert_eq!(verify(vec![]), Ok(()));

    assert_eq!(
        verify(vec![uncle(good), uncle(on_uncle), uncle(good)]),
        Err(Error::Uncles(UnclesError::OverCount { max: 2, actual: 3 }))
    );
    let on_chain = store.get_block_header(&hash_of(0xb10c_0000 + 19)).unwrap();
    assert_eq!(
        verify(vec![uncle(on_chain)]),
        Err(Error::Uncles(UnclesError::DoubleInclusion(on_chain.hash)))
    );
    assert_eq!(
        verify(vec![uncle(known_uncle)]),
        Err(Error::Uncles(UnclesError::DoubleInclusion(known_uncle.hash)))
    );
    let orphan = header(20, hash_of(0xbad1), hash_of(0xdead), 5);
    assert_eq!(verify(vec![uncle(orphan)]), Err(Error::Uncles(UnclesError::DescendantLimit)));
    let wrong_height = header(17, hash_of(0xbad2), hash_of(0xb10c_0000 + 19), 5);
    assert_eq!(verify(vec![uncle(wrong_height)]), Err(Error::Uncles(UnclesError::DescendantLimit)));
    let mut other_epoch = good;
    other_epoch.epoch = EpochNumberWithFraction::new(1, 0, 1000).full_value();
    assert_eq!(
        verify(vec![uncle(other_epoch)]),
        Err(Error::Uncles(UnclesError::InvalidDifficultyEpoch))
    );
    // The first uncle at fault is named.
    assert_eq!(
        verify(vec![uncle(orphan), uncle(on_chain)]),
        Err(Error::Uncles(UnclesError::DescendantLimit))
    );
}

fn rewarded_store() -> ChainStore {
    let mut store = chain(20);
    store.blocks[20].ext = Some(BlockExt {
        total_difficulty: 21,
        total_uncles_count: 0,
        txs_fees: vec![Capacity::shannons(5), Capacity::shannons(7)],
    });
    store
}

#[test]
fn block_reward_is_issuance_and_fees_of_the_parent() {
    let consensus = consensus();
    let store = rewarded_store();
    let context = VerifyContext::new(&store, &consensus);
    let parent = store.tip_header().unwrap();
    let (lock, reward) = context.finalize_block_reward(&parent).unwrap();
    assert_eq!(lock.args, vec![0xaa]);
    assert_eq!(
        reward,
        BlockReward {
            total: Capacity::shannons(1_112),
            primary: Capacity::shannons(1_000),
            secondary: Capacity::shannons(100),
            committed: Capacity::shannons(12),
        }
    );

    let unknown = header(21, hash_of(0x404), parent.hash, 0);
    assert_eq!(
        context.finalize_block_reward(&unknown).err(),
        Some(Error::UnknownParent { parent_hash: unknown.hash })
    );
}

#[test]
fn reward_verifier_holds_the_cellbase_to_the_reward() {
    let consensus = consensus();
    let store = rewarded_store();
    let context = VerifyContext::new(&store, &consensus);
    let parent = store.tip_header().unwrap();
    let paid_to = |capacity: u64, args: &[u8]| CellOutput {
        capacity: Capacity::shannons(capacity),
        lock: script(args),
        type_: None,
    };

    let good = cellbase(21, vec![paid_to(1_000, &[0xaa]), paid_to(112, &[0xbb])]);
    let spender = tx(3, vec![CellInput::new(OutPoint::new(hash_of(0xce11), 0), 0)], vec![output(30)]);
    let resolved = vec![
        ResolvedTransaction { transaction: &good, resolved_inputs: vec![] },
        ResolvedTransaction { transaction: &spender, resolved_inputs: vec![cell(50, Some((3, 1)))] },
    ];
    assert_eq!(
        RewardVerifier::new(&context, &resolved, &parent).verify(),
        Ok(vec![Capacity::shannons(20)])
    );

    let less = cellbase(21, vec![paid_to(1_111, &[0xaa])]);
    let resolved = vec![ResolvedTransaction { transaction: &less, resolved_inputs: vec![] }];
    assert_eq!(
        RewardVerifier::new(&context, &resolved, &parent).verify(),
        Err(Error::Cellbase(CellbaseError::InvalidRewardAmount))
    );

    let more = cellbase(21, vec![paid_to(1_113, &[0xaa])]);
    let resolved = vec![ResolvedTransaction { transaction: &more, resolved_inputs: vec![] }];
    assert_eq!(
        RewardVerifier::new(&context, &resolved, &parent).verify(),
        Err(Error::Cellbase(CellbaseError::InvalidRewardAmount))
    );

    let stranger = cellbase(21, vec![paid_to(1_112, &[0xab])]);
    let resolved = vec![ResolvedTransaction { transaction: &stranger, resolved_inputs: vec![] }];
    assert_eq!(
        RewardVerifier::new(&context, &resolved, &parent).verify(),
        Err(Error::Cellbase(CellbaseError::InvalidRewardTarget))
    );

    // The lock is held against the target before the sum is held against
    // the reward.
    let both_wrong = cellbase(21, vec![paid_to(1_000, &[0xab])]);
    let resolved = vec![ResolvedTransaction { transaction: &both_wrong, resolved_inputs: vec![] }];
    assert_eq!(
        RewardVerifier::new(&context, &resolved, &parent).verify(),
        Err(Error::Cellbase(CellbaseError::InvalidRewardTarget))
    );
    let no_output = cellbase(21, vec![]);
    let resolved = vec![ResolvedTransaction { transaction: &no_output, resolved_inputs: vec![] }];
    assert_eq!(
        RewardVerifier::new(&context, &resolved, &parent).verify(),
        Err(Error::Cellbase(CellbaseError::InvalidRewardTarget))
    );

    let resolved: Vec<ResolvedTransaction> = vec![];
    assert_eq!(
        RewardVerifier::new(&context, &resolved, &parent).verify(),
        Err(Error::Cellbase(CellbaseError::InvalidQuantity))
    );

    // Outputs beyond the inputs leave no fee.
    let overspender =
        tx(4, vec![CellInput::new(OutPoint::new(hash_of(0xce11), 0), 0)], vec![output(51)]);
    let resolved = vec![
        ResolvedTransaction { transaction: &good, resolved_inputs: vec![] },
        ResolvedTransaction { transaction: &overspender, resolved_inputs: vec![cell(50, None)] },
    ];
    assert_eq!(
        RewardVerifier::new(&context, &resolved, &parent).verify(),
        Err(Error::Capacity(CapacityError::Overflow))
    );
}

fn expected_dao(added: u64, freed: u64) -> Byte32 {
    // ar = 10^16 + 10^16 * 100 / 10^9, C = 10^9 + 1000 + 100.
    pack_dao_data(
        10_000_001_000_000_000,
        Capacity::shannons(1_000_001_100),
        Capacity::shannons(1_000 + added - freed),
    )
}

#[test]
fn dao_field_follows_the_rule() {
    let consensus = consensus();
    let store = chain(20);
    let parent = store.tip_header().unwrap();
    let calculator = DaoCalculator::new(&consensus, &store);

    // One output without arguments or data occupies 8 + 33 bytes.
    let base = cellbase(21, vec![output(5_000_000_000)]);
    let resolved = vec![ResolvedTransaction { transaction: &base, resolved_inputs: vec![] }];
    assert_eq!(calculator.dao_field(&resolved, &parent), Ok(expected_dao(4_100_000_000, 0)));

    // A spent cell frees what it occupied.
    let spender = tx(3, vec![CellInput::new(OutPoint::new(hash_of(0xce11), 0), 0)], vec![]);
    let mut big = cell(50, None);
    big.data_bytes = 10;
    let resolved = vec![
        ResolvedTransaction { transaction: &base, resolved_inputs: vec![] },
        ResolvedTransaction { transaction: &spender, resolved_inputs: vec![cell(50, None)] },
    ];
    assert_eq!(
        calculator.dao_field(&resolved, &parent),
        Ok(expected_dao(4_100_000_000, 4_100_000_000))
    );
    let resolved = vec![
        ResolvedTransaction { transaction: &spender, resolved_inputs: vec![big] },
    ];
    // More freed than occupied: the occupied capacity would turn negative.
    assert_eq!(
        calculator.dao_field(&resolved, &parent),
        Err(Error::Capacity(CapacityError::Overflow))
    );

    let mut malformed = parent;
    malformed.dao = Byte32::zero();
    assert_eq!(
        calculator.dao_field(&resolved, &malformed),
        Err(Error::Dao(DaoError::Format))
    );
    let unknown = header(21, hash_of(0x404), parent.hash, 0);
    let mut unknown = unknown;
    unknown.dao = parent.dao;
    assert_eq!(
        calculator.dao_field(&resolved, &unknown),
        Err(Error::UnknownParent { parent_hash: unknown.hash })
    );
}

#[test]
fn dao_header_verifier_compares_byte_for_byte() {
    let consensus = consensus();
    let store = chain(20);
    let context = VerifyContext::new(&store, &consensus);
    let parent = store.tip_header().unwrap();
    let base = cellbase(21, vec![output(5_000_000_000)]);
    let resolved = vec![ResolvedTransaction { transaction: &base, resolved_inputs: vec![] }];

    let mut h = header(21, hash_of(21), parent.hash, 0);
    h.dao = expected_dao(4_100_000_000, 0);
    assert_eq!(DaoHeaderVerifier::new(&context, &resolved, &parent, &h).verify(), Ok(()));

    let mut bytes = h.dao.bytes;
    bytes[5] = 1;
    h.dao = Byte32::new(bytes);
    assert_eq!(
        DaoHeaderVerifier::new(&context, &resolved, &parent, &h).verify(),
        Err(Error::Block(BlockErrorKind::InvalidDAO))
    );
}

fn txs_verifier_setup() -> (ChainStore, Consensus, Vec<Transaction>) {
    let store = chain(20);
    let txs = vec![cellbase(21, vec![output(1)]), spend(1, 0), spend(2, 0)];
    (store, consensus(), txs)
}

fn resolve_all(txs: &[Transaction]) -> Vec<ResolvedTransaction<'_>> {
    txs.iter()
        .enumerate()
        .map(|(i, t)| ResolvedTransaction {
            transaction: t,
            resolved_inputs: if i == 0 { vec![] } else { vec![cell(50, Some((3, 1)))] },
        })
        .collect()
}

#[test]
fn block_txs_verifier_sums_cycles_within_the_budget() {
    let (store, consensus, txs) = txs_verifier_setup();
    let context = VerifyContext::new(&store, &consensus);
    let resolved = resolve_all(&txs);
    let parent_hash = store.tip_header().unwrap().hash;
    let verifier = BlockTxsVerifier::new(&context, 21, 0, parent_hash, &resolved);

    let mut cache = CycleCache::new(10);
    let scripts = vec![Ok(0), Ok(300), Ok(400)];
    assert_eq!(verifier.verify(&mut cache, &scripts), Ok(700));
    assert_eq!(cache.len(), 2);
    assert_eq!(cache.get(&txs[1].hash), Some(300));
    assert_eq!(cache.get(&txs[2].hash), Some(400));
    // The cellbase is not verified and not cached.
    assert_eq!(cache.get(&txs[0].hash), None);

    // Cached cycles are taken in place of the scripts' outcome.
    let scripts = vec![Ok(0), Err(TransactionError::ValidationFailure(-1)), Ok(1)];
    assert_eq!(verifier.verify(&mut cache, &scripts), Ok(700));

    // Exactly the budget passes, one more does not.
    let mut cache = CycleCache::new(10);
    assert_eq!(verifier.verify(&mut cache, &vec![Ok(0), Ok(600), Ok(400)]), Ok(1_000));
    let mut cache = CycleCache::new(10);
    assert_eq!(
        verifier.verify(&mut cache, &vec![Ok(0), Ok(600), Ok(401)]),
        Err(Error::Block(BlockErrorKind::TooMuchCycles))
    );
    // The cycles were cached all the same.
    assert_eq!(cache.get(&txs[2].hash), Some(401));

    // A sum beyond 64 bits is too much too.
    let mut cache = CycleCache::new(10);
    assert_eq!(
        verifier.verify(&mut cache, &vec![Ok(0), Ok(u64::MAX), Ok(u64::MAX)]),
        Err(Error::Block(BlockErrorKind::TooMuchCycles))
    );
}

#[test]
fn block_txs_verifier_reports_the_first_failing_transaction() {
    let (store, consensus, txs) = txs_verifier_setup();
    let context = VerifyContext::new(&store, &consensus);
    let resolved = resolve_all(&txs);
    let parent_hash = store.tip_header().unwrap().hash;
    let verifier = BlockTxsVerifier::new(&context, 21, 0, parent_hash, &resolved);

    let mut cache = CycleCache::new(10);
    cache.insert(hash_of(77), 5);
    let scripts = vec![
        Ok(0),
        Err(TransactionError::ValidationFailure(-17)),
        Err(TransactionError::ExceededMaximumCycles),
    ];
    assert_eq!(
        verifier.verify(&mut cache, &scripts),
        Err(Error::BlockTransactions { index: 1, error: TransactionError::ValidationFailure(-17) })
    );
    let scripts = vec![Ok(0), Ok(1), Err(TransactionError::ExceededMaximumCycles)];
    assert_eq!(
        verifier.verify(&mut cache, &scripts),
        Err(Error::BlockTransactions { index: 2, error: TransactionError::ExceededMaximumCycles })
    );
    // Nothing was cached.
    assert_eq!(cache.len(), 1);
    assert_eq!(cache.get(&hash_of(77)), Some(5));

    // A contextual fault comes before the scripts, and the cache does not
    // spare the contextual checks.
    let immature = vec![cellbase(21, vec![output(1)]), spend(1, 22)];
    let resolved = resolve_all(&immature);
    let verifier = BlockTxsVerifier::new(&context, 21, 0, parent_hash, &resolved);
    let mut cache = CycleCache::new(10);
    cache.insert(immature[1].hash, 9);
    assert_eq!(
        verifier.verify(&mut cache, &vec![Ok(0), Ok(1)]),
        Err(Error::BlockTransactions { index: 1, error: TransactionError::Immature })
    );
}

#[test]
fn contextual_block_verifier_accepts_a_sound_block() {
    let consensus = consensus();
    let mut store = rewarded_store();
    let committed = spend(1, 0);
    with_proposals(&mut store, 15, vec![committed.proposal_short_id()]);
    let paid = CellOutput { capacity: Capacity::shannons(1_112), lock: script(&[0xaa]), type_: None };
    let mut block = block_on(&store, vec![cellbase(21, vec![paid]), spend(1, 0)]);
    // The cellbase output and the output of the spender occupy 42 and 41
    // bytes; the spent cell frees 41.
    block.header.dao = expected_dao(4_200_000_000 + 4_100_000_000, 4_100_000_000);
    let resolved = resolve_all(&block.transactions);
    let context = VerifyContext::new(&store, &consensus);
    let verifier = ContextualBlockVerifier::new(&context);

    let mut cache = CycleCache::new(4);
    assert_eq!(
        verifier.verify(&resolved, &block, &mut cache, &vec![Ok(0), Ok(321)]),
        Ok((321, vec![Capacity::shannons(49)]))
    );
    assert_eq!(cache.get(&block.transactions[1].hash), Some(321));

    // Each stage names its fault, in the order of the stages.
    let mut cache = CycleCache::new(4);
    assert_eq!(
        verifier.verify(&resolved, &block, &mut cache, &vec![Ok(0), Ok(1_001)]),
        Err(Error::Block(BlockErrorKind::TooMuchCycles))
    );
    let mut wrong_dao = block_on(&store, vec![]);
    wrong_dao.header.dao = Byte32::zero();
    wrong_dao.transactions = vec![];
    let mut orphan = block_on(&store, vec![]);
    orphan.header.parent_hash = hash_of(0x404);
    let mut cache = CycleCache::new(4);
    assert_eq!(
        verifier.verify(&resolved, &orphan, &mut cache, &vec![Ok(0), Ok(1)]),
        Err(Error::UnknownParent { parent_hash: hash_of(0x404) })
    );
    assert_eq!(cache.len(), 0);
    let mut uncommitted = block_on(&store, vec![cellbase(21, vec![]), spend(9, 0)]);
    uncommitted.header.dao = block.header.dao;
    assert_eq!(
        verifier.verify(&resolved, &uncommitted, &mut cache, &vec![Ok(0), Ok(1)]),
        Err(Error::Commit(CommitError::NotInProposalWindow))
    );
    let mut bad_dao = block_on(&store, vec![cellbase(21, vec![]), spend(1, 0)]);
    bad_dao.header.dao = expected_dao(1, 0);
    assert_eq!(
        verifier.verify(&resolved, &bad_dao, &mut cache, &vec![Ok(0), Ok(1)]),
        Err(Error::Block(BlockErrorKind::InvalidDAO))
    );
    let _ = wrong_dao;
}

#[test]
fn verify_context_reads_the_store() {
    let consensus = consensus();
    let store = chain(20);
    let context = VerifyContext::new(&store, &consensus);
    assert_eq!(context.median_block_count(), 11);
    assert!(context.is_valid(&store.main_chain[7]));
    assert!(!context.is_valid(&hash_of(0x404)));
    let h = store.get_block_header(&store.main_chain[7]).unwrap();
    assert_eq!(
        context.timestamp_and_parent(&store.main_chain[7]),
        (h.timestamp, 7, store.main_chain[6])
    );
    assert_eq!(store.get_block_hash(21), None);
    assert_eq!(store.get_block_number(&store.main_chain[20]), Some(20));
    assert!(!store.is_uncle(&store.main_chain[20]));
    assert_eq!(store.get_block_epoch(&hash_of(0x404)), None);
}

#[test]
fn epochs_follow_one_another() {
    let consensus = consensus();
    let last = epoch(3, 30, 10, 1_005, 17);

    // 1005 over ten blocks: five blocks of 101, then five of 100.
    let shares: Vec<u64> = (30..40).map(|n| last.block_reward(n).as_u64()).collect();
    assert_eq!(shares, vec![101, 101, 101, 101, 101, 100, 100, 100, 100, 100]);
    assert_eq!(shares.iter().sum::<u64>(), 1_005);
    let shares: Vec<u64> = (30..40).map(|n| last.secondary_block_issuance(n).as_u64()).collect();
    assert_eq!(shares, vec![2, 2, 2, 2, 2, 2, 2, 1, 1, 1]);

    // The store records the epoch that begins after the last block of an
    // epoch; any other block is followed by a block of its own epoch.
    let mut store = chain(20);
    store.blocks[20].epoch = Some(epoch(0, 0, 21, 1, 1));
    store.blocks[20].next_epoch = Some(epoch(1, 21, 30, 2, 3));
    let context = VerifyContext::new(&store, &consensus);
    let tip = store.tip_header().unwrap();
    assert_eq!(context.next_epoch_ext(&tip), Some(epoch(1, 21, 30, 2, 3)));
    assert_eq!(store.get_next_epoch(&tip.hash), Some(epoch(1, 21, 30, 2, 3)));
    assert_eq!(store.get_next_epoch(&hash_of(0x404)), None);
    assert_eq!(prepare_epoch_ext(&context, &tip), Ok(epoch(1, 21, 30, 2, 3)));
    store.blocks[20].epoch = Some(epoch(0, 0, 22, 1, 1));
    store.blocks[20].next_epoch = None;
    let context = VerifyContext::new(&store, &consensus);
    assert_eq!(context.next_epoch_ext(&tip), None);
    assert_eq!(prepare_epoch_ext(&context, &tip), Ok(epoch(0, 0, 22, 1, 1)));
    store.blocks[20].epoch = None;
    store.blocks[20].next_epoch = Some(epoch(1, 21, 30, 2, 3));
    let context = VerifyContext::new(&store, &consensus);
    assert_eq!(
        prepare_epoch_ext(&context, &tip),
        Err(Error::UnknownParent { parent_hash: tip.hash })
    );
}
