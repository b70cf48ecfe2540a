#![allow(unused_imports)]
use ckb_node_core::consensus::{Consensus, EpochExt, ProposalWindow};
use ckb_node_core::dao_utils::pack_dao_data;
use ckb_node_core::header_verifier::{CompactBlockMedianTimeView, HeaderError, HeaderVerifier};
use ckb_node_core::primitives::{Byte32, Capacity, ProposalShortId, Ratio};
use ckb_node_core::relayer::block_proposal_process::BlockProposalProcess;
use ckb_node_core::relayer::block_transactions_process::{
    BlockTransactions, BlockTransactionsOutcome, BlockTransactionsProcess,
};
use ckb_node_core::relayer::compact_block::{BlockProposal, CompactBlock, IndexTransaction};
use ckb_node_core::relayer::compact_block_process::{
    request_proposal_txs, CompactBlockOutcome, CompactBlockProcess, RelayContext,
};
use ckb_node_core::relayer::compact_block_verifier::CompactBlockVerifier;
use ckb_node_core::relayer::error::{Error as RelayError, Misbehavior};
use ckb_node_core::relayer::get_block_proposal_process::{
    take_waiting_peers, GetBlockProposal, GetBlockProposalProcess,
};
use ckb_node_core::relayer::pending::{PeerRequest, PendingCompactBlocks, PendingEntry};
use ckb_node_core::relayer::reconstruct::{reconstruct_block, resolve_source, TxSource};
use ckb_node_core::relayer::state::{PeerRelayState, RelayState, TxPool};
use ckb_node_core::relayer::transaction_hash_process::{
    TransactionHashOutcome, TransactionHashProcess,
};
use ckb_node_core::status::StatusCode;
use ckb_node_core::store::{BlockExt, ChainStore, StoredBlock};
use ckb_node_core::types::{
    Block, CellInput, CellOutput, Header, OutPoint, Script, Transaction, UncleBlock,
};

#[allow(dead_code)]
fn hash_of(seed: u64) -> Byte32 {
    let mut bytes = [0u8; 32];
    bytes[..8].copy_from_slice(&seed.to_le_bytes());
    bytes[8] = 0xa5;
    bytes[31] = 0x5a;
    Byte32::new(bytes)
}

#[allow(dead_code)]
fn script(args: &[u8]) -> Script {
    Script { code_hash: hash_of(0xc0de), hash_type: 0, args: args.to_vec() }
}

#[allow(dead_code)]
fn output(capacity: u64) -> CellOutput {
    CellOutput { capacity: Capacity::shannons(capacity), lock: script(&[]), type_: None }
}

#[allow(dead_code)]
fn tx(seed: u64, inputs: Vec<CellInput>, outputs: Vec<CellOutput>) -> Transaction {
    let outputs_data = outputs.iter().map(|_| Vec::new()).collect();
    Transaction {
        hash: hash_of(0x1000_0000 + seed),
        witness_hash: hash_of(0x2000_0000 + seed),
        inputs,
        outputs,
        outputs_data,
        header_deps: Vec::new(),
        witnesses: Vec::new(),
        serialized_size: 100,
    }
}

#[allow(dead_code)]
fn cellbase(number: u64, outputs: Vec<CellOutput>) -> Transaction {
    tx(0xcb00_0000 + number, vec![CellInput::new_cellbase_input(number)], outputs)
}

#[allow(dead_code)]
fn spend(seed: u64, since: u64) -> Transaction {
    tx(seed, vec![CellInput::new(OutPoint::new(hash_of(0xfeed + seed), 0), since)], vec![output(1)])
}

#[allow(dead_code)]
fn header(number: u64, hash: Byte32, parent_hash: Byte32, timestamp: u64) -> Header {
    Header {
        hash,
        parent_hash,
        number,
        timestamp,
        difficulty: 1,
        epoch: 0,
        transactions_root: Byte32::zero(),
        proposals_hash: Byte32::zero(),
        witnesses_root: Byte32::zero(),
        uncles_hash: Byte32::zero(),
        dao: Byte32::zero(),
        nonce: 0,
    }
}

#[allow(dead_code)]
fn epoch(number: u64, start_number: u64, length: u64, primary: u64, secondary: u64) -> EpochExt {
    EpochExt {
        number,
        length,
        start_number,
        primary_reward: Capacity::shannons(primary),
        secondary_reward: Capacity::shannons(secondary),
        difficulty: 1,
    }
}

#[allow(dead_code)]
fn consensus() -> Consensus {
    Consensus {
        tx_proposal_window: ProposalWindow { closest: 2, farthest: 10 },
        cellbase_maturity: 4,
        median_time_block_count: 11,
        max_block_cycles: 1_000,
        max_uncles_num: 2,
        max_block_bytes: 10_000,
        max_block_proposals_limit: 100,
        allowed_future_time: 15_000,
        genesis_epoch_ext: epoch(0, 0, 1000, 1_000_000, 100_000),
        dao_type_hash: Some(hash_of(0xda0)),
        satoshi_pubkey_hash: vec![0x62; 20],
        satoshi_cell_occupied_ratio: Ratio { numer: 6, denom: 10 },
    }
}

#[allow(dead_code)]
fn stored(h: Header) -> StoredBlock {
    StoredBlock {
        header: h,
        uncles: Vec::new(),
        proposals: Vec::new(),
        epoch: Some(epoch(0, 0, 1000, 1_000_000, 100_000)),
        next_epoch: None,
        ext: Some(BlockExt {
            total_difficulty: (h.number as u128) + 1,
            total_uncles_count: 0,
            txs_fees: Vec::new(),
        }),
        miner_lock: script(&[0xaa]),
    }
}

/// A store whose main chain has the blocks 0 to `tip`, one second apart.
#[allow(dead_code)]
fn chain(tip: u64) -> ChainStore {
    let mut store = ChainStore::new();
    let mut parent = Byte32::zero();
    for number in 0..=tip {
        let hash = hash_of(0xb10c_0000 + number);
        let mut h = header(number, hash, parent, 1_000_000 + number * 1_000);
        h.dao = pack_dao_data(
            10_000_000_000_000_000,
            Capacity::shannons(1_000_000_000),
            Capacity::shannons(1_000),
        );
        store.blocks.push(stored(h));
        store.main_chain.push(hash);
        parent = hash;
    }
    store
}

#[allow(dead_code)]
fn block_on(store: &ChainStore, transactions: Vec<Transaction>) -> Block {
    let tip = store.tip_header().unwrap();
    let mut h = header(tip.number + 1, hash_of(0xb10c_0000 + tip.number + 1), tip.hash, tip.timestamp + 1_000);
    h.dao = tip.dao;
    Block { header: h, uncles: Vec::new(), transactions, proposals: Vec::new(), serialized_size: 500 }
}

fn new_transaction(seed: u64) -> Transaction {
    spend(seed, 0)
}

fn message_of(transactions: Vec<Transaction>) -> BlockProposal {
    BlockProposal { transactions }
}

#[test]
fn test_no_unknown() {
    let mut relayer = RelayState::new(8);
    let transaction = new_transaction(1);

    // known tx
    relayer.known_txs.push(transaction.hash);

    let block_proposal = message_of(vec![new_transaction(1)]);
    let process = BlockProposalProcess::new(&block_proposal);
    assert_eq!(process.execute(&mut relayer).0.code, StatusCode::Ignored);
}

#[test]
fn test_no_asked() {
    let mut relayer = RelayState::new(8);
    let transaction = new_transaction(1);

    let block_proposal = message_of(vec![new_transaction(1)]);
    let process = BlockProposalProcess::new(&block_proposal);
    assert_eq!(process.execute(&mut relayer).0.code, StatusCode::Ignored);

    let known = relayer.already_known_tx(&transaction.hash);
    assert_eq!(known, false);
}

#[test]
fn block_proposal_process_test_ok() {
    let mut relayer = RelayState::new(8);
    let transaction = new_transaction(1);
    let transactions = vec![new_transaction(1)];
    let proposals: Vec<ProposalShortId> = transactions
        .iter()
        .map(|tx| ProposalShortId::from_tx_hash(&tx.hash))
        .collect();

    // Before asked proposals
    relayer.inflight_proposals.extend(proposals);

    let block_proposal = message_of(transactions);
    let process = BlockProposalProcess::new(&block_proposal);
    assert!(process.execute(&mut relayer).0.is_ok());

    let known = relayer.already_known_tx(&transaction.hash);
    assert_eq!(known, true);
}

#[test]
fn block_proposal_hands_on_what_was_asked_for() {
    let mut relayer = RelayState::new(8);
    let a = new_transaction(1);
    let b = new_transaction(2);
    let c = new_transaction(3);
    relayer.inflight_proposals =
        vec![a.proposal_short_id(), ProposalShortId::zero(), c.proposal_short_id()];
    relayer.known_txs.push(c.hash);

    // `a` comes twice, `b` was never asked for, `c` is known already.
    let message = message_of(vec![
        new_transaction(1),
        new_transaction(2),
        new_transaction(1),
        new_transaction(3),
    ]);
    let (status, asked) = BlockProposalProcess::new(&message).execute(&mut relayer);
    assert_eq!(status.code, StatusCode::OK);
    assert_eq!(asked.len(), 1);
    assert_eq!(asked[0].hash, a.hash);
    assert!(std::ptr::eq(asked[0], &message.transactions[0]));
    assert_eq!(relayer.inflight_proposals, vec![ProposalShortId::zero(), c.proposal_short_id()]);
    assert_eq!(relayer.known_txs, vec![c.hash, a.hash]);
    assert!(!relayer.already_known_tx(&b.hash));

    let empty = message_of(vec![]);
    let (status, asked) = BlockProposalProcess::new(&empty).execute(&mut relayer);
    assert_eq!(status.code, StatusCode::Ignored);
    assert!(asked.is_empty());
}

fn compact(header: Header, prefilled: Vec<(usize, Transaction)>, others: &[Transaction]) -> CompactBlock {
    CompactBlock {
        header,
        uncles: Vec::new(),
        short_ids: others.iter().map(|t| t.proposal_short_id()).collect(),
        prefilled_transactions: prefilled
            .into_iter()
            .map(|(index, transaction)| IndexTransaction { index, transaction })
            .collect(),
        proposals: Vec::new(),
        nonce: 0,
    }
}

fn next_header(store: &ChainStore) -> Header {
    let tip = store.tip_header().unwrap();
    let mut h = header(tip.number + 1, hash_of(0xc0b0), tip.hash, tip.timestamp + 1_000);
    h.difficulty = 5;
    h
}

struct Node {
    store: ChainStore,
    consensus: Consensus,
    pool: TxPool,
}

impl Node {
    fn new(tip: u64, pool: Vec<Transaction>) -> Self {
        Node { store: chain(tip), consensus: consensus(), pool: TxPool { txs: pool } }
    }

    fn context(&self) -> RelayContext<'_> {
        RelayContext {
            store: &self.store,
            consensus: &self.consensus,
            tx_pool: &self.pool,
            best_known_total_difficulty: 21,
            now: 1_100_000,
        }
    }
}

#[test]
fn compact_block_missing_index() {
    let txs = [new_transaction(1), new_transaction(2), new_transaction(3)];
    let (s2, s3) = (txs[1].proposal_short_id(), txs[2].proposal_short_id());
    // The pool of B holds the first transaction only.
    let node = Node::new(20, vec![new_transaction(1)]);
    let context = node.context();
    let mut relayer = RelayState::new(8);
    let h = next_header(&node.store);
    let cb = compact(h, vec![(0, cellbase(21, vec![output(1)]))], &txs);

    let outcome = CompactBlockProcess::new(cb, &context, 7).execute(&mut relayer, true);
    match outcome {
        Ok(CompactBlockOutcome::Pending { block_hash, missing, proposals }) => {
            assert_eq!(block_hash, h.hash);
            assert_eq!(missing, vec![2, 3]);
            assert!(proposals.is_empty());
        }
        other => panic!("unexpected {:?}", other),
    }
    assert_eq!(relayer.pending_compact_blocks.len(), 1);
    let entry = relayer.pending_compact_blocks.get(&h.hash).unwrap();
    assert_eq!(entry.peers.len(), 1);
    assert_eq!(entry.peers[0].peer, 7);
    assert_eq!(entry.peers[0].indexes, vec![2, 3]);
    assert!(relayer.already_known_compact_block(&h.hash));

    // Another peer is not heard.
    let answer = BlockTransactions {
        block_hash: h.hash,
        transactions: vec![new_transaction(2), new_transaction(3)],
    };
    let outcome = BlockTransactionsProcess::new(&answer, &node.pool, 8).execute(&mut relayer);
    assert!(matches!(outcome, Ok(BlockTransactionsOutcome::NotAwaited)));
    assert_eq!(relayer.pending_compact_blocks.len(), 1);

    // The answer in the wrong order is rejected.
    let mut other = RelayState::new(8);
    let cb = compact(h, vec![(0, cellbase(21, vec![output(1)]))], &txs);
    CompactBlockProcess::new(cb, &context, 7).execute(&mut other, true).unwrap();
    let swapped = BlockTransactions {
        block_hash: h.hash,
        transactions: vec![new_transaction(3), new_transaction(2)],
    };
    let outcome = BlockTransactionsProcess::new(&swapped, &node.pool, 7).execute(&mut other);
    assert_eq!(
        outcome.err(),
        Some(RelayError::Misbehavior(Misbehavior::InvalidBlockTransactions {
            expected: s2,
            got: s3
        }))
    );
    assert_eq!(other.pending_compact_blocks.len(), 1);

    // The answer asked for completes the block.
    let outcome = BlockTransactionsProcess::new(&answer, &node.pool, 7).execute(&mut relayer);
    match outcome {
        Ok(BlockTransactionsOutcome::Accept { compact_block, sources }) => {
            assert_eq!(
                sources,
                vec![
                    TxSource::Prefilled(0),
                    TxSource::Pool(0),
                    TxSource::Provided(0),
                    TxSource::Provided(1)
                ]
            );
            let hashes: Vec<Byte32> = sources
                .iter()
                .map(|s| {
                    resolve_source(&compact_block, &node.pool, &answer.transactions, *s)
                        .unwrap()
                        .hash
                })
                .collect();
            assert_eq!(
                hashes,
                vec![cellbase(21, vec![]).hash, txs[0].hash, txs[1].hash, txs[2].hash]
            );
        }
        other => panic!("unexpected {:?}", other),
    }
    assert_eq!(relayer.pending_compact_blocks.len(), 0);

    // Nothing is pending any more.
    let outcome = BlockTransactionsProcess::new(&answer, &node.pool, 7).execute(&mut relayer);
    assert!(matches!(outcome, Ok(BlockTransactionsOutcome::NotPending)));
}

#[test]
fn block_transactions_of_the_wrong_number_are_rejected() {
    let txs = [new_transaction(1), new_transaction(2)];
    let node = Node::new(20, vec![]);
    let context = node.context();
    let mut relayer = RelayState::new(8);
    let h = next_header(&node.store);
    let cb = compact(h, vec![(0, cellbase(21, vec![output(1)]))], &txs);
    CompactBlockProcess::new(cb, &context, 7).execute(&mut relayer, true).unwrap();
    let answer = BlockTransactions { block_hash: h.hash, transactions: vec![new_transaction(1)] };
    assert_eq!(
        BlockTransactionsProcess::new(&answer, &node.pool, 7).execute(&mut relayer).err(),
        Some(RelayError::Misbehavior(Misbehavior::InvalidBlockTransactionsLength {
            expected: 2,
            got: 1
        }))
    );
}

#[test]
fn compact_block_is_accepted_when_the_pool_holds_everything() {
    let txs = [new_transaction(1), new_transaction(2)];
    let node = Node::new(20, vec![new_transaction(2), new_transaction(9), new_transaction(1)]);
    let context = node.context();
    let mut relayer = RelayState::new(8);
    let h = next_header(&node.store);
    let mut cb = compact(h, vec![(1, new_transaction(1))], &[txs[1].clone()]);
    cb.prefilled_transactions.insert(
        0,
        IndexTransaction { index: 0, transaction: cellbase(21, vec![output(1)]) },
    );
    cb.proposals = vec![new_transaction(9).proposal_short_id(), new_transaction(5).proposal_short_id()];
    let asked = new_transaction(5).proposal_short_id();

    match CompactBlockProcess::new(cb, &context, 7).execute(&mut relayer, true) {
        Ok(CompactBlockOutcome::Accept { compact_block: _, sources, proposals }) => {
            assert_eq!(
                sources,
                vec![TxSource::Prefilled(0), TxSource::Prefilled(1), TxSource::Pool(0)]
            );
            // The pool holds one proposal; the other is asked for.
            assert_eq!(proposals, vec![asked]);
        }
        other => panic!("unexpected {:?}", other),
    }
    assert_eq!(relayer.inflight_proposals, vec![asked]);
    assert_eq!(relayer.pending_compact_blocks.len(), 0);
}


#[test]
fn compact_block_is_dropped_or_deferred() {
    let node = Node::new(20, vec![]);
    let context = node.context();
    let h = next_header(&node.store);
    let fresh = |h: Header| compact(h, vec![(0, cellbase(21, vec![output(1)]))], &[]);

    // Seen before.
    let mut relayer = RelayState::new(8);
    relayer.known_compact_blocks.push(h.hash);
    let out = CompactBlockProcess::new(fresh(h), &context, 7).execute(&mut relayer, true);
    assert!(matches!(out, Ok(CompactBlockOutcome::AlreadyKnown)));
    assert_eq!(relayer.known_compact_blocks.len(), 1);

    // Parent unknown: headers are asked for.
    let mut relayer = RelayState::new(8);
    let mut orphan = h;
    orphan.parent_hash = hash_of(0x404);
    let out = CompactBlockProcess::new(fresh(orphan), &context, 7).execute(&mut relayer, true);
    assert!(matches!(out, Ok(CompactBlockOutcome::UnknownParent)));
    assert!(relayer.already_known_compact_block(&h.hash));

    // Total difficulty 21 + 5 against a best of 26 and of 25.
    let mut equal = node.context();
    equal.best_known_total_difficulty = 26;
    let mut relayer = RelayState::new(8);
    let out = CompactBlockProcess::new(fresh(h), &equal, 7).execute(&mut relayer, true);
    assert!(matches!(out, Ok(CompactBlockOutcome::NotBetter)));
    equal.best_known_total_difficulty = 25;
    let mut relayer = RelayState::new(8);
    let out = CompactBlockProcess::new(fresh(h), &equal, 7).execute(&mut relayer, true);
    assert!(matches!(out, Ok(CompactBlockOutcome::Accept { .. })));

    // Stored already.
    let mut relayer = RelayState::new(8);
    let mut stored_header = node.store.tip_header().unwrap();
    stored_header.difficulty = 50;
    let out = CompactBlockProcess::new(fresh(stored_header), &context, 7).execute(&mut relayer, true);
    assert!(matches!(out, Ok(CompactBlockOutcome::AlreadyProcessed)));
    assert!(relayer.known_compact_blocks.is_empty());
    // A stored block is dropped before its parent is looked for.
    let mut parentless = node.store.tip_header().unwrap();
    parentless.parent_hash = hash_of(0x404);
    let out = CompactBlockProcess::new(fresh(parentless), &context, 7).execute(&mut relayer, true);
    assert!(matches!(out, Ok(CompactBlockOutcome::AlreadyProcessed)));
    assert!(relayer.known_compact_blocks.is_empty());
    assert_eq!(relayer.pending_compact_blocks.len(), 0);

    // Header faults.
    let mut relayer = RelayState::new(8);
    let out = CompactBlockProcess::new(fresh(h), &context, 7).execute(&mut relayer, false);
    assert!(matches!(out, Ok(CompactBlockOutcome::InvalidHeader(HeaderError::Pow))));
    let mut relayer = RelayState::new(8);
    let mut wrong_number = h;
    wrong_number.number = 25;
    let out = CompactBlockProcess::new(fresh(wrong_number), &context, 7).execute(&mut relayer, true);
    assert!(matches!(out, Ok(CompactBlockOutcome::InvalidHeader(HeaderError::Number))));

    // Format faults are misbehaviour.
    let mut relayer = RelayState::new(8);
    let no_cellbase = compact(h, vec![(0, new_transaction(1))], &[]);
    let out = CompactBlockProcess::new(no_cellbase, &context, 7).execute(&mut relayer, true);
    assert_eq!(out.err(), Some(RelayError::Misbehavior(Misbehavior::CellbaseNotPrefilled)));
    assert_eq!(relayer.pending_compact_blocks.len(), 0);
    assert!(relayer.inflight_proposals.is_empty());
}

#[test]
fn compact_block_verifier_names_each_fault() {
    let h = header(1, hash_of(1), Byte32::zero(), 0);
    let verify = |cb: CompactBlock| CompactBlockVerifier::new().verify(&cb).err();
    let fault = |m: Misbehavior| Some(RelayError::Misbehavior(m));
    let base = || (0usize, cellbase(1, vec![output(1)]));

    assert_eq!(verify(compact(h, vec![base()], &[new_transaction(1)])), None);
    assert_eq!(verify(compact(h, vec![], &[])), fault(Misbehavior::CellbaseNotPrefilled));
    assert_eq!(
        verify(compact(h, vec![(1, cellbase(1, vec![]))], &[new_transaction(1)])),
        fault(Misbehavior::CellbaseNotPrefilled)
    );
    assert_eq!(
        verify(compact(h, vec![(0, new_transaction(1))], &[])),
        fault(Misbehavior::CellbaseNotPrefilled)
    );
    assert_eq!(
        verify(compact(
            h,
            vec![base(), (2, new_transaction(1)), (2, new_transaction(2))],
            &[new_transaction(3)]
        )),
        fault(Misbehavior::UnorderedPrefilledTransactions)
    );
    assert_eq!(
        verify(compact(h, vec![base(), (2, new_transaction(1))], &[])),
        fault(Misbehavior::OverflowPrefilledTransactions)
    );
    assert_eq!(
        verify(compact(h, vec![base(), (1, cellbase(1, vec![]))], &[])),
        fault(Misbehavior::DuplicatedPrefilledTransactions)
    );
    assert_eq!(
        verify(compact(h, vec![base()], &[new_transaction(1), new_transaction(1)])),
        fault(Misbehavior::DuplicatedShortIds)
    );
    assert_eq!(
        verify(compact(h, vec![base(), (1, new_transaction(1))], &[new_transaction(1)])),
        fault(Misbehavior::DuplicatedShortIds)
    );
}

#[test]
fn reconstruction_prefers_prefilled_then_provided_then_pool() {
    let h = header(1, hash_of(1), Byte32::zero(), 0);
    let a = new_transaction(1);
    let cb = compact(h, vec![(0, cellbase(1, vec![])), (2, new_transaction(2))], &[a.clone()]);
    let pool = TxPool { txs: vec![new_transaction(1), new_transaction(2)] };
    let provided = vec![new_transaction(1)];
    assert_eq!(
        reconstruct_block(&cb, &pool, &provided),
        Ok(vec![TxSource::Prefilled(0), TxSource::Provided(0), TxSource::Prefilled(1)])
    );
    assert_eq!(
        reconstruct_block(&cb, &pool, &[]),
        Ok(vec![TxSource::Prefilled(0), TxSource::Pool(0), TxSource::Prefilled(1)])
    );
    assert_eq!(reconstruct_block(&cb, &TxPool::new(), &[]), Err(vec![1]));
    assert_eq!(resolve_source(&cb, &pool, &provided, TxSource::Pool(5)), None);
}

#[test]
fn pending_pool_drops_the_least_recently_used_block() {
    let mut pool = PendingCompactBlocks::new(2);
    let entry = |seed: u64| PendingEntry {
        compact_block: compact(header(1, hash_of(seed), Byte32::zero(), 0), vec![], &[]),
        peers: vec![PeerRequest { peer: seed, indexes: vec![seed as usize] }],
    };
    let hashes = |pool: &PendingCompactBlocks| -> Vec<Byte32> {
        pool.entries.iter().map(|e| e.compact_block.header.hash).collect()
    };
    pool.insert(entry(1));
    pool.insert(entry(2));
    assert_eq!(hashes(&pool), vec![hash_of(1), hash_of(2)]);
    // Looking a block up counts as use.
    assert!(pool.contains_key(&hash_of(1)));
    assert!(!pool.contains_key(&hash_of(9)));
    assert_eq!(hashes(&pool), vec![hash_of(2), hash_of(1)]);
    // The third block pushes the least recently used one out.
    pool.insert(entry(3));
    assert_eq!(hashes(&pool), vec![hash_of(1), hash_of(3)]);
    assert!(pool.get(&hash_of(2)).is_none());
    // Reading without use leaves the order alone.
    assert_eq!(pool.get(&hash_of(1)).unwrap().peers[0].peer, 1);
    assert_eq!(hashes(&pool), vec![hash_of(1), hash_of(3)]);
    // A block put again replaces the old one and is the most recent.
    pool.insert(entry(1));
    assert_eq!(hashes(&pool), vec![hash_of(3), hash_of(1)]);
    assert_eq!(pool.len(), 2);
    assert_eq!(pool.remove(&hash_of(3)).unwrap().peers[0].peer, 3);
    assert!(pool.remove(&hash_of(3)).is_none());
    assert_eq!(hashes(&pool), vec![hash_of(1)]);
    assert_eq!(pool.take_request(0, 1), Some(vec![1]));
    assert_eq!(pool.take_request(0, 1), None);
    assert_eq!(pool.headers().len(), 1);
    // The order kept by the cache is the order of the blocks.
    assert_eq!(pool.order.len(), 1);

    let mut none = PendingCompactBlocks::new(0);
    none.insert(entry(1));
    assert_eq!(none.len(), 0);
}

#[test]
fn get_block_proposal_answers_from_the_pool() {
    let pool = TxPool { txs: vec![new_transaction(1), new_transaction(2)] };
    let mut relayer = RelayState::new(8);
    let id = |seed| new_transaction(seed).proposal_short_id();
    let message = GetBlockProposal { proposals: vec![id(2), id(7), id(1), id(8), id(7)] };
    let found = GetBlockProposalProcess::new(&message, &pool, 5).execute(&mut relayer);
    let hashes: Vec<Byte32> = found.iter().map(|t| t.hash).collect();
    assert_eq!(hashes, vec![new_transaction(2).hash, new_transaction(1).hash]);
    // The peer waits for what the pool lacks, once for each proposal.
    assert_eq!(relayer.pending_proposal_requests.len(), 2);
    assert!(relayer
        .pending_proposal_requests
        .iter()
        .all(|r| r.peers == vec![5] && (r.short_id == id(7) || r.short_id == id(8))));
    // Another peer joins the wait.
    let message = GetBlockProposal { proposals: vec![id(8)] };
    GetBlockProposalProcess::new(&message, &pool, 6).execute(&mut relayer);
    let waiting = relayer.pending_proposal_requests.iter().find(|r| r.short_id == id(8)).unwrap();
    assert_eq!(waiting.peers, vec![5, 6]);
    // When the transaction arrives, it is owed to those who wait.
    assert_eq!(take_waiting_peers(&mut relayer.pending_proposal_requests, &id(8)), vec![5, 6]);
    assert!(take_waiting_peers(&mut relayer.pending_proposal_requests, &id(8)).is_empty());
    assert_eq!(relayer.pending_proposal_requests.len(), 1);
    assert_eq!(take_waiting_peers(&mut relayer.pending_proposal_requests, &id(7)), vec![5]);
    assert!(relayer.pending_proposal_requests.is_empty());
}

#[test]
fn transaction_hash_is_asked_with_growing_delay() {
    let pool = TxPool { txs: vec![new_transaction(1)] };
    let mut relayer = RelayState::new(8);
    relayer.peers.push(PeerRelayState::new(3));
    relayer.peers.push(PeerRelayState::new(4));
    let run = |relayer: &mut RelayState, seed: u64, peer: u64, now: u64| {
        let hash = new_transaction(seed).hash;
        TransactionHashProcess::new(&hash, &pool, peer, now).execute(relayer)
    };

    // In the pool: known from now on.
    assert_eq!(run(&mut relayer, 1, 3, 1_000), TransactionHashOutcome::InPool);
    assert_eq!(run(&mut relayer, 1, 3, 1_000), TransactionHashOutcome::AlreadyKnown);
    // New: asked of the announcing peer at once.
    assert_eq!(run(&mut relayer, 2, 3, 1_000), TransactionHashOutcome::Asked(1_000));
    // The same peer announces again: nothing new.
    assert_eq!(run(&mut relayer, 2, 3, 2_000), TransactionHashOutcome::NotAsked);
    // Another peer: thirty seconds after the last time given.
    assert_eq!(run(&mut relayer, 2, 4, 2_000), TransactionHashOutcome::Asked(31_000));
    assert_eq!(relayer.tx_already_asked.len(), 1);
    assert_eq!(relayer.tx_already_asked[0].next_ask, 31_000);
    // An unknown peer is not asked.
    assert_eq!(run(&mut relayer, 2, 9, 2_000), TransactionHashOutcome::NotAsked);
    // Long after, the time is now.
    relayer.peers.push(PeerRelayState::new(5));
    assert_eq!(run(&mut relayer, 2, 5, 100_000), TransactionHashOutcome::Asked(100_000));
    assert_eq!(relayer.peers[0].tx_ask_for.len(), 1);
    assert_eq!(relayer.known_txs, vec![new_transaction(1).hash]);
}

#[test]
fn proposals_of_block_and_uncles_are_requested_once() {
    let pool = TxPool { txs: vec![new_transaction(1)] };
    let id = |seed| new_transaction(seed).proposal_short_id();
    let mut cb = compact(header(1, hash_of(1), Byte32::zero(), 0), vec![], &[]);
    cb.proposals = vec![id(1), id(2), id(3)];
    cb.uncles = vec![UncleBlock {
        header: header(1, hash_of(2), Byte32::zero(), 0),
        proposals: vec![id(3), id(4)],
    }];
    let mut inflight = vec![id(2)];
    assert_eq!(request_proposal_txs(&mut inflight, &pool, &cb), vec![id(3), id(4)]);
    assert_eq!(inflight, vec![id(2), id(3), id(4)]);
}

#[test]
fn header_verifier_checks_number_and_time() {
    let store = chain(20);
    let consensus = consensus();
    let pending = Vec::new();
    // The median of the timestamps of blocks 10 to 20 is that of block 15.
    let median = 1_000_000 + 15 * 1_000;
    let verifier = HeaderVerifier::new(&pending, &store, &consensus, 2_000_000);
    let mut h = next_header(&store);
    h.timestamp = median + 1;
    assert_eq!(verifier.verify(&h, true), Ok(()));
    h.timestamp = median;
    assert_eq!(verifier.verify(&h, true), Err(HeaderError::BlockTimeTooOld));
    h.timestamp = 2_000_000 + 15_000;
    assert_eq!(verifier.verify(&h, true), Ok(()));
    h.timestamp = 2_000_000 + 15_001;
    assert_eq!(verifier.verify(&h, true), Err(HeaderError::BlockTimeTooNew));
    assert_eq!(verifier.verify(&h, false), Err(HeaderError::Pow));
    h.parent_hash = hash_of(0x404);
    assert_eq!(verifier.verify(&h, true), Err(HeaderError::UnknownParent));

    // A pending header serves as parent.
    let first = next_header(&store);
    let pending = vec![first];
    let verifier = HeaderVerifier::new(&pending, &store, &consensus, 2_000_000);
    let second = header(22, hash_of(0xc0b1), first.hash, first.timestamp + 1);
    assert_eq!(verifier.verify(&second, true), Ok(()));

    let view = CompactBlockMedianTimeView {
        anchor_hash: &first.hash,
        pending: &pending,
        store: &store,
        consensus: &consensus,
    };
    assert_eq!(view.median_block_count(), 11);
    assert_eq!(view.get_header(&first.hash), Some(first));
    assert_eq!(view.timestamp_and_parent(&first.hash), (first.timestamp, first.parent_hash));
    assert_eq!(view.get_block_hash(21), Some(first.hash));
    assert_eq!(view.get_block_hash(20), Some(store.main_chain[20]));
    assert_eq!(view.get_block_hash(3), Some(store.main_chain[3]));
    assert_eq!(view.get_block_hash(22), None);
}
