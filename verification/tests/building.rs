use ckb_node_core::block_verifier::MerkleRootVerifier;
use ckb_node_core::building::{
    always_success_code_hash, always_success_out_point, always_success_script, blank,
    build_transaction, build_transaction_with_hash, build_transaction_with_tip_cellbase, commit,
    genesis_cellbase_hash, new_block_with_template, propose, tip_cellbase_out_point, with_nonce,
    with_roots, ALWAYS_OUTPUT_CAPACITY, HASH_TYPE_DATA, HASH_TYPE_TYPE,
};
use ckb_node_core::consensus::{EpochExt, EpochNumberWithFraction};
use ckb_node_core::dao_tx::{
    commit_elapsed, deposit_cell_deps, deposit_input, deposit_output, deposit_transaction,
    deposit_type_script, immature_unlock_point, overpaid, redeposited, target_reached,
    with_since, withdraw_cell_deps, withdraw_header_deps, withdraw_input, withdraw_output,
    withdraw_transaction,
};
use ckb_node_core::dao_utils::pack_dao_data;
use ckb_node_core::dao_verifier::{BlockSummary, DAOVerifier};
use ckb_node_core::error::BlockErrorKind;
use ckb_node_core::generic::{GetProposalId, GetProposalIds};
use ckb_node_core::merkle::hash_bytes;
use ckb_node_core::primitives::{Byte32, Capacity, CapacityError, ProposalShortId};
use ckb_node_core::specs::{
    AlertPropagation, GenesisIssuedCells, MiningBasic, TransactionRelayBasic,
    TransactionRelayMultiple, WithdrawAndDepositDAOWithinSameTx, WithdrawDAO,
    WithdrawDAOWithOverflowCapacity, WithdrawImmatureDAO, MIN_CAPACITY,
};
use ckb_node_core::types::{
    Block, CellInput, CellOutput, Header, OutPoint, Script, Transaction, UncleBlock,
};

fn hash(seed: u8) -> Byte32 {
    let mut bytes = [seed; 32];
    bytes[31] = seed.wrapping_add(1);
    Byte32::new(bytes)
}

fn lock() -> Script {
    always_success_script(hash(0xaa))
}

fn transaction(seed: u8) -> Transaction {
    build_transaction_with_hash(hash(seed), lock()).seal(
        hash(seed.wrapping_add(100)),
        hash(seed.wrapping_add(200)),
        180,
    )
}

fn header(number: u64) -> Header {
    Header {
        hash: hash(number as u8),
        parent_hash: hash(number.wrapping_sub(1) as u8),
        number,
        timestamp: 1_000 * number,
        difficulty: 1,
        epoch: EpochNumberWithFraction::new(0, number, 1_000).full_value(),
        transactions_root: Byte32::zero(),
        proposals_hash: Byte32::zero(),
        witnesses_root: Byte32::zero(),
        uncles_hash: Byte32::zero(),
        dao: Byte32::zero(),
        nonce: 7,
    }
}

fn example() -> Block {
    Block {
        header: header(4),
        uncles: vec![UncleBlock { header: header(3), proposals: Vec::new() }],
        transactions: vec![transaction(1), transaction(2), transaction(3)],
        proposals: vec![ProposalShortId::new([9u8; 10])],
        serialized_size: 900,
    }
}

#[test]
fn a_proposal_is_named_by_its_short_id() {
    let tx = transaction(5);
    let id = tx.get_proposal();
    assert_eq!(id, tx.proposal_short_id());
    assert_eq!(&id.bytes[..], &tx.hash.bytes[..10]);
    assert_eq!(id.get_proposal(), id);
    assert_eq!(tx.get_proposal_ids(), vec![id]);
    assert_eq!(id.get_proposal_ids(), vec![id]);
}

#[test]
fn proposals_of_lists_and_blocks_keep_their_order() {
    let txs = vec![transaction(1), transaction(2), transaction(3)];
    let ids = txs.get_proposal_ids();
    assert_eq!(
        ids,
        vec![txs[0].proposal_short_id(), txs[1].proposal_short_id(), txs[2].proposal_short_id()]
    );
    assert_eq!(Vec::<Transaction>::new().get_proposal_ids(), Vec::new());
    assert_eq!(ids.get_proposal_ids(), ids);

    let block = example();
    assert_eq!(block.get_proposal_ids(), vec![ProposalShortId::new([9u8; 10])]);
}

#[test]
fn a_transaction_built_to_pass_has_one_output_of_a_hundred_bytes() {
    let input = CellInput::new(OutPoint::new(hash(1), 3), 17);
    let draft = build_transaction(input, lock());
    assert_eq!(draft.inputs, vec![input]);
    assert_eq!(ALWAYS_OUTPUT_CAPACITY, Capacity::bytes(100).unwrap().as_u64());
    assert_eq!(
        draft.outputs,
        vec![CellOutput {
            capacity: Capacity::shannons(10_000_000_000),
            lock: Script { code_hash: hash(0xaa), hash_type: HASH_TYPE_DATA, args: Vec::new() },
            type_: None,
        }]
    );
    assert_eq!(draft.outputs_data, vec![Vec::<u8>::new()]);
    assert!(draft.header_deps.is_empty());
    assert!(draft.witnesses.is_empty());

    let draft = build_transaction_with_hash(hash(8), lock());
    assert_eq!(draft.inputs, vec![CellInput::new(OutPoint::new(hash(8), 0), 0)]);

    let tx = draft.seal(hash(20), hash(21), 99);
    assert_eq!(tx.hash, hash(20));
    assert_eq!(tx.witness_hash, hash(21));
    assert_eq!(tx.serialized_size, 99);
    assert_eq!(tx.inputs, vec![CellInput::new(OutPoint::new(hash(8), 0), 0)]);
    assert_eq!(tx.outputs.len(), 1);
}

#[test]
fn cells_of_the_genesis_block_and_of_the_tip() {
    assert_eq!(always_success_out_point(hash(3)), OutPoint::new(hash(3), 1));
    let mut block = example();
    assert_eq!(tip_cellbase_out_point(&block), OutPoint::new(block.transactions[0].hash, 0));
    assert_eq!(genesis_cellbase_hash(&block), block.transactions[0].hash);
    assert_eq!(
        build_transaction_with_tip_cellbase(&block, lock()).inputs,
        vec![CellInput::new(OutPoint::new(block.transactions[0].hash, 0), 0)]
    );

    block.transactions[0].outputs_data = vec![vec![1, 2, 3], Vec::new()];
    // The digest of no data, under the personalisation of the chain.
    let code_hash = always_success_code_hash(&block);
    assert_eq!(code_hash, hash_bytes(&[]));
    assert_eq!(&code_hash.bytes[..4], &[0x44, 0xf4, 0xc6, 0x97]);
    block.transactions[0].outputs_data = vec![Vec::new(), vec![1, 2, 3]];
    assert_eq!(always_success_code_hash(&block), hash_bytes(&[1, 2, 3]));
    assert_ne!(always_success_code_hash(&block), code_hash);
}

#[test]
fn a_blank_block_keeps_the_cellbase_alone() {
    let block = blank(example());
    assert_eq!(block.transactions, vec![transaction(1)]);
    assert!(block.proposals.is_empty());
    assert!(block.uncles.is_empty());
    assert_eq!(block.serialized_size, 900);
    assert_eq!(block.header.hash, example().header.hash);
    assert_eq!(block.header.number, 4);
    assert_eq!(block.header.nonce, 7);
    // One leaf is its own root; no proposal hashes to zero.
    assert_eq!(block.header.transactions_root, transaction(1).hash);
    assert_eq!(block.header.witnesses_root, transaction(1).witness_hash);
    assert_eq!(block.header.proposals_hash, Byte32::zero());
    assert_eq!(MerkleRootVerifier::new().verify(&block), Ok(()));
}

#[test]
fn committed_and_proposed_blocks_carry_their_roots() {
    let committed = commit(example(), vec![transaction(7), transaction(8)]);
    assert_eq!(committed.transactions, vec![transaction(1), transaction(7), transaction(8)]);
    assert!(committed.proposals.is_empty());
    assert!(committed.uncles.is_empty());
    assert_eq!(MerkleRootVerifier::new().verify(&committed), Ok(()));
    assert_ne!(committed.header.transactions_root, blank(example()).header.transactions_root);

    let proposals = vec![transaction(7), transaction(8)];
    let proposed = propose(example(), &proposals);
    assert_eq!(proposed.transactions, vec![transaction(1)]);
    assert_eq!(
        proposed.proposals,
        vec![transaction(7).proposal_short_id(), transaction(8).proposal_short_id()]
    );
    assert_eq!(MerkleRootVerifier::new().verify(&proposed), Ok(()));
    assert_ne!(proposed.header.proposals_hash, Byte32::zero());

    // The roots follow what the block holds.
    let mut tampered = proposed.clone();
    tampered.proposals.pop();
    assert_eq!(
        MerkleRootVerifier::new().verify(&tampered),
        Err(BlockErrorKind::UnmatchedProposalRoot)
    );
    assert_eq!(MerkleRootVerifier::new().verify(&with_roots(tampered)), Ok(()));
}

#[test]
fn a_deposit_carries_the_type_script_of_the_dao() {
    let script = deposit_type_script(hash(0xd0));
    assert_eq!(
        script,
        Script { code_hash: hash(0xd0), hash_type: HASH_TYPE_TYPE, args: Vec::new() }
    );
    assert_eq!(HASH_TYPE_TYPE, 1);
    assert_eq!(deposit_input(OutPoint::new(hash(1), 2)), CellInput::new(OutPoint::new(hash(1), 2), 0));
    let output = deposit_output(Capacity::shannons(5_000), lock(), hash(0xd0));
    assert_eq!(
        output,
        CellOutput { capacity: Capacity::shannons(5_000), lock: lock(), type_: Some(script.clone()) }
    );
    assert!(output.has_type(&hash(0xd0)));

    let deps = deposit_cell_deps(OutPoint::new(hash(3), 1), hash(3), 2);
    assert_eq!(deps, vec![OutPoint::new(hash(3), 1), OutPoint::new(hash(3), 2)]);
    assert_eq!(withdraw_cell_deps(OutPoint::new(hash(3), 1), hash(3), 2), deps);

    let draft = deposit_transaction(
        OutPoint::new(hash(1), 0),
        Capacity::shannons(5_000),
        lock(),
        hash(0xd0),
    );
    assert_eq!(draft.inputs, vec![CellInput::new(OutPoint::new(hash(1), 0), 0)]);
    assert_eq!(draft.outputs, vec![output]);
    assert_eq!(draft.outputs_data, vec![Vec::<u8>::new()]);
    assert_eq!(draft.witnesses, vec![Vec::<u8>::new()]);
    assert!(draft.header_deps.is_empty());
}

#[test]
fn a_withdrawal_waits_180_epochs_and_points_at_its_header() {
    let deposit_epoch = EpochNumberWithFraction::new(5, 1, 2).full_value();
    let unlock = EpochNumberWithFraction::new(185, 1, 2).full_value();
    assert_eq!(unlock, (2u64 << 40) | (1u64 << 24) | 185);
    let since = 0x2000_0000_0000_0000u64 | unlock;

    let input = withdraw_input(OutPoint::new(hash(1), 0), deposit_epoch);
    assert_eq!(input, CellInput::new(OutPoint::new(hash(1), 0), since));
    assert_eq!(
        withdraw_output(Capacity::shannons(5_100), lock()),
        CellOutput { capacity: Capacity::shannons(5_100), lock: lock(), type_: None }
    );
    assert_eq!(withdraw_header_deps(hash(10), hash(20)), vec![hash(10), hash(20)]);

    let draft = withdraw_transaction(
        OutPoint::new(hash(1), 0),
        deposit_epoch,
        hash(10),
        hash(20),
        Capacity::shannons(5_100),
        lock(),
    );
    assert_eq!(draft.inputs, vec![input]);
    assert_eq!(
        draft.outputs,
        vec![CellOutput { capacity: Capacity::shannons(5_100), lock: lock(), type_: None }]
    );
    assert_eq!(draft.outputs_data, vec![Vec::<u8>::new()]);
    assert_eq!(draft.header_deps, vec![hash(10), hash(20)]);
    assert_eq!(draft.witnesses, vec![vec![1u8, 0, 0, 0, 0, 0, 0, 0]]);

    // Deposit and withdrawal in one block: the first header is the one.
    let draft = withdraw_transaction(
        OutPoint::new(hash(1), 0),
        deposit_epoch,
        hash(10),
        hash(10),
        Capacity::shannons(5_100),
        lock(),
    );
    assert_eq!(draft.witnesses, vec![vec![0u8; 8]]);
}

#[test]
fn a_withdrawal_is_changed_for_the_cases_that_fail() {
    let deposit_epoch = EpochNumberWithFraction::new(5, 1, 2).full_value();
    let draft = || {
        withdraw_transaction(
            OutPoint::new(hash(1), 0),
            deposit_epoch,
            hash(10),
            hash(20),
            Capacity::shannons(5_100),
            lock(),
        )
    };

    let immature = immature_unlock_point(deposit_epoch);
    assert_eq!(immature, EpochNumberWithFraction::new(184, 1, 2));
    let early = with_since(draft(), 0x2000_0000_0000_0000 | immature.full_value());
    assert_eq!(
        early.inputs,
        vec![CellInput::new(
            OutPoint::new(hash(1), 0),
            0x2000_0000_0000_0000 | (2u64 << 40) | (1u64 << 24) | 184
        )]
    );
    assert_eq!(early.outputs, draft().outputs);
    assert_eq!(early.header_deps, draft().header_deps);
    assert_eq!(early.witnesses, draft().witnesses);

    let again = redeposited(draft(), hash(0xd0));
    assert_eq!(again.inputs, draft().inputs);
    assert_eq!(
        again.outputs,
        vec![deposit_output(Capacity::shannons(5_100), lock(), hash(0xd0))]
    );

    let more = overpaid(draft()).unwrap();
    assert_eq!(
        more.outputs,
        vec![CellOutput { capacity: Capacity::shannons(5_101), lock: lock(), type_: None }]
    );
    assert_eq!(more.inputs, draft().inputs);

    let mut full = draft();
    full.outputs[0].capacity = Capacity::shannons(u64::MAX);
    assert_eq!(overpaid(full).err(), Some(CapacityError::Overflow));
}

#[test]
fn the_chain_is_mined_up_to_the_target_point() {
    let target = EpochNumberWithFraction::new(185, 1, 2);
    let at = |number: u64, index: u64, length: u64| {
        EpochNumberWithFraction::new(number, index, length).full_value()
    };
    assert!(!target_reached(at(184, 1, 2), &target));
    assert!(!target_reached(at(185, 0, 2), &target));
    assert!(target_reached(at(185, 1, 2), &target));
    // The same place in a longer epoch.
    assert!(target_reached(at(185, 2, 4), &target));
    assert!(!target_reached(at(185, 1, 4), &target));
    assert!(target_reached(at(186, 0, 2), &target));

    assert_eq!(commit_elapsed(2), Some(4));
    assert_eq!(commit_elapsed(u64::MAX - 1), None);
}

#[test]
fn the_genesis_numbers_of_the_dao() {
    let epochs = vec![EpochExt {
        number: 0,
        length: 2,
        start_number: 0,
        primary_reward: Capacity::shannons(2_001),
        secondary_reward: Capacity::shannons(200),
        difficulty: 1,
    }];
    let genesis = BlockSummary {
        dao: pack_dao_data(10u64.pow(16), Capacity::shannons(1_001_101), Capacity::shannons(500)),
        capacity_out: 1_000_000,
        capacity_in: 0,
        occupied_out: 500,
        occupied_in: 0,
        interest: 0,
    };
    let verifier = DAOVerifier::new(epochs, vec![genesis]);
    // C(0) = 1_000_000 - 0 + 1_001 + 100.
    assert_eq!(verifier.C0(), Some(1_001_101));
    assert_eq!(verifier.U0(), Some(500));
    assert_eq!(verifier.S0(), Some(100));
    assert_eq!(verifier.C0(), verifier.C(0));
    assert_eq!(verifier.U0(), verifier.U(0));
    assert_eq!(verifier.S0(), verifier.s(0));

    let empty = DAOVerifier::new(Vec::new(), Vec::new());
    assert_eq!(empty.C0(), None);
    assert_eq!(empty.U0(), None);
    assert_eq!(empty.S0(), None);
}

#[test]
fn the_scenarios_of_the_dao_run_on_short_epochs() {
    assert_eq!(WithdrawDAO.name(), "withdraw_dao");
    assert_eq!(WithdrawImmatureDAO.name(), "withdraw_immature_dao");
    assert_eq!(
        WithdrawAndDepositDAOWithinSameTx.name(),
        "withdraw_and_deposit_dao_within_same_tx"
    );
    assert_eq!(WithdrawDAOWithOverflowCapacity.name(), "withdraw_dao_with_overflow_capacity");
    let chain = WithdrawDAO.chain();
    assert_eq!(chain.genesis_epoch_length, 2);
    assert_eq!(chain.epoch_duration_target, 2);
    assert!(chain.permanent_difficulty_in_dummy);
    assert_eq!(WithdrawImmatureDAO.chain(), chain);
    assert_eq!(WithdrawAndDepositDAOWithinSameTx.chain(), chain);
    assert_eq!(WithdrawDAOWithOverflowCapacity.chain(), chain);
    assert_eq!(WithdrawDAO.warm_up_blocks(), 12);
    assert_eq!(WithdrawDAO.setup().num_nodes, 1);
    assert_eq!(WithdrawImmatureDAO.refusal(), "ValidationFailure(-17)");
    assert_eq!(WithdrawDAOWithOverflowCapacity.refusal(), "CapacityOverflow");
}

#[test]
fn the_scenarios_of_mining_relay_and_alerts() {
    assert_eq!(MiningBasic.name(), "mining_basic");
    assert_eq!(MiningBasic.block_template_timeout(), 3);
    let mut small = [0u8; 32];
    let mut large = [0u8; 32];
    small[31] = 0xff;
    large[0] = 1;
    let (small, large) = (Byte32::new(small), Byte32::new(large));
    assert!(MiningBasic.submits_first(&large, &small));
    assert!(!MiningBasic.submits_first(&small, &large));
    assert!(MiningBasic.submits_first(&small, &small));

    assert_eq!(TransactionRelayBasic.name(), "transaction_relay_basic");
    assert_eq!(TransactionRelayBasic.setup().num_nodes, 3);
    assert_eq!(TransactionRelayMultiple.name(), "transaction_relay_multiple");
    assert_eq!(TransactionRelayMultiple.setup().num_nodes, 5);
    assert_eq!(MIN_CAPACITY, 60_0000_0000);
    let reward = Capacity::shannons(20_000_000_000);
    assert_eq!(TransactionRelayMultiple.txs_num(reward), 3);
    assert_eq!(TransactionRelayMultiple.share(reward), Some(Capacity::shannons(6_666_666_666)));
    assert_eq!(TransactionRelayMultiple.tip_transactions(reward), 4);
    assert_eq!(TransactionRelayMultiple.share(Capacity::shannons(5_999_999_999)), None);

    assert_eq!(GenesisIssuedCells.name(), "genesis_issued_cells");
    assert_eq!(GenesisIssuedCells.issued_capacity(), Capacity::bytes(5_000).unwrap());
    let lock = GenesisIssuedCells.issued_lock();
    assert_eq!(lock.code_hash.bytes[31], 0xa1);
    assert!(lock.code_hash.bytes[..31].iter().all(|b| *b == 0));
    assert_eq!(lock.hash_type, HASH_TYPE_DATA);
    assert_eq!(lock.args, vec![1u8, 2]);
    assert!(GenesisIssuedCells.indexed(1, 1));
    assert!(!GenesisIssuedCells.indexed(1, 0));
    assert!(!GenesisIssuedCells.indexed(2, 1));

    assert_eq!(AlertPropagation.name(), "alert_propagation");
    assert_eq!(AlertPropagation.setup().num_nodes, 3);
    assert_eq!(AlertPropagation.signatures_threshold(), 2);
    assert_eq!(AlertPropagation.keys(), 3);
    assert_eq!(AlertPropagation.alert_id(), 42);
    assert_eq!(AlertPropagation.cancel_id(), 2);
    assert_eq!(AlertPropagation.notice_until(1_000), 101_000);
    assert_eq!(AlertPropagation.notice_until(u64::MAX - 5), u64::MAX);
    assert_eq!(AlertPropagation.warning(), "pretend we are in dangerous status");
    assert_eq!(AlertPropagation.cancellation(), "alert is canceled");
}

#[test]
fn a_template_becomes_a_block_under_a_nonce() {
    let block = with_nonce(example(), 0xdead_beef);
    assert_eq!(block.header.nonce, 0xdead_beef);
    let mut expected = example();
    expected.header.nonce = 0xdead_beef;
    assert_eq!(block, expected);

    // Whatever nonce is drawn, the rest of the template stays.
    let drawn = new_block_with_template(example());
    let mut same = example();
    same.header.nonce = drawn.header.nonce;
    assert_eq!(drawn, same);
    let nonces: Vec<u64> =
        (0..8).map(|_| new_block_with_template(example()).header.nonce).collect();
    assert!(nonces.iter().any(|n| *n != nonces[0]), "eight equal draws of 64 bits");
}
