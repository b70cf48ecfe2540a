use ckb_node_core::block_verifier::{
    BlockBytesVerifier, BlockProposalsLimitVerifier, CellbaseVerifier, DuplicateVerifier,
    MerkleRootVerifier,
};
use ckb_node_core::error::{BlockErrorKind, CellbaseError};
use ckb_node_core::merkle::{hash_bytes, merge, merkle_root, proposals_hash};
use ckb_node_core::primitives::{Byte32, Capacity, ProposalShortId};
use ckb_node_core::types::{
    Block, BlockNumber, CellInput, CellOutput, Header, OutPoint, Script, Transaction,
};

fn h256(low: u8) -> Byte32 {
    let mut bytes = [0u8; 32];
    bytes[31] = low;
    Byte32::new(bytes)
}

fn capacity_bytes(n: usize) -> Capacity {
    Capacity::bytes(n).unwrap()
}

fn output(capacity: Capacity) -> CellOutput {
    CellOutput {
        capacity,
        lock: Script { code_hash: Byte32::zero(), hash_type: 0, args: Vec::new() },
        type_: None,
    }
}

fn transaction(hash_seed: u8, inputs: Vec<CellInput>, outputs: Vec<CellOutput>) -> Transaction {
    let mut hash = [0u8; 32];
    hash[0] = hash_seed;
    hash[1] = inputs.len() as u8;
    if let Some(input) = inputs.first() {
        hash[2..10].copy_from_slice(&input.since.to_le_bytes());
    }
    if let Some(out) = outputs.first() {
        hash[10..18].copy_from_slice(&out.capacity.as_u64().to_le_bytes());
    }
    let mut witness_hash = hash;
    witness_hash[31] = 0xff;
    let outputs_data = outputs.iter().map(|_| Vec::new()).collect();
    Transaction {
        hash: Byte32::new(hash),
        witness_hash: Byte32::new(witness_hash),
        inputs,
        outputs,
        outputs_data,
        header_deps: Vec::new(),
        witnesses: vec![vec![0u8; 8]],
        serialized_size: 200,
    }
}

fn create_cellbase_transaction_with_block_number(number: BlockNumber) -> Transaction {
    transaction(
        1,
        vec![CellInput::new_cellbase_input(number)],
        vec![output(capacity_bytes(100))],
    )
}

fn create_cellbase_transaction_with_capacity(capacity: Capacity) -> Transaction {
    transaction(1, vec![CellInput::new_cellbase_input(0)], vec![output(capacity)])
}

fn create_cellbase_transaction() -> Transaction {
    create_cellbase_transaction_with_capacity(capacity_bytes(100))
}

fn create_normal_transaction() -> Transaction {
    transaction(
        2,
        vec![CellInput::new(OutPoint::new(h256(1), 0), 0)],
        vec![output(capacity_bytes(100))],
    )
}

fn header(number: BlockNumber) -> Header {
    Header {
        hash: h256(0x77),
        parent_hash: Byte32::zero(),
        number,
        timestamp: 0,
        difficulty: 0,
        epoch: 0,
        transactions_root: Byte32::zero(),
        proposals_hash: Byte32::zero(),
        witnesses_root: Byte32::zero(),
        uncles_hash: Byte32::zero(),
        dao: Byte32::zero(),
        nonce: 0,
    }
}

/// A block whose header carries the roots of its content.
fn build(mut header: Header, transactions: Vec<Transaction>, proposals: Vec<ProposalShortId>) -> Block {
    let hashes: Vec<Byte32> = transactions.iter().map(|tx| tx.hash).collect();
    let witnesses: Vec<Byte32> = transactions.iter().map(|tx| tx.witness_hash).collect();
    header.transactions_root = merkle_root(&hashes);
    header.witnesses_root = merkle_root(&witnesses);
    header.proposals_hash = proposals_hash(&proposals);
    build_unchecked(header, transactions, proposals)
}

/// A block whose header is taken as it is.
fn build_unchecked(
    header: Header,
    transactions: Vec<Transaction>,
    proposals: Vec<ProposalShortId>,
) -> Block {
    let serialized_size =
        208 + transactions.iter().map(|tx| tx.serialized_size).sum::<u64>() + 10 * proposals.len() as u64;
    Block { header, uncles: Vec::new(), transactions, proposals, serialized_size }
}

#[test]
pub fn test_block_without_cellbase() {
    let block = build(header(1), vec![transaction(0, vec![], vec![])], vec![]);
    let verifier = CellbaseVerifier::new();
    assert_eq!(verifier.verify(&block).err(), Some(CellbaseError::InvalidQuantity));
}

#[test]
pub fn test_block_with_one_cellbase_at_first() {
    let transaction = create_normal_transaction();

    let block = build(
        header(1),
        vec![create_cellbase_transaction_with_block_number(1), transaction],
        vec![],
    );

    let verifier = CellbaseVerifier::new();
    assert!(verifier.verify(&block).is_ok());
}

#[test]
pub fn test_block_with_correct_cellbase_number() {
    let block = build(header(2), vec![create_cellbase_transaction_with_block_number(2)], vec![]);

    let verifier = CellbaseVerifier::new();
    assert!(verifier.verify(&block).is_ok());
}

#[test]
pub fn test_block_with_incorrect_cellbase_number() {
    let block = build(header(2), vec![create_cellbase_transaction_with_block_number(3)], vec![]);

    let verifier = CellbaseVerifier::new();
    assert_eq!(verifier.verify(&block).err(), Some(CellbaseError::InvalidInput));
}

#[test]
pub fn test_block_with_one_cellbase_at_last() {
    let block = build(
        header(2),
        vec![create_normal_transaction(), create_cellbase_transaction()],
        vec![],
    );

    let verifier = CellbaseVerifier::new();
    assert_eq!(verifier.verify(&block).err(), Some(CellbaseError::InvalidPosition));
}

#[test]
pub fn test_block_with_duplicated_txs() {
    let block = build(
        header(2),
        vec![create_normal_transaction(), create_normal_transaction()],
        vec![],
    );

    let verifier = DuplicateVerifier::new();
    assert_eq!(
        verifier.verify(&block).err(),
        Some(BlockErrorKind::DuplicatedCommittedTransactions)
    );
}

#[test]
pub fn test_block_with_duplicated_proposals() {
    let block = build(
        header(2),
        vec![],
        vec![ProposalShortId::zero(), ProposalShortId::zero()],
    );

    let verifier = DuplicateVerifier::new();
    assert_eq!(
        verifier.verify(&block).err(),
        Some(BlockErrorKind::DuplicatedProposalTransactions)
    );
}

#[test]
pub fn test_transaction_root() {
    let mut header = header(2);
    header.transactions_root = Byte32::zero();
    let block = build_unchecked(header, vec![create_normal_transaction()], vec![]);

    let verifier = MerkleRootVerifier::new();
    assert_eq!(verifier.verify(&block).err(), Some(BlockErrorKind::UnmatchedCommittedRoot));
}

#[test]
pub fn test_proposals_root() {
    let mut header = header(2);
    header.proposals_hash = h256(1);
    let block = build_unchecked(header, vec![create_normal_transaction()], vec![]);

    let verifier = MerkleRootVerifier::new();
    assert_eq!(verifier.verify(&block).err(), Some(BlockErrorKind::UnmatchedCommittedRoot));
}

#[test]
pub fn test_witnesses_root() {
    let mut header = header(2);
    header.witnesses_root = h256(1);
    let block = build_unchecked(header, vec![], vec![ProposalShortId::zero()]);

    let verifier = MerkleRootVerifier::new();
    assert_eq!(verifier.verify(&block).err(), Some(BlockErrorKind::UnmatchedWitnessesRoot));
}

#[test]
pub fn test_block_with_two_cellbases() {
    let block = build(
        header(2),
        vec![create_cellbase_transaction(), create_cellbase_transaction()],
        vec![],
    );

    let verifier = CellbaseVerifier::new();
    assert_eq!(verifier.verify(&block).err(), Some(CellbaseError::InvalidQuantity));
}

#[test]
pub fn test_cellbase_with_less_reward() {
    let transaction = create_normal_transaction();

    let block = build(
        header(0),
        vec![create_cellbase_transaction_with_capacity(capacity_bytes(50)), transaction],
        vec![],
    );

    let verifier = CellbaseVerifier::new();
    assert!(verifier.verify(&block).is_ok());
}

#[test]
pub fn test_cellbase_with_fee() {
    let transaction = create_normal_transaction();

    let block = build(
        header(0),
        vec![create_cellbase_transaction_with_capacity(capacity_bytes(110)), transaction],
        vec![],
    );

    let verifier = CellbaseVerifier::new();
    assert!(verifier.verify(&block).is_ok());
}

#[test]
pub fn test_max_block_bytes_verifier_skip_genesis() {
    let block = build(header(0), vec![], vec![]);
    {
        let verifier = BlockBytesVerifier::new(block.serialized_size);
        assert!(verifier.verify(&block).is_ok());
    }

    {
        let verifier = BlockBytesVerifier::new(block.serialized_size - 1);
        assert!(verifier.verify(&block).is_ok());
    }
}

#[test]
pub fn test_max_block_bytes_verifier() {
    let block = build(header(2), vec![], vec![]);

    {
        let verifier = BlockBytesVerifier::new(block.serialized_size);
        assert!(verifier.verify(&block).is_ok());
    }

    {
        let verifier = BlockBytesVerifier::new(block.serialized_size - 1);
        assert_eq!(verifier.verify(&block).err(), Some(BlockErrorKind::TooLargeSize));
    }
}

#[test]
pub fn test_max_proposals_limit_verifier() {
    let block = build(header(0), vec![], vec![ProposalShortId::zero()]);

    {
        let verifier = BlockProposalsLimitVerifier::new(1);
        assert!(verifier.verify(&block).is_ok());
    }

    {
        let verifier = BlockProposalsLimitVerifier::new(0);
        assert_eq!(verifier.verify(&block).err(), Some(BlockErrorKind::TooManyProposals));
    }
}

#[test]
fn merkle_roots_of_a_built_block_are_accepted() {
    let block = build(
        header(3),
        vec![create_cellbase_transaction_with_block_number(3), create_normal_transaction()],
        vec![ProposalShortId::new([7u8; 10])],
    );
    assert!(MerkleRootVerifier::new().verify(&block).is_ok());

    let mut wrong = build(
        header(3),
        vec![create_cellbase_transaction_with_block_number(3)],
        vec![ProposalShortId::new([7u8; 10])],
    );
    wrong.header.proposals_hash = Byte32::zero();
    assert_eq!(
        MerkleRootVerifier::new().verify(&wrong).err(),
        Some(BlockErrorKind::UnmatchedProposalRoot)
    );
}

#[test]
fn verify_roots_names_the_first_root_that_differs() {
    let block = build_unchecked(header(2), vec![], vec![]);
    let verifier = MerkleRootVerifier::new();
    let zero = Byte32::zero();
    let one = h256(1);
    assert!(verifier.verify_roots(&block, &zero, &zero, &zero).is_ok());
    assert_eq!(
        verifier.verify_roots(&block, &one, &one, &one).err(),
        Some(BlockErrorKind::UnmatchedCommittedRoot)
    );
    assert_eq!(
        verifier.verify_roots(&block, &zero, &one, &one).err(),
        Some(BlockErrorKind::UnmatchedWitnessesRoot)
    );
    assert_eq!(
        verifier.verify_roots(&block, &zero, &zero, &one).err(),
        Some(BlockErrorKind::UnmatchedProposalRoot)
    );
}

#[test]
fn merkle_tree_shape() {
    let leaves: Vec<Byte32> = (1u8..=5).map(h256).collect();
    assert_eq!(merkle_root(&Vec::new()), Byte32::zero());
    assert_eq!(merkle_root(&leaves[..1].to_vec()), leaves[0]);
    assert_eq!(merkle_root(&leaves[..2].to_vec()), merge(&leaves[0], &leaves[1]));
    // Three leaves: the nodes are [root, n1, l0, l1, l2] with n1 = (l1, l2)
    // and root = (n1, l0).
    let n1 = merge(&leaves[1], &leaves[2]);
    assert_eq!(merkle_root(&leaves[..3].to_vec()), merge(&n1, &leaves[0]));
    // Five leaves: [root, n1, n2, n3, l0, l1, l2, l3, l4].
    let n3 = merge(&leaves[3], &leaves[4]);
    let n2 = merge(&leaves[1], &leaves[2]);
    let n1 = merge(&n3, &leaves[0]);
    assert_eq!(merkle_root(&leaves), merge(&n1, &n2));
}

#[test]
fn hash_is_blake2b_with_the_chain_personalisation() {
    // The digest differs from its input and from the digest of the
    // swapped input, and it is stable.
    let a = h256(1);
    let b = h256(2);
    let ab = merge(&a, &b);
    assert_ne!(ab, a);
    assert_ne!(ab, merge(&b, &a));
    assert_eq!(ab, merge(&a, &b));
    let empty = proposals_hash(&Vec::new());
    assert_eq!(empty, Byte32::zero());
    let one = proposals_hash(&vec![ProposalShortId::zero()]);
    assert_eq!(one, hash_bytes(&[0u8; 10]));
    let mut both = a.bytes.to_vec();
    both.extend_from_slice(&b.bytes);
    assert_eq!(ab, hash_bytes(&both));
    // BLAKE2b-256 of the empty input, personalised "ckb-default-hash".
    let known: [u8; 32] = [
        0x44, 0xf4, 0xc6, 0x97, 0x44, 0xd5, 0xf8, 0xc5, 0x5d, 0x64, 0x20, 0x62, 0x94, 0x9d, 0xca,
        0xe4, 0x9b, 0xc4, 0xe7, 0xef, 0x43, 0xd3, 0x88, 0xc5, 0xa1, 0x2f, 0x42, 0xb5, 0x63, 0x3d,
        0x16, 0x3e,
    ];
    assert_eq!(hash_bytes(&[]).bytes, known);
}
