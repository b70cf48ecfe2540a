use ckb_node_core::primitives::{Byte32, Capacity, ProposalShortId};
use ckb_node_core::relayer::block_transactions_verifier::BlockTransactionsVerifier;
use ckb_node_core::relayer::compact_block::{CompactBlock, IndexTransaction};
use ckb_node_core::relayer::error::{Error, Misbehavior};
use ckb_node_core::types::{CellInput, CellOutput, Header, OutPoint, Script, Transaction};

fn hash_of(seed: u64) -> Byte32 {
    let mut bytes = [0u8; 32];
    bytes[..8].copy_from_slice(&seed.to_le_bytes());
    bytes[8] = 0xa5;
    bytes[31] = 0x5a;
    Byte32::new(bytes)
}

fn script() -> Script {
    Script { code_hash: Byte32::zero(), hash_type: 0, args: Vec::new() }
}

fn new_transaction(index: usize) -> Transaction {
    Transaction {
        hash: hash_of(1000 + index as u64),
        witness_hash: hash_of(2000 + index as u64),
        inputs: vec![CellInput::new(OutPoint::new(hash_of(1), index as u32), 0)],
        outputs: vec![CellOutput {
            capacity: Capacity::shannons(index as u64),
            lock: script(),
            type_: None,
        }],
        outputs_data: vec![Vec::new()],
        header_deps: Vec::new(),
        witnesses: Vec::new(),
        serialized_size: 100,
    }
}

fn new_index_transaction(index: usize) -> IndexTransaction {
    IndexTransaction { index, transaction: new_transaction(index) }
}

fn default_header() -> Header {
    Header {
        hash: hash_of(9),
        parent_hash: Byte32::zero(),
        number: 0,
        timestamp: 0,
        difficulty: 0,
        epoch: 0,
        transactions_root: Byte32::zero(),
        proposals_hash: Byte32::zero(),
        witnesses_root: Byte32::zero(),
        uncles_hash: Byte32::zero(),
        dao: Byte32::zero(),
        nonce: 0,
    }
}

// block_short_ids: vec![None, Some(1), None, Some(3), Some(4), None]
fn build_compact_block() -> CompactBlock {
    let prefilled: Vec<IndexTransaction> =
        vec![0, 2, 5].into_iter().map(new_index_transaction).collect();

    let short_ids: Vec<ProposalShortId> = vec![1, 3, 4]
        .into_iter()
        .map(new_index_transaction)
        .map(|tx| tx.transaction.proposal_short_id())
        .collect();

    CompactBlock {
        header: default_header(),
        uncles: Vec::new(),
        short_ids,
        prefilled_transactions: prefilled,
        proposals: Vec::new(),
        nonce: 0,
    }
}

#[test]
fn test_invalid() {
    let block = build_compact_block();
    let indexes = vec![1, 3, 4];

    // Invalid len
    let block_txs: Vec<_> = vec![1, 3]
        .into_iter()
        .map(|i| new_index_transaction(i).transaction)
        .collect();

    let ret = BlockTransactionsVerifier::verify(&block, &indexes, block_txs.as_slice());

    assert_eq!(
        ret.err(),
        Some(Error::Misbehavior(
            Misbehavior::InvalidBlockTransactionsLength {
                expected: 3,
                got: 2
            }
        ))
    );

    // Unordered txs
    let block_txs: Vec<_> = vec![1, 4, 3]
        .into_iter()
        .map(|i| new_index_transaction(i).transaction)
        .collect();

    let expected = new_index_transaction(3).transaction.proposal_short_id();
    let got = new_index_transaction(4).transaction.proposal_short_id();

    let ret = BlockTransactionsVerifier::verify(&block, &indexes, &block_txs);

    assert_eq!(
        ret.err(),
        Some(Error::Misbehavior(Misbehavior::InvalidBlockTransactions {
            expected,
            got
        }))
    );
}

#[test]
fn block_transactions_verifier_test_ok() {
    let block = build_compact_block();

    let indexes = vec![1, 3, 4];
    let block_txs: Vec<_> = vec![1, 3, 4]
        .into_iter()
        .map(|i| new_index_transaction(i).transaction)
        .collect();

    let ret = BlockTransactionsVerifier::verify(&block, &indexes, &block_txs);

    assert!(ret.is_ok());
}

#[test]
fn block_short_ids_mark_prefilled_places() {
    let block = build_compact_block();
    let slots = block.block_short_ids();
    let id = |i: usize| new_transaction(i).proposal_short_id();
    assert_eq!(
        slots,
        vec![None, Some(id(1)), None, Some(id(3)), Some(id(4)), None]
    );
    assert_eq!(block.txs_len(), 6);
}

#[test]
fn block_transactions_are_matched_in_order_of_places() {
    let block = build_compact_block();
    // The request lists the places in another order; the answer is still
    // held against ascending places.
    let indexes = vec![4, 1, 3];
    let block_txs: Vec<_> = vec![1, 3, 4]
        .into_iter()
        .map(|i| new_index_transaction(i).transaction)
        .collect();
    assert!(BlockTransactionsVerifier::verify(&block, &indexes, &block_txs).is_ok());

    // A place that is prefilled asks for nothing.
    let indexes = vec![0, 1];
    let block_txs: Vec<_> = vec![1, 3]
        .into_iter()
        .map(|i| new_index_transaction(i).transaction)
        .collect();
    assert!(BlockTransactionsVerifier::verify(&block, &indexes, &block_txs).is_ok());
}

#[test]
fn short_id_is_the_first_ten_bytes_of_the_hash() {
    let tx = new_transaction(7);
    let id = tx.proposal_short_id();
    assert_eq!(&id.bytes[..], &tx.hash.bytes[..10]);
    assert_eq!(ProposalShortId::from_tx_hash(&tx.hash), id);
    assert_eq!(ProposalShortId::zero().bytes, [0u8; 10]);
}
