//! Transactions and blocks as they are put together before they are sent:
//! by value, piece by piece.
//!
//! A draft has no hash yet; whoever serialises it seals it with its
//! hashes. A block that is built here carries the roots of what it holds,
//! and keeps the hash of the block it was made from until it is sealed
//! anew.

use vstd::prelude::*;
use crate::block_verifier::roots_fault;
use crate::block_verifier::spec_transaction_hashes;
use crate::block_verifier::spec_witness_hashes;
use crate::block_verifier::transaction_hashes;
use crate::block_verifier::witness_hashes;
use crate::generic::GetProposalIds;
use crate::merkle::chain_digest;
use crate::merkle::hash_bytes;
use crate::merkle::merkle_root;
use crate::merkle::merkle_root_of;
use crate::merkle::proposals_hash;
use crate::merkle::proposals_hash_of;
use crate::primitives::Byte32;
use crate::primitives::Capacity;
use crate::primitives::short_id_keys;
use crate::types::Block;
use crate::types::CellInput;
use crate::types::CellOutput;
use crate::types::Header;
use crate::types::OutPoint;
use crate::types::Script;
use crate::types::Transaction;

verus! {

/// The hash type of a script that names its code by the hash of the code.
pub const HASH_TYPE_DATA: u8 = 0;

/// The hash type of a script that names its code by the hash of the type
/// script of the cell that holds the code.
pub const HASH_TYPE_TYPE: u8 = 1;

/// The capacity of the output of a transaction that is built to pass: that
/// of 100 bytes, in shannons.
pub const ALWAYS_OUTPUT_CAPACITY: u64 = 10_000_000_000;

/// A transaction that has no hash yet.
#[derive(Debug)]
pub struct TransactionDraft {
    pub inputs: Vec<CellInput>,
    pub outputs: Vec<CellOutput>,
    pub outputs_data: Vec<Vec<u8>>,
    pub header_deps: Vec<Byte32>,
    pub witnesses: Vec<Vec<u8>>,
}

impl TransactionDraft {
    /// The transaction that the draft becomes under the given hashes and
    /// size.
    pub fn seal(self, hash: Byte32, witness_hash: Byte32, serialized_size: u64) -> (r: Transaction)
        ensures
            r.hash == hash,
            r.witness_hash == witness_hash,
            r.serialized_size == serialized_size,
            r.inputs == self.inputs,
            r.outputs == self.outputs,
            r.outputs_data == self.outputs_data,
            r.header_deps == self.header_deps,
            r.witnesses == self.witnesses,
    {
        Transaction {
            hash,
            witness_hash,
            inputs: self.inputs,
            outputs: self.outputs,
            outputs_data: self.outputs_data,
            header_deps: self.header_deps,
            witnesses: self.witnesses,
            serialized_size,
        }
    }
}

/// The lock that anyone can open: the code with hash `code_hash`, named by
/// the hash of the code, without arguments.
pub fn always_success_script(code_hash: Byte32) -> (r: Script)
    ensures
        r.code_hash == code_hash,
        r.hash_type == HASH_TYPE_DATA,
        r.args@.len() == 0,
{
    Script { code_hash, hash_type: HASH_TYPE_DATA, args: Vec::new() }
}

/// The cell that holds the code of the lock that anyone can open: the
/// second output of the cellbase of the genesis block.
pub fn always_success_out_point(genesis_cellbase_hash: Byte32) -> (r: OutPoint)
    ensures
        r.tx_hash == genesis_cellbase_hash,
        r.index == 1,
{
    OutPoint { tx_hash: genesis_cellbase_hash, index: 1 }
}

/// The hash of the cellbase of the genesis block.
pub fn genesis_cellbase_hash(genesis: &Block) -> (r: Byte32)
    requires
        genesis.transactions@.len() > 0,
    ensures
        r == genesis.transactions@[0].hash,
{
    genesis.transactions[0].hash
}

/// The hash of the code of the lock that anyone can open: the digest of
/// the data of the second output of the cellbase of the genesis block.
pub fn always_success_code_hash(genesis: &Block) -> (r: Byte32)
    requires
        genesis.transactions@.len() > 0,
        genesis.transactions@[0].outputs_data@.len() > 1,
    ensures
        r@ == chain_digest(genesis.transactions@[0].outputs_data@[1]@),
{
    hash_bytes(genesis.transactions[0].outputs_data[1].as_slice())
}

/// The first output of the cellbase of `tip`.
pub fn tip_cellbase_out_point(tip: &Block) -> (r: OutPoint)
    requires
        tip.transactions@.len() > 0,
    ensures
        r.tx_hash == tip.transactions@[0].hash,
        r.index == 0,
{
    OutPoint { tx_hash: tip.transactions[0].hash, index: 0 }
}

/// A transaction that spends `previous_input` into one output of 100 bytes
/// of capacity, without data, under `lock`.
pub fn build_transaction(previous_input: CellInput, lock: Script) -> (r: TransactionDraft)
    ensures
        r.inputs@ == seq![previous_input],
        r.outputs@ == seq![
            (CellOutput {
                capacity: Capacity { shannons: ALWAYS_OUTPUT_CAPACITY },
                lock: lock,
                type_: None,
            }),
        ],
        r.outputs_data@.len() == 1,
        r.outputs_data@[0]@.len() == 0,
        r.header_deps@.len() == 0,
        r.witnesses@.len() == 0,
{
    let mut inputs: Vec<CellInput> = Vec::new();
    inputs.push(previous_input);
    let mut outputs: Vec<CellOutput> = Vec::new();
    let output = CellOutput {
        capacity: Capacity { shannons: ALWAYS_OUTPUT_CAPACITY },
        lock,
        type_: None,
    };
    outputs.push(output);
    let mut outputs_data: Vec<Vec<u8>> = Vec::new();
    outputs_data.push(Vec::new());
    assert(inputs@ =~= seq![previous_input]);
    assert(outputs@ =~= seq![output]);
    TransactionDraft {
        inputs,
        outputs,
        outputs_data,
        header_deps: Vec::new(),
        witnesses: Vec::new(),
    }
}

/// A transaction that spends the first output of the transaction with hash
/// `tx_hash`, with no condition on when, as `build_transaction` does.
pub fn build_transaction_with_hash(tx_hash: Byte32, lock: Script) -> (r: TransactionDraft)
    ensures
        r.inputs@ == seq![
            (CellInput { previous_output: OutPoint { tx_hash: tx_hash, index: 0 }, since: 0 }),
        ],
        r.outputs@ == seq![
            (CellOutput {
                capacity: Capacity { shannons: ALWAYS_OUTPUT_CAPACITY },
                lock: lock,
                type_: None,
            }),
        ],
        r.outputs_data@.len() == 1,
        r.outputs_data@[0]@.len() == 0,
        r.header_deps@.len() == 0,
        r.witnesses@.len() == 0,
{
    let out_point = OutPoint::new(tx_hash, 0);
    let previous_input = CellInput::new(out_point, 0);
    build_transaction(previous_input, lock)
}

/// A transaction that spends the first output of the cellbase of `tip`, as
/// `build_transaction` does.
pub fn build_transaction_with_tip_cellbase(tip: &Block, lock: Script) -> (r: TransactionDraft)
    requires
        tip.transactions@.len() > 0,
    ensures
        r.inputs@ == seq![
            (CellInput {
                previous_output: OutPoint { tx_hash: tip.transactions@[0].hash, index: 0 },
                since: 0,
            }),
        ],
        r.outputs@ == seq![
            (CellOutput {
                capacity: Capacity { shannons: ALWAYS_OUTPUT_CAPACITY },
                lock: lock,
                type_: None,
            }),
        ],
        r.outputs_data@.len() == 1,
        r.outputs_data@[0]@.len() == 0,
        r.header_deps@.len() == 0,
        r.witnesses@.len() == 0,
{
    let tx_hash = tip_cellbase_out_point(tip).tx_hash;
    build_transaction_with_hash(tx_hash, lock)
}

/// Whether the header of `block` carries the roots of what the block
/// holds.
pub open spec fn rooted(block: Block) -> bool {
    roots_fault(
        block,
        merkle_root_of(spec_transaction_hashes(block)),
        merkle_root_of(spec_witness_hashes(block)),
        proposals_hash_of(block.proposals@),
    ).is_none()
}

/// `block` with the roots of its header computed anew from what it holds.
/// Nothing else changes.
pub fn with_roots(block: Block) -> (r: Block)
    requires
        block.transactions@.len() <= usize::MAX / 2,
    ensures
        r.transactions == block.transactions,
        r.proposals == block.proposals,
        r.uncles == block.uncles,
        r.serialized_size == block.serialized_size,
        r.header == (Header {
            transactions_root: r.header.transactions_root,
            witnesses_root: r.header.witnesses_root,
            proposals_hash: r.header.proposals_hash,
            ..block.header
        }),
        rooted(r),
{
    let hashes = transaction_hashes(&block);
    assert(hashes@ =~= spec_transaction_hashes(block));
    let witnesses = witness_hashes(&block);
    assert(witnesses@ =~= spec_witness_hashes(block));
    let mut r = block;
    r.header.transactions_root = merkle_root(&hashes);
    r.header.witnesses_root = merkle_root(&witnesses);
    r.header.proposals_hash = proposals_hash(&r.proposals);
    assert(spec_transaction_hashes(r) =~= spec_transaction_hashes(block));
    assert(spec_witness_hashes(r) =~= spec_witness_hashes(block));
    r
}

/// `rand::random` of `rand`: a number drawn from the generator of the
/// thread. Nothing is claimed of the number.
#[verifier::external_body]
pub(crate) fn random_nonce() -> (r: u64) {
    rand::random::<u64>()
}

/// `template` under the nonce `nonce`. Nothing else changes.
pub fn with_nonce(template: Block, nonce: u64) -> (r: Block)
    ensures
        r.header == (Header { nonce: nonce, ..template.header }),
        r.transactions == template.transactions,
        r.proposals == template.proposals,
        r.uncles == template.uncles,
        r.serialized_size == template.serialized_size,
{
    let mut block = template;
    block.header.nonce = nonce;
    block
}

/// The block of a template, under a nonce drawn at random: whatever the
/// nonce, nothing else changes.
pub fn new_block_with_template(template: Block) -> (r: Block)
    ensures
        r.header == (Header { nonce: r.header.nonce, ..template.header }),
        r.transactions == template.transactions,
        r.proposals == template.proposals,
        r.uncles == template.uncles,
        r.serialized_size == template.serialized_size,
{
    with_nonce(template, random_nonce())
}

/// The block of `example` with nothing but its cellbase: no other
/// transaction, no proposal, no uncle.
pub fn blank(example: Block) -> (r: Block)
    requires
        example.transactions@.len() > 0,
    ensures
        r.transactions@ == seq![example.transactions@[0]],
        r.proposals@.len() == 0,
        r.uncles@.len() == 0,
        r.serialized_size == example.serialized_size,
        r.header == (Header {
            transactions_root: r.header.transactions_root,
            witnesses_root: r.header.witnesses_root,
            proposals_hash: r.header.proposals_hash,
            ..example.header
        }),
        rooted(r),
{
    let mut block = example;
    block.transactions.truncate(1);
    block.proposals = Vec::new();
    block.uncles = Vec::new();
    assert(block.transactions@ =~= seq![example.transactions@[0]]);
    with_roots(block)
}

/// The blank block of `example` with the transactions `committed` after
/// its cellbase.
pub fn commit(example: Block, committed: Vec<Transaction>) -> (r: Block)
    requires
        example.transactions@.len() > 0,
        committed@.len() < usize::MAX / 2,
    ensures
        r.transactions@ == seq![example.transactions@[0]] + committed@,
        r.proposals@.len() == 0,
        r.uncles@.len() == 0,
        r.serialized_size == example.serialized_size,
        r.header == (Header {
            transactions_root: r.header.transactions_root,
            witnesses_root: r.header.witnesses_root,
            proposals_hash: r.header.proposals_hash,
            ..example.header
        }),
        rooted(r),
{
    let mut block = blank(example);
    let mut committed = committed;
    block.transactions.append(&mut committed);
    with_roots(block)
}

/// The blank block of `example` with the short identifiers of `proposals`
/// as its proposals.
pub fn propose(example: Block, proposals: &Vec<Transaction>) -> (r: Block)
    requires
        example.transactions@.len() > 0,
    ensures
        r.transactions@ == seq![example.transactions@[0]],
        short_id_keys(r.proposals@) == Seq::new(
            proposals@.len(),
            |i: int| proposals@[i].spec_short_id(),
        ),
        r.uncles@.len() == 0,
        r.serialized_size == example.serialized_size,
        r.header == (Header {
            transactions_root: r.header.transactions_root,
            witnesses_root: r.header.witnesses_root,
            proposals_hash: r.header.proposals_hash,
            ..example.header
        }),
        rooted(r),
{
    let mut block = blank(example);
    block.proposals = proposals.get_proposal_ids();
    with_roots(block)
}

} // verus!
