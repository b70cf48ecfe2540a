//! Cells, transactions, headers and blocks as the verification and relay
//! logic reads them.
//!
//! Hashes are carried as data: a transaction or header holds the hash that
//! identifies it, and nothing here recomputes one.

use vstd::prelude::*;
use crate::primitives::Byte32;
use crate::primitives::Capacity;
use crate::primitives::CapacityError;
use crate::primitives::ProposalShortId;
use crate::primitives::SHANNONS_PER_BYTE;
use crate::primitives::bytes_same;

verus! {

/// The height of a block.
pub type BlockNumber = u64;

/// The number of an epoch.
pub type EpochNumber = u64;

/// A count of script cycles.
pub type Cycle = u64;

/// A lock or type script: the code it names and its arguments.
#[derive(Clone, Debug, PartialEq, Eq)]
pub struct Script {
    pub code_hash: Byte32,
    pub hash_type: u8,
    pub args: Vec<u8>,
}

impl Script {
    /// Two scripts are the same when code hash, hash type and arguments
    /// agree.
    pub open spec fn spec_same(&self, other: &Script) -> bool {
        &&& self.code_hash@ == other.code_hash@
        &&& self.hash_type == other.hash_type
        &&& self.args@ == other.args@
    }

    /// Whether the two scripts have the same code hash, hash type and
    /// arguments.
    #[verifier::when_used_as_spec(spec_same)]
    pub fn same(&self, other: &Script) -> (r: bool)
        ensures
            r == self.spec_same(other),
    {
        self.code_hash.same(&other.code_hash) && self.hash_type == other.hash_type && bytes_same(
            &self.args,
            &other.args,
        )
    }

    /// Bytes a script occupies in a cell: code hash, hash type, arguments.
    pub open spec fn spec_occupied_bytes(&self) -> int {
        33 + self.args@.len() as int
    }
}

/// A cell: capacity, lock script and optional type script.
#[derive(Clone, Debug, PartialEq, Eq)]
pub struct CellOutput {
    pub capacity: Capacity,
    pub lock: Script,
    pub type_: Option<Script>,
}

impl CellOutput {
    /// Bytes the cell occupies when it carries `data_len` bytes of data:
    /// the capacity field, the scripts and the data.
    pub open spec fn spec_occupied_bytes(&self, data_len: int) -> int {
        8 + self.lock.spec_occupied_bytes() + (match self.type_ {
            Some(t) => t.spec_occupied_bytes(),
            None => 0,
        }) + data_len
    }

    /// The occupied capacity in shannons, over the integers.
    pub open spec fn spec_occupied(&self, data_len: int) -> int {
        self.spec_occupied_bytes(data_len) * SHANNONS_PER_BYTE
    }

    /// The capacity that the cell occupies with `data_len` bytes of data,
    /// or `Overflow` where that exceeds 64 bits.
    pub fn occupied_capacity(&self, data_len: usize) -> (r: Result<Capacity, CapacityError>)
        ensures
            self.spec_occupied(data_len as int) <= u64::MAX ==> r == Ok::<Capacity, CapacityError>(
                Capacity { shannons: self.spec_occupied(data_len as int) as u64 },
            ),
            self.spec_occupied(data_len as int) > u64::MAX ==> r == Err::<Capacity, CapacityError>(
                CapacityError::Overflow,
            ),
    {
        self.occupied_with(data_len as u64)
    }

    /// The same for a data length given in 64 bits.
    pub fn occupied_with(&self, data_len: u64) -> (r: Result<Capacity, CapacityError>)
        ensures
            self.spec_occupied(data_len as int) <= u64::MAX ==> r == Ok::<Capacity, CapacityError>(
                Capacity { shannons: self.spec_occupied(data_len as int) as u64 },
            ),
            self.spec_occupied(data_len as int) > u64::MAX ==> r == Err::<Capacity, CapacityError>(
                CapacityError::Overflow,
            ),
    {
        let type_len: u128 = match &self.type_ {
            Some(t) => 33 + t.args.len() as u128,
            None => 0,
        };
        let total: u128 = 8 + 33 + self.lock.args.len() as u128 + type_len + data_len as u128;
        assert(total as int == self.spec_occupied_bytes(data_len as int));
        assert(total <= 0x4_0000_0000_0000_0000u128);
        assert(SHANNONS_PER_BYTE == 100_000_000u64);
        let wide: u128 = total * 100_000_000u128;
        if wide > u64::MAX as u128 {
            Err(CapacityError::Overflow)
        } else {
            Ok(Capacity { shannons: wide as u64 })
        }
    }

    /// Whether the cell carries a type script with the given code hash.
    pub open spec fn spec_has_type(&self, code_hash: Seq<u8>) -> bool {
        match self.type_ {
            Some(t) => t.code_hash@ == code_hash,
            None => false,
        }
    }

    /// Whether the output has a type script with this code hash.
    pub fn has_type(&self, code_hash: &Byte32) -> (r: bool)
        ensures
            r == self.spec_has_type(code_hash@),
    {
        match &self.type_ {
            Some(t) => t.code_hash.same(code_hash),
            None => false,
        }
    }
}

/// A reference to an output of a transaction.
#[derive(Clone, Copy, Debug, PartialEq, Eq)]
pub struct OutPoint {
    pub tx_hash: Byte32,
    pub index: u32,
}

impl OutPoint {
    /// The output `index` of the transaction `tx_hash`.
    pub fn new(tx_hash: Byte32, index: u32) -> (r: OutPoint)
        ensures
            r.tx_hash == tx_hash,
            r.index == index,
    {
        OutPoint { tx_hash, index }
    }

    /// The reference that points at nothing, as a cellbase input carries.
    pub fn null() -> (r: OutPoint)
        ensures
            r.spec_is_null(),
    {
        let r = OutPoint { tx_hash: Byte32::zero(), index: u32::MAX };
        r
    }

    /// Whether this names no cell: a zero hash and the largest index.
    pub open spec fn spec_is_null(&self) -> bool {
        self.tx_hash@ == Seq::new(32, |i: int| 0u8) && self.index == u32::MAX
    }

    /// Whether this names no cell.
    #[verifier::when_used_as_spec(spec_is_null)]
    pub fn is_null(&self) -> (r: bool)
        ensures
            r == self.spec_is_null(),
    {
        let zero = Byte32::zero();
        self.tx_hash.same(&zero) && self.index == u32::MAX
    }

    /// Whether the two name the same cell.
    pub open spec fn spec_same(&self, other: &OutPoint) -> bool {
        self.tx_hash@ == other.tx_hash@ && self.index == other.index
    }

    /// Whether the two name the same cell.
    #[verifier::when_used_as_spec(spec_same)]
    pub fn same(&self, other: &OutPoint) -> (r: bool)
        ensures
            r == self.spec_same(other),
    {
        self.tx_hash.same(&other.tx_hash) && self.index == other.index
    }
}

/// An input: the cell it spends and the `since` constraint on spending it.
#[derive(Clone, Copy, Debug, PartialEq, Eq)]
pub struct CellInput {
    pub previous_output: OutPoint,
    pub since: u64,
}

impl CellInput {
    /// An input that spends `previous_output` under the condition `since`.
    pub fn new(previous_output: OutPoint, since: u64) -> (r: CellInput)
        ensures
            r.previous_output == previous_output,
            r.since == since,
    {
        CellInput { previous_output, since }
    }

    /// The single input of the cellbase of block `number`.
    pub fn new_cellbase_input(number: BlockNumber) -> (r: CellInput)
        ensures
            r.previous_output.spec_is_null(),
            r.since == number,
    {
        CellInput { previous_output: OutPoint::null(), since: number }
    }
}

/// A transaction together with the hashes that identify it.
#[derive(Clone, Debug, PartialEq, Eq)]
pub struct Transaction {
    pub hash: Byte32,
    pub witness_hash: Byte32,
    pub inputs: Vec<CellInput>,
    pub outputs: Vec<CellOutput>,
    pub outputs_data: Vec<Vec<u8>>,
    pub header_deps: Vec<Byte32>,
    pub witnesses: Vec<Vec<u8>>,
    pub serialized_size: u64,
}

/// The sum of the capacities of the first `n` outputs.
pub open spec fn capacity_sum(outputs: Seq<CellOutput>, n: int) -> int
    decreases n,
{
    if n <= 0 {
        0
    } else {
        capacity_sum(outputs, n - 1) + outputs[n - 1].capacity.shannons
    }
}

/// A longer prefix of outputs has no smaller capacity.
pub proof fn lemma_capacity_sum_monotone(outputs: Seq<CellOutput>, i: int, n: int)
    requires
        0 <= i <= n,
    ensures
        0 <= capacity_sum(outputs, i) <= capacity_sum(outputs, n),
    decreases n,
{
    if i < n {
        lemma_capacity_sum_monotone(outputs, i, n - 1);
    } else if n > 0 {
        lemma_capacity_sum_monotone(outputs, i - 1, n - 1);
    }
}

impl Transaction {
    /// The short identifier under which the transaction is proposed.
    pub open spec fn spec_short_id(&self) -> Seq<u8> {
        self.hash@.subrange(0, 10)
    }

    /// The short identifier of the transaction: the first ten bytes of its
    /// hash.
    pub fn proposal_short_id(&self) -> (r: ProposalShortId)
        ensures
            r@ == self.hash@.subrange(0, 10),
            r@ == self.spec_short_id(),
    {
        ProposalShortId::from_tx_hash(&self.hash)
    }

    /// A cellbase has exactly one input, and that input points at nothing.
    pub open spec fn spec_is_cellbase(&self) -> bool {
        self.inputs@.len() == 1 && self.inputs@[0].previous_output.spec_is_null()
    }

    /// Whether this is a cellbase: one input, which names no cell.
    #[verifier::when_used_as_spec(spec_is_cellbase)]
    pub fn is_cellbase(&self) -> (r: bool)
        ensures
            r == self.spec_is_cellbase(),
    {
        self.inputs.len() == 1 && self.inputs[0].previous_output.is_null()
    }

    /// The total capacity of the outputs, over the integers.
    pub open spec fn spec_outputs_capacity(&self) -> int {
        capacity_sum(self.outputs@, self.outputs@.len() as int)
    }

    /// The total capacity of the outputs, or `Overflow` where it exceeds
    /// 64 bits.
    pub fn outputs_capacity(&self) -> (r: Result<Capacity, CapacityError>)
        ensures
            self.spec_outputs_capacity() <= u64::MAX ==> r == Ok::<Capacity, CapacityError>(
                Capacity { shannons: self.spec_outputs_capacity() as u64 },
            ),
            self.spec_outputs_capacity() > u64::MAX ==> r == Err::<Capacity, CapacityError>(
                CapacityError::Overflow,
            ),
            self.spec_outputs_capacity() >= 0,
    {
        proof {
            lemma_capacity_sum_monotone(self.outputs@, 0, self.outputs@.len() as int);
        }
        let mut total: u64 = 0;
        let mut i: usize = 0;
        while i < self.outputs.len()
            invariant
                0 <= i <= self.outputs.len(),
                total == capacity_sum(self.outputs@, i as int),
            decreases self.outputs.len() - i,
        {
            let c: u64 = self.outputs[i].capacity.shannons;
            if total > u64::MAX - c {
                proof {
                    lemma_capacity_sum_monotone(
                        self.outputs@,
                        i as int + 1,
                        self.outputs@.len() as int,
                    );
                }
                return Err(CapacityError::Overflow);
            }
            total = total + c;
            i += 1;
        }
        Ok(Capacity { shannons: total })
    }
}

/// A block header together with its hash.
#[derive(Clone, Copy, Debug, PartialEq, Eq)]
pub struct Header {
    pub hash: Byte32,
    pub parent_hash: Byte32,
    pub number: BlockNumber,
    pub timestamp: u64,
    pub difficulty: u64,
    pub epoch: u64,
    pub transactions_root: Byte32,
    pub proposals_hash: Byte32,
    pub witnesses_root: Byte32,
    pub uncles_hash: Byte32,
    pub dao: Byte32,
    pub nonce: u64,
}

impl Header {
    /// Whether this is the header of a genesis block.
    pub open spec fn spec_is_genesis(&self) -> bool {
        self.number == 0
    }

    /// Whether this is the header of a genesis block.
    #[verifier::when_used_as_spec(spec_is_genesis)]
    pub fn is_genesis(&self) -> (r: bool)
        ensures
            r == self.spec_is_genesis(),
    {
        self.number == 0
    }
}

/// An uncle: a header and the proposals made with it.
#[derive(Clone, Debug, PartialEq, Eq)]
pub struct UncleBlock {
    pub header: Header,
    pub proposals: Vec<ProposalShortId>,
}

/// A block: header, uncles, transactions (the cellbase first) and
/// proposals.
#[derive(Clone, Debug, PartialEq, Eq)]
pub struct Block {
    pub header: Header,
    pub uncles: Vec<UncleBlock>,
    pub transactions: Vec<Transaction>,
    pub proposals: Vec<ProposalShortId>,
    pub serialized_size: u64,
}

impl Block {
    /// Whether this is a genesis block.
    pub open spec fn spec_is_genesis(&self) -> bool {
        self.header.number == 0
    }

    /// Whether this is a genesis block.
    #[verifier::when_used_as_spec(spec_is_genesis)]
    pub fn is_genesis(&self) -> (r: bool)
        ensures
            r == self.spec_is_genesis(),
    {
        self.header.number == 0
    }
}

} // verus!
