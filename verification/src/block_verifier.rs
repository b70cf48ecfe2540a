//! The checks of a block that need no chain: its cellbase, duplicates, its
//! roots, its size and the number of its proposals.

use vstd::prelude::*;
use crate::error::BlockErrorKind;
use crate::error::CellbaseError;
use crate::merkle::merkle_root;
use crate::merkle::merkle_root_of;
use crate::merkle::proposals_hash;
use crate::merkle::proposals_hash_of;
use crate::primitives::Byte32;
use crate::primitives::short_id_keys;
use crate::relayer::compact_block_verifier::ids_distinct;
use crate::relayer::compact_block_verifier::keys_distinct;
use crate::types::Block;
use crate::types::Transaction;

verus! {

/// The number of cellbases among the first `n` transactions.
pub open spec fn cellbase_count(txs: Seq<Transaction>, n: int) -> int
    decreases n,
{
    if n <= 0 {
        0
    } else {
        cellbase_count(txs, n - 1) + (if txs[n - 1].spec_is_cellbase() {
            1int
        } else {
            0int
        })
    }
}

/// What is wrong with the cellbase of a block, if anything. The genesis
/// block passes. Any other block holds exactly one cellbase, holds it
/// first, and its input carries the number of the block.
pub open spec fn cellbase_fault(block: Block) -> Option<CellbaseError> {
    if block.spec_is_genesis() {
        None
    } else if cellbase_count(block.transactions@, block.transactions@.len() as int) != 1 {
        Some(CellbaseError::InvalidQuantity)
    } else if !block.transactions@[0].spec_is_cellbase() {
        Some(CellbaseError::InvalidPosition)
    } else if block.transactions@[0].inputs@[0].since != block.header.number {
        Some(CellbaseError::InvalidInput)
    } else {
        None
    }
}

/// Holds a block to the rules on its cellbase.
pub struct CellbaseVerifier {}

impl CellbaseVerifier {
    /// A verifier of cellbases.
    pub fn new() -> Self {
        CellbaseVerifier {  }
    }

    /// Accepts a block exactly when its first transaction, and no other, is a
    /// cellbase whose one input names the block's number.
    pub fn verify(&self, block: &Block) -> (r: Result<(), CellbaseError>)
        ensures
            match r {
                Ok(_) => cellbase_fault(*block).is_none(),
                Err(e) => cellbase_fault(*block) == Some(e),
            },
    {
        if block.is_genesis() {
            return Ok(());
        }
        let txs = &block.transactions;
        let mut count: usize = 0;
        let mut i: usize = 0;
        while i < txs.len()
            invariant
                0 <= i <= txs.len(),
                count == cellbase_count(txs@, i as int),
                count <= i,
            decreases txs.len() - i,
        {
            if txs[i].is_cellbase() {
                count += 1;
            }
            i += 1;
        }
        if count != 1 {
            return Err(CellbaseError::InvalidQuantity);
        }
        assert(txs@.len() >= 1);
        if !txs[0].is_cellbase() {
            return Err(CellbaseError::InvalidPosition);
        }
        if txs[0].inputs[0].since != block.header.number {
            return Err(CellbaseError::InvalidInput);
        }
        Ok(())
    }
}

/// What is wrong with a block, if anything: a transaction that it holds
/// twice, or a proposal that it makes twice.
pub open spec fn duplicate_fault(block: Block) -> Option<BlockErrorKind> {
    if !keys_distinct(tx_hash_keys(block.transactions@)) {
        Some(BlockErrorKind::DuplicatedCommittedTransactions)
    } else if !keys_distinct(short_id_keys(block.proposals@)) {
        Some(BlockErrorKind::DuplicatedProposalTransactions)
    } else {
        None
    }
}

/// The hashes of a list of transactions.
pub open spec fn tx_hash_keys(txs: Seq<Transaction>) -> Seq<Seq<u8>> {
    Seq::new(txs.len(), |i: int| txs[i].hash@)
}

/// Holds a block to the rule that no transaction and no proposal occurs twice.
pub struct DuplicateVerifier {}

impl DuplicateVerifier {
    /// A verifier of duplicates.
    pub fn new() -> Self {
        DuplicateVerifier {  }
    }

    /// Accepts a block exactly when its transactions have distinct hashes and
    /// its proposals are distinct.
    pub fn verify(&self, block: &Block) -> (r: Result<(), BlockErrorKind>)
        ensures
            match r {
                Ok(_) => duplicate_fault(*block).is_none(),
                Err(e) => duplicate_fault(*block) == Some(e),
            },
    {
        let txs = &block.transactions;
        let mut j: usize = 0;
        while j < txs.len()
            invariant
                0 <= j <= txs.len(),
                txs == &block.transactions,
                forall|a: int, b: int|
                    0 <= a < b < j ==> tx_hash_keys(txs@)[a] != tx_hash_keys(txs@)[b],
            decreases txs.len() - j,
        {
            let mut i: usize = 0;
            while i < j
                invariant
                    0 <= i <= j < txs.len(),
                    txs == &block.transactions,
                    forall|a: int| 0 <= a < i ==> tx_hash_keys(txs@)[a] != tx_hash_keys(txs@)[j as int],
                decreases j - i,
            {
                if txs[i].hash.same(&txs[j].hash) {
                    assert(tx_hash_keys(txs@)[i as int] == tx_hash_keys(txs@)[j as int]);
                    return Err(BlockErrorKind::DuplicatedCommittedTransactions);
                }
                i += 1;
            }
            j += 1;
        }
        if !ids_distinct(&block.proposals) {
            return Err(BlockErrorKind::DuplicatedProposalTransactions);
        }
        Ok(())
    }
}

/// The hashes of the transactions of a block, in order.
pub fn transaction_hashes(block: &Block) -> (r: Vec<Byte32>)
    ensures
        r@.len() == block.transactions@.len(),
        forall|i: int| 0 <= i < r@.len() ==> #[trigger] r@[i] == block.transactions@[i].hash,
{
    let mut out: Vec<Byte32> = Vec::new();
    let mut i: usize = 0;
    while i < block.transactions.len()
        invariant
            0 <= i <= block.transactions.len(),
            out@.len() == i,
            forall|j: int| 0 <= j < i ==> #[trigger] out@[j] == block.transactions@[j].hash,
        decreases block.transactions.len() - i,
    {
        out.push(block.transactions[i].hash);
        i += 1;
    }
    out
}

/// The witness hashes of the transactions of a block, in order.
pub fn witness_hashes(block: &Block) -> (r: Vec<Byte32>)
    ensures
        r@.len() == block.transactions@.len(),
        forall|i: int|
            0 <= i < r@.len() ==> #[trigger] r@[i] == block.transactions@[i].witness_hash,
{
    let mut out: Vec<Byte32> = Vec::new();
    let mut i: usize = 0;
    while i < block.transactions.len()
        invariant
            0 <= i <= block.transactions.len(),
            out@.len() == i,
            forall|j: int| 0 <= j < i ==> #[trigger] out@[j] == block.transactions@[j].witness_hash,
        decreases block.transactions.len() - i,
    {
        out.push(block.transactions[i].witness_hash);
        i += 1;
    }
    out
}

/// The hashes of the transactions of a block.
pub open spec fn spec_transaction_hashes(block: Block) -> Seq<Byte32> {
    Seq::new(block.transactions@.len(), |i: int| block.transactions@[i].hash)
}

/// The witness hashes of the transactions of a block.
pub open spec fn spec_witness_hashes(block: Block) -> Seq<Byte32> {
    Seq::new(block.transactions@.len(), |i: int| block.transactions@[i].witness_hash)
}

/// What is wrong with the roots of a header, if anything, held against
/// the roots computed from the block: the root of the transactions first,
/// then that of the witnesses, then the hash of the proposals.
pub open spec fn roots_fault(
    block: Block,
    transactions_root: Seq<u8>,
    witnesses_root: Seq<u8>,
    proposals_hash: Seq<u8>,
) -> Option<BlockErrorKind> {
    if block.header.transactions_root@ != transactions_root {
        Some(BlockErrorKind::UnmatchedCommittedRoot)
    } else if block.header.witnesses_root@ != witnesses_root {
        Some(BlockErrorKind::UnmatchedWitnessesRoot)
    } else if block.header.proposals_hash@ != proposals_hash {
        Some(BlockErrorKind::UnmatchedProposalRoot)
    } else {
        None
    }
}

/// Holds a block's header to the Merkle roots of what the block carries.
pub struct MerkleRootVerifier {}

impl MerkleRootVerifier {
    /// A verifier of Merkle roots.
    pub fn new() -> Self {
        MerkleRootVerifier {  }
    }

    /// Holds the roots of the header against the given roots.
    pub fn verify_roots(
        &self,
        block: &Block,
        transactions_root: &Byte32,
        witnesses_root: &Byte32,
        proposals_hash: &Byte32,
    ) -> (r: Result<(), BlockErrorKind>)
        ensures
            match r {
                Ok(_) => roots_fault(
                    *block,
                    transactions_root@,
                    witnesses_root@,
                    proposals_hash@,
                ).is_none(),
                Err(e) => roots_fault(*block, transactions_root@, witnesses_root@, proposals_hash@)
                    == Some(e),
            },
    {
        if !block.header.transactions_root.same(transactions_root) {
            return Err(BlockErrorKind::UnmatchedCommittedRoot);
        }
        if !block.header.witnesses_root.same(witnesses_root) {
            return Err(BlockErrorKind::UnmatchedWitnessesRoot);
        }
        if !block.header.proposals_hash.same(proposals_hash) {
            return Err(BlockErrorKind::UnmatchedProposalRoot);
        }
        Ok(())
    }

    /// Accepts a block exactly when its header carries the Merkle root of
    /// its transaction hashes, the Merkle root of its witness hashes and
    /// the hash of its proposals, each recomputed from the block.
    pub fn verify(&self, block: &Block) -> (r: Result<(), BlockErrorKind>)
        requires
            block.transactions@.len() <= usize::MAX / 2,
        ensures
            match r {
                Ok(_) => roots_fault(
                    *block,
                    merkle_root_of(spec_transaction_hashes(*block)),
                    merkle_root_of(spec_witness_hashes(*block)),
                    proposals_hash_of(block.proposals@),
                ).is_none(),
                Err(e) => roots_fault(
                    *block,
                    merkle_root_of(spec_transaction_hashes(*block)),
                    merkle_root_of(spec_witness_hashes(*block)),
                    proposals_hash_of(block.proposals@),
                ) == Some(e),
            },
    {
        let hashes = transaction_hashes(block);
        assert(hashes@ =~= spec_transaction_hashes(*block));
        let witnesses = witness_hashes(block);
        assert(witnesses@ =~= spec_witness_hashes(*block));
        let transactions_root = merkle_root(&hashes);
        let witnesses_root = merkle_root(&witnesses);
        let proposals = proposals_hash(&block.proposals);
        self.verify_roots(block, &transactions_root, &witnesses_root, &proposals)
    }
}

/// Checks the size of a block against the limit of the chain.
pub struct BlockBytesVerifier {
    pub block_bytes_limit: u64,
}

impl BlockBytesVerifier {
    /// A verifier for blocks of at most `block_bytes_limit` bytes.
    pub fn new(block_bytes_limit: u64) -> (r: Self)
        ensures
            r.block_bytes_limit == block_bytes_limit,
    {
        BlockBytesVerifier { block_bytes_limit }
    }

    /// The genesis block passes; any other block passes exactly when its
    /// size is within the limit.
    pub fn verify(&self, block: &Block) -> (r: Result<(), BlockErrorKind>)
        ensures
            block.spec_is_genesis() || block.serialized_size <= self.block_bytes_limit ==> r.is_ok(),
            !block.spec_is_genesis() && block.serialized_size > self.block_bytes_limit ==> r
                == Err::<(), BlockErrorKind>(BlockErrorKind::TooLargeSize),
    {
        if block.is_genesis() {
            return Ok(());
        }
        if block.serialized_size <= self.block_bytes_limit {
            Ok(())
        } else {
            Err(BlockErrorKind::TooLargeSize)
        }
    }
}

/// Checks the number of proposals of a block against the limit of the
/// chain.
pub struct BlockProposalsLimitVerifier {
    pub block_proposals_limit: u64,
}

impl BlockProposalsLimitVerifier {
    /// A verifier for blocks of at most `block_proposals_limit` proposals.
    pub fn new(block_proposals_limit: u64) -> (r: Self)
        ensures
            r.block_proposals_limit == block_proposals_limit,
    {
        BlockProposalsLimitVerifier { block_proposals_limit }
    }

    /// A block passes exactly when it makes no more proposals than the
    /// limit.
    pub fn verify(&self, block: &Block) -> (r: Result<(), BlockErrorKind>)
        ensures
            block.proposals@.len() <= self.block_proposals_limit ==> r.is_ok(),
            block.proposals@.len() > self.block_proposals_limit ==> r == Err::<
                (),
                BlockErrorKind,
            >(BlockErrorKind::TooManyProposals),
    {
        if block.proposals.len() as u64 <= self.block_proposals_limit {
            Ok(())
        } else {
            Err(BlockErrorKind::TooManyProposals)
        }
    }
}

} // verus!
