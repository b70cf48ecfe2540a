//! Why a block, a transaction or a chain specification is rejected.

use vstd::prelude::*;
use crate::primitives::Byte32;
use crate::primitives::CapacityError;

verus! {

/// A fault in the configuration of a chain; fatal at startup.
#[derive(Debug, PartialEq, Eq)]
pub enum SpecError {
    /// A file that the specification names does not exist.
    NotFoundFile(String),
    /// The chain name is reserved.
    NotAllowedChainName(String),
    /// The genesis block found differs from the one specified.
    UnmatchedGenesis { expected: Byte32, actual: Byte32 },
}

/// Holds the genesis block found against the one specified.
pub fn verify_genesis(expected: Byte32, actual: Byte32) -> (r: Result<(), SpecError>)
    ensures
        expected@ == actual@ ==> r.is_ok(),
        expected@ != actual@ ==> r == Err::<(), SpecError>(
            SpecError::UnmatchedGenesis { expected, actual },
        ),
{
    if expected.same(&actual) {
        Ok(())
    } else {
        Err(SpecError::UnmatchedGenesis { expected, actual })
    }
}

/// Refuses a chain that takes a reserved name.
pub fn verify_chain_name(name: String, reserved: &Vec<String>) -> (r: Result<(), SpecError>)
    ensures
        (exists|i: int| 0 <= i < reserved@.len() && (#[trigger] reserved@[i])@ == name@) ==> r
            == Err::<(), SpecError>(SpecError::NotAllowedChainName(name)),
        (forall|i: int| 0 <= i < reserved@.len() ==> (#[trigger] reserved@[i])@ != name@) ==> r.is_ok(),
{
    let mut i: usize = 0;
    while i < reserved.len()
        invariant
            0 <= i <= reserved.len(),
            forall|j: int| 0 <= j < i ==> (#[trigger] reserved@[j])@ != name@,
        decreases reserved.len() - i,
    {
        if reserved[i].eq(&name) {
            return Err(SpecError::NotAllowedChainName(name));
        }
        i += 1;
    }
    Ok(())
}

/// A committed transaction that was not proposed in time.
#[derive(Clone, Copy, Debug, PartialEq, Eq, Structural)]
pub enum CommitError {
    /// The main chain has no block at the near end of the proposal window.
    NonexistentAncestor,
    /// Some committed transaction is not proposed within the window.
    NotInProposalWindow,
}

/// A fault in the cellbase of a block.
#[derive(Clone, Copy, Debug, PartialEq, Eq, Structural)]
pub enum CellbaseError {
    /// The input of the cellbase does not carry the number of the block.
    InvalidInput,
    /// The outputs of the cellbase do not sum to the reward.
    InvalidRewardAmount,
    /// The first output of the cellbase does not pay the lock that the
    /// reward is owed to.
    InvalidRewardTarget,
    /// The block does not hold exactly one cellbase.
    InvalidQuantity,
    /// The cellbase is not the first transaction.
    InvalidPosition,
}

/// A fault in the uncles of a block.
#[derive(Clone, Copy, Debug, PartialEq, Eq)]
pub enum UnclesError {
    /// More uncles than the chain allows.
    OverCount { max: u64, actual: u64 },
    /// An uncle of another epoch than the block's.
    InvalidDifficultyEpoch,
    /// An uncle that is on the main chain or was included before.
    DoubleInclusion(Byte32),
    /// An uncle whose parent is neither on the main chain nor a known
    /// uncle at the height below it.
    DescendantLimit,
}

/// A fault in a transaction.
#[derive(Clone, Copy, Debug, PartialEq, Eq, Structural)]
pub enum TransactionError {
    /// An input spends a cellbase output that is not mature yet.
    CellbaseImmaturity,
    /// The `since` of an input is not satisfied yet.
    Immature,
    /// The `since` of an input names no metric.
    InvalidSince,
    /// A header dependency is not on the main chain.
    InvalidHeaderDep,
    /// An input spends a cell that is not live.
    DeadOrUnknownCell,
    /// Two inputs of one block spend the same cell.
    DoubleSpend,
    /// The scripts of the transaction failed with this code.
    ValidationFailure(i8),
    /// The scripts ran out of cycles.
    ExceededMaximumCycles,
}

/// A fault in a block as a whole.
#[derive(Clone, Copy, Debug, PartialEq, Eq, Structural)]
pub enum BlockErrorKind {
    InvalidDAO,
    UnmatchedCommittedRoot,
    UnmatchedWitnessesRoot,
    UnmatchedProposalRoot,
    DuplicatedCommittedTransactions,
    DuplicatedProposalTransactions,
    TooLargeSize,
    TooManyProposals,
    TooMuchCycles,
}

/// Why contextual verification rejects a block.
#[derive(Clone, Copy, Debug, PartialEq, Eq)]
pub enum Error {
    /// The store does not hold the parent of the block.
    UnknownParent { parent_hash: Byte32 },
    Uncles(UnclesError),
    Commit(CommitError),
    Cellbase(CellbaseError),
    Block(BlockErrorKind),
    /// The transaction at `index` is invalid.
    BlockTransactions { index: u32, error: TransactionError },
    Capacity(CapacityError),
    /// The DAO field of the parent is malformed.
    Dao(crate::dao_utils::Error),
}

} // verus!
