//! Why the relay rejects a message.

use vstd::prelude::*;
use crate::primitives::ProposalShortId;

verus! {

/// A message that breaks the rules; the peer is scored for it.
#[allow(inconsistent_fields)]
#[derive(Clone, Copy, Debug, PartialEq, Eq)]
pub enum Misbehavior {
    /// The first prefilled transaction is not the cellbase at index 0.
    CellbaseNotPrefilled,
    /// A short identifier occurs twice in one compact block.
    DuplicatedShortIds,
    /// A prefilled transaction occurs twice in one compact block.
    DuplicatedPrefilledTransactions,
    /// The indices of the prefilled transactions do not increase.
    UnorderedPrefilledTransactions,
    /// A prefilled index lies beyond the transactions of the block.
    OverflowPrefilledTransactions,
    /// Another number of transactions than was asked for.
    InvalidBlockTransactionsLength { expected: usize, got: usize },
    /// A transaction other than the one asked for.
    InvalidBlockTransactions { expected: ProposalShortId, got: ProposalShortId },
}

/// Why a relay message was not acted on.
#[derive(Clone, Copy, Debug, PartialEq, Eq)]
pub enum Error {
    Misbehavior(Misbehavior),
}

} // verus!
