//! A block sent as its header, the short identifiers of its transactions
//! and the few transactions that the receiver cannot have.

use vstd::prelude::*;
use crate::primitives::ProposalShortId;
use crate::types::Header;
use crate::types::Transaction;
use crate::types::UncleBlock;

verus! {

/// A transaction with its place in the block.
#[derive(Clone, Debug, PartialEq, Eq)]
pub struct IndexTransaction {
    pub index: usize,
    pub transaction: Transaction,
}

/// A block in its compact form: the header, short ids for most transactions,
/// and the few transactions sent whole.
#[derive(Clone, Debug, PartialEq, Eq)]
pub struct CompactBlock {
    pub header: Header,
    pub uncles: Vec<UncleBlock>,
    pub short_ids: Vec<ProposalShortId>,
    pub prefilled_transactions: Vec<IndexTransaction>,
    pub proposals: Vec<ProposalShortId>,
    pub nonce: u64,
}

/// The transactions of a proposal message.
#[derive(Clone, Debug, PartialEq, Eq)]
pub struct BlockProposal {
    pub transactions: Vec<Transaction>,
}

impl CompactBlock {
    /// The number of transactions fits a machine word.
    pub open spec fn wf(&self) -> bool {
        self.prefilled_transactions@.len() + self.short_ids@.len() <= usize::MAX
    }

    /// The number of transactions of the block.
    pub open spec fn spec_txs_len(&self) -> int {
        (self.prefilled_transactions@.len() + self.short_ids@.len()) as int
    }

    /// The number of transactions of the block.
    pub fn txs_len(&self) -> (r: usize)
        requires
            self.wf(),
        ensures
            r == self.spec_txs_len(),
    {
        self.prefilled_transactions.len() + self.short_ids.len()
    }

    /// Whether the transaction at `pos` is prefilled.
    pub open spec fn spec_is_prefilled(&self, pos: int) -> bool {
        exists|k: int|
            0 <= k < self.prefilled_transactions@.len() && (
            #[trigger] self.prefilled_transactions@[k]).index == pos
    }

    /// The prefilled transaction at `pos`, if there is one: the first that
    /// claims the place.
    pub fn prefilled_at(&self, pos: usize) -> (r: Option<usize>)
        ensures
            r.is_some() == self.spec_is_prefilled(pos as int),
            r.is_some() ==> r.unwrap() < self.prefilled_transactions@.len()
                && self.prefilled_transactions@[r.unwrap() as int].index == pos && forall|j: int|
                0 <= j < r.unwrap() ==> (#[trigger] self.prefilled_transactions@[j]).index != pos,
    {
        let mut k: usize = 0;
        while k < self.prefilled_transactions.len()
            invariant
                0 <= k <= self.prefilled_transactions.len(),
                forall|j: int|
                    0 <= j < k ==> (#[trigger] self.prefilled_transactions@[j]).index != pos,
            decreases self.prefilled_transactions.len() - k,
        {
            if self.prefilled_transactions[k].index == pos {
                return Some(k);
            }
            k += 1;
        }
        None
    }

    /// The number of places before `pos` that are taken by short
    /// identifiers.
    pub open spec fn spec_short_before(&self, pos: int) -> int
        decreases pos,
    {
        if pos <= 0 {
            0
        } else {
            self.spec_short_before(pos - 1) + (if self.spec_is_prefilled(pos - 1) {
                0int
            } else {
                1int
            })
        }
    }

    /// The short identifier at place `pos`: none where the transaction is
    /// prefilled, else the next identifier not yet used by an earlier
    /// place.
    pub open spec fn spec_slot(&self, pos: int) -> Option<ProposalShortId> {
        if self.spec_is_prefilled(pos) {
            None
        } else if 0 <= self.spec_short_before(pos) < self.short_ids@.len() {
            Some(self.short_ids@[self.spec_short_before(pos)])
        } else {
            None
        }
    }

    /// The short identifier of every place of the block, `None` at the
    /// prefilled places.
    pub fn block_short_ids(&self) -> (r: Vec<Option<ProposalShortId>>)
        requires
            self.wf(),
        ensures
            r@.len() == self.spec_txs_len(),
            forall|pos: int| 0 <= pos < r@.len() ==> #[trigger] r@[pos] == self.spec_slot(pos),
    {
        let txs_len = self.txs_len();
        let mut block_short_ids: Vec<Option<ProposalShortId>> = Vec::new();
        let mut index: usize = 0;
        let mut i: usize = 0;
        while i < txs_len
            invariant
                0 <= i <= txs_len,
                txs_len == self.spec_txs_len(),
                block_short_ids@.len() == i,
                index == self.spec_short_before(i as int),
                index <= i,
                forall|pos: int|
                    0 <= pos < i ==> #[trigger] block_short_ids@[pos] == self.spec_slot(pos),
            decreases txs_len - i,
        {
            match self.prefilled_at(i) {
                Some(_) => {
                    block_short_ids.push(None);
                },
                None => {
                    if index < self.short_ids.len() {
                        block_short_ids.push(Some(self.short_ids[index]));
                    } else {
                        block_short_ids.push(None);
                    }
                    index += 1;
                },
            }
            i += 1;
        }
        block_short_ids
    }
}

} // verus!
