//! The rules of the compact block format.

use vstd::prelude::*;
use crate::primitives::ProposalShortId;
use crate::primitives::extend_short_ids;
use crate::primitives::short_id_keys;
use crate::relayer::compact_block::CompactBlock;
use crate::relayer::error::Error;
use crate::relayer::error::Misbehavior;

verus! {

/// No key occurs twice.
pub open spec fn keys_distinct(keys: Seq<Seq<u8>>) -> bool {
    forall|i: int, j: int| 0 <= i < j < keys.len() ==> keys[i] != keys[j]
}

/// Whether no identifier occurs twice in `ids`.
pub fn ids_distinct(ids: &Vec<ProposalShortId>) -> (r: bool)
    ensures
        r == keys_distinct(short_id_keys(ids@)),
{
    let mut j: usize = 0;
    while j < ids.len()
        invariant
            0 <= j <= ids.len(),
            forall|a: int, b: int|
                0 <= a < b < j ==> short_id_keys(ids@)[a] != short_id_keys(ids@)[b],
        decreases ids.len() - j,
    {
        let mut i: usize = 0;
        while i < j
            invariant
                0 <= i <= j < ids.len(),
                forall|a: int| 0 <= a < i ==> short_id_keys(ids@)[a] != short_id_keys(ids@)[j as int],
            decreases j - i,
        {
            if ids[i].same(&ids[j]) {
                assert(short_id_keys(ids@)[i as int] == short_id_keys(ids@)[j as int]);
                return false;
            }
            i += 1;
        }
        j += 1;
    }
    true
}

/// The short identifiers of the prefilled transactions, in their order.
pub open spec fn prefilled_ids(block: CompactBlock) -> Seq<Seq<u8>> {
    Seq::new(
        block.prefilled_transactions@.len(),
        |k: int| block.prefilled_transactions@[k].transaction.spec_short_id(),
    )
}

/// The prefilled indices increase from each transaction to the next.
pub open spec fn prefilled_increasing(block: CompactBlock) -> bool {
    forall|k: int|
        1 <= k < block.prefilled_transactions@.len() ==> block.prefilled_transactions@[k - 1].index
            < (#[trigger] block.prefilled_transactions@[k]).index
}

/// What is wrong with a compact block, if anything: the cellbase is not
/// prefilled at index 0; the prefilled indices do not increase; the last
/// of them lies beyond the block; a prefilled transaction occurs twice; a
/// short identifier occurs twice, among the identifiers or as the
/// identifier of a prefilled transaction.
pub open spec fn compact_block_fault(block: CompactBlock) -> Option<Misbehavior> {
    let prefilled = block.prefilled_transactions@;
    if !(prefilled.len() >= 1 && prefilled[0].index == 0
        && prefilled[0].transaction.spec_is_cellbase()) {
        Some(Misbehavior::CellbaseNotPrefilled)
    } else if !prefilled_increasing(block) {
        Some(Misbehavior::UnorderedPrefilledTransactions)
    } else if prefilled[prefilled.len() - 1].index >= block.spec_txs_len() {
        Some(Misbehavior::OverflowPrefilledTransactions)
    } else if !keys_distinct(prefilled_ids(block)) {
        Some(Misbehavior::DuplicatedPrefilledTransactions)
    } else if !keys_distinct(prefilled_ids(block) + short_id_keys(block.short_ids@)) {
        Some(Misbehavior::DuplicatedShortIds)
    } else {
        None
    }
}

/// Holds a compact block to the rules of its format.
pub struct CompactBlockVerifier {}

impl CompactBlockVerifier {
    /// A verifier of compact blocks.
    pub fn new() -> Self {
        CompactBlockVerifier {  }
    }

    /// Accepts a compact block exactly when it keeps the rules of the
    /// format, and names the first broken rule otherwise.
    pub fn verify(&self, block: &CompactBlock) -> (r: Result<(), Error>)
        requires
            block.wf(),
        ensures
            match r {
                Ok(_) => compact_block_fault(*block).is_none(),
                Err(e) => compact_block_fault(*block).is_some() && e == Error::Misbehavior(
                    compact_block_fault(*block).unwrap(),
                ),
            },
    {
        let prefilled = &block.prefilled_transactions;
        if prefilled.len() == 0 || prefilled[0].index != 0
            || !prefilled[0].transaction.is_cellbase() {
            return Err(Error::Misbehavior(Misbehavior::CellbaseNotPrefilled));
        }
        let mut k: usize = 1;
        while k < prefilled.len()
            invariant
                1 <= k <= prefilled.len(),
                prefilled == &block.prefilled_transactions,
                prefilled@[0].index == 0,
                prefilled@[0].transaction.spec_is_cellbase(),
                forall|j: int|
                    1 <= j < k ==> prefilled@[j - 1].index < (#[trigger] prefilled@[j]).index,
            decreases prefilled.len() - k,
        {
            if prefilled[k - 1].index >= prefilled[k].index {
                assert(!(prefilled@[k - 1].index < prefilled@[k as int].index));
                return Err(Error::Misbehavior(Misbehavior::UnorderedPrefilledTransactions));
            }
            k += 1;
        }
        if prefilled[prefilled.len() - 1].index >= block.txs_len() {
            return Err(Error::Misbehavior(Misbehavior::OverflowPrefilledTransactions));
        }
        let mut ids: Vec<ProposalShortId> = Vec::new();
        let mut i: usize = 0;
        while i < prefilled.len()
            invariant
                0 <= i <= prefilled.len(),
                prefilled == &block.prefilled_transactions,
                prefilled@.len() >= 1,
                prefilled@[0].index == 0,
                prefilled@[0].transaction.spec_is_cellbase(),
                prefilled_increasing(*block),
                prefilled@[prefilled@.len() - 1].index < block.spec_txs_len(),
                ids@.len() == i,
                forall|j: int|
                    0 <= j < i ==> (#[trigger] ids@[j])@
                        == prefilled@[j].transaction.spec_short_id(),
            decreases prefilled.len() - i,
        {
            ids.push(prefilled[i].transaction.proposal_short_id());
            i += 1;
        }
        assert(short_id_keys(ids@) =~= prefilled_ids(*block));
        if !ids_distinct(&ids) {
            return Err(Error::Misbehavior(Misbehavior::DuplicatedPrefilledTransactions));
        }
        extend_short_ids(&mut ids, &block.short_ids);
        assert(short_id_keys(ids@) =~= prefilled_ids(*block) + short_id_keys(block.short_ids@));
        if !ids_distinct(&ids) {
            return Err(Error::Misbehavior(Misbehavior::DuplicatedShortIds));
        }
        Ok(())
    }
}

} // verus!
