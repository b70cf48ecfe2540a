//! Whether the transactions that a peer sends answer the request that was
//! made of it.

use vstd::prelude::*;
use crate::primitives::ProposalShortId;
use crate::relayer::compact_block::CompactBlock;
use crate::relayer::error::Error;
use crate::relayer::error::Misbehavior;
use crate::types::Transaction;

verus! {

/// The short identifiers asked for: those of the places among the first
/// `n` that `indexes` names and that are not prefilled, in the order of
/// the places.
pub open spec fn expected_ids(block: CompactBlock, indexes: Seq<usize>, n: int) -> Seq<
    ProposalShortId,
>
    decreases n,
{
    if n <= 0 {
        Seq::<ProposalShortId>::empty()
    } else if indexes.contains((n - 1) as usize) && block.spec_slot(n - 1).is_some() {
        expected_ids(block, indexes, n - 1).push(block.spec_slot(n - 1).unwrap())
    } else {
        expected_ids(block, indexes, n - 1)
    }
}

/// The first transaction among the first `n` that is not the one asked
/// for at its place, with the identifier asked for and the one got.
pub open spec fn first_mismatch(
    expected: Seq<ProposalShortId>,
    transactions: Seq<Transaction>,
    n: int,
) -> Option<(ProposalShortId, Seq<u8>)>
    decreases n,
{
    if n <= 0 {
        None
    } else {
        match first_mismatch(expected, transactions, n - 1) {
            Some(m) => Some(m),
            None => if expected[n - 1]@ != transactions[n - 1].spec_short_id() {
                Some((expected[n - 1], transactions[n - 1].spec_short_id()))
            } else {
                None
            },
        }
    }
}

proof fn lemma_mismatch_stays(
    expected: Seq<ProposalShortId>,
    transactions: Seq<Transaction>,
    i: int,
    n: int,
)
    requires
        0 <= i <= n,
        first_mismatch(expected, transactions, i).is_some(),
    ensures
        first_mismatch(expected, transactions, n) == first_mismatch(expected, transactions, i),
    decreases n - i,
{
    if i < n {
        lemma_mismatch_stays(expected, transactions, i, n - 1);
    }
}

/// The smaller of two lengths.
pub open spec fn shorter(a: int, b: int) -> int {
    if a <= b {
        a
    } else {
        b
    }
}

fn index_listed(indexes: &[usize], index: usize) -> (r: bool)
    ensures
        r == indexes@.contains(index),
{
    let mut i: usize = 0;
    while i < indexes.len()
        invariant
            0 <= i <= indexes.len(),
            forall|j: int| 0 <= j < i ==> indexes@[j] != index,
        decreases indexes.len() - i,
    {
        if indexes[i] == index {
            return true;
        }
        i += 1;
    }
    false
}

/// Holds the transactions of an answer against the indexes that were asked for.
pub struct BlockTransactionsVerifier {}

impl BlockTransactionsVerifier {
    /// Accepts `transactions` as the answer to a request for the places
    /// `indexes` of `block` exactly when there are as many transactions as
    /// places and each transaction has the short identifier of its place,
    /// the places taken in ascending order. Otherwise names the numbers
    /// that differ, or the first transaction that is not the one asked
    /// for.
    pub fn verify(block: &CompactBlock, indexes: &[usize], transactions: &[Transaction]) -> (r:
        Result<(), Error>)
        requires
            block.wf(),
        ensures
            transactions@.len() != indexes@.len() ==> r == Err::<(), Error>(
                Error::Misbehavior(
                    Misbehavior::InvalidBlockTransactionsLength {
                        expected: indexes@.len() as usize,
                        got: transactions@.len() as usize,
                    },
                ),
            ),
            transactions@.len() == indexes@.len() ==> match first_mismatch(
                expected_ids(*block, indexes@, block.spec_txs_len()),
                transactions@,
                shorter(
                    expected_ids(*block, indexes@, block.spec_txs_len()).len() as int,
                    transactions@.len() as int,
                ),
            ) {
                None => r.is_ok(),
                Some(m) => match r {
                    Err(Error::Misbehavior(Misbehavior::InvalidBlockTransactions { expected, got })) =>
                        expected == m.0 && got@ == m.1,
                    _ => false,
                },
            },
    {
        let block_txs_len = transactions.len();
        if block_txs_len != indexes.len() {
            return Err(
                Error::Misbehavior(
                    Misbehavior::InvalidBlockTransactionsLength {
                        expected: indexes.len(),
                        got: block_txs_len,
                    },
                ),
            );
        }
        let block_short_ids = block.block_short_ids();
        let mut missing_short_ids: Vec<ProposalShortId> = Vec::new();
        let mut index: usize = 0;
        while index < block_short_ids.len()
            invariant
                0 <= index <= block_short_ids.len(),
                block_short_ids@.len() == block.spec_txs_len(),
                forall|pos: int|
                    0 <= pos < block_short_ids@.len() ==> #[trigger] block_short_ids@[pos]
                        == block.spec_slot(pos),
                missing_short_ids@ == expected_ids(*block, indexes@, index as int),
            decreases block_short_ids.len() - index,
        {
            if index_listed(indexes, index) {
                match block_short_ids[index] {
                    Some(id) => {
                        missing_short_ids.push(id);
                    },
                    None => {},
                }
            }
            index += 1;
        }
        let n: usize = if missing_short_ids.len() <= transactions.len() {
            missing_short_ids.len()
        } else {
            transactions.len()
        };
        let mut i: usize = 0;
        while i < n
            invariant
                0 <= i <= n,
                n <= missing_short_ids.len(),
                n <= transactions.len(),
                transactions@.len() == indexes@.len(),
                missing_short_ids@ == expected_ids(*block, indexes@, block.spec_txs_len()),
                n == shorter(missing_short_ids@.len() as int, transactions@.len() as int),
                first_mismatch(missing_short_ids@, transactions@, i as int).is_none(),
            decreases n - i,
        {
            let short_id = transactions[i].proposal_short_id();
            let expected = missing_short_ids[i];
            if !expected.same(&short_id) {
                proof {
                    lemma_mismatch_stays(missing_short_ids@, transactions@, i as int + 1, n as int);
                }
                return Err(
                    Error::Misbehavior(
                        Misbehavior::InvalidBlockTransactions { expected, got: short_id },
                    ),
                );
            }
            i += 1;
        }
        Ok(())
    }
}

} // verus!
