//! Rebuilding a block from its compact form: every place is filled from
//! the prefilled transactions, from transactions at hand, or from the pool.

use vstd::prelude::*;
use crate::primitives::position;
use crate::relayer::compact_block::CompactBlock;
use crate::relayer::state::TxPool;
use crate::relayer::state::find_tx;
use crate::relayer::state::tx_keys;
use crate::types::Transaction;

verus! {

/// Where the transaction of a place is found.
#[derive(Clone, Copy, Debug, PartialEq, Eq, Structural)]
pub enum TxSource {
    /// Among the prefilled transactions of the compact block, at this
    /// position of the list.
    Prefilled(usize),
    /// Among the transactions at hand, at this position.
    Provided(usize),
    /// In the pool, at this position.
    Pool(usize),
}

/// The transaction that a source names.
pub open spec fn source_tx(
    block: CompactBlock,
    pool: TxPool,
    provided: Seq<Transaction>,
    source: TxSource,
) -> Option<Transaction> {
    match source {
        TxSource::Prefilled(k) => if k < block.prefilled_transactions@.len() {
            Some(block.prefilled_transactions@[k as int].transaction)
        } else {
            None
        },
        TxSource::Provided(j) => if j < provided.len() {
            Some(provided[j as int])
        } else {
            None
        },
        TxSource::Pool(i) => if i < pool.txs@.len() {
            Some(pool.txs@[i as int])
        } else {
            None
        },
    }
}

/// The transaction that a source names.
pub fn resolve_source<'a>(
    block: &'a CompactBlock,
    pool: &'a TxPool,
    provided: &'a [Transaction],
    source: TxSource,
) -> (r: Option<&'a Transaction>)
    ensures
        r.is_some() == source_tx(*block, *pool, provided@, source).is_some(),
        r.is_some() ==> *r.unwrap() == source_tx(*block, *pool, provided@, source).unwrap(),
{
    match source {
        TxSource::Prefilled(k) => if k < block.prefilled_transactions.len() {
            Some(&block.prefilled_transactions[k].transaction)
        } else {
            None
        },
        TxSource::Provided(j) => if j < provided.len() {
            Some(&provided[j])
        } else {
            None
        },
        TxSource::Pool(i) => if i < pool.txs.len() {
            Some(&pool.txs[i])
        } else {
            None
        },
    }
}

/// The first prefilled transaction that claims place `pos`.
pub open spec fn first_prefilled(block: CompactBlock, pos: int) -> int {
    choose|k: int|
        0 <= k < block.prefilled_transactions@.len() && block.prefilled_transactions@[k].index
            == pos && forall|j: int|
            0 <= j < k ==> (#[trigger] block.prefilled_transactions@[j]).index != pos
}

/// Where the transaction of place `pos` is found: the prefilled
/// transaction of the place; else, by the short identifier of the place,
/// the first transaction at hand, or else the first in the pool.
pub open spec fn filled(
    block: CompactBlock,
    pool: TxPool,
    provided: Seq<Transaction>,
    pos: int,
) -> Option<TxSource> {
    if block.spec_is_prefilled(pos) {
        Some(TxSource::Prefilled(first_prefilled(block, pos) as usize))
    } else {
        match block.spec_slot(pos) {
            None => None,
            Some(id) => if position(tx_keys(provided), id@) >= 0 {
                Some(TxSource::Provided(position(tx_keys(provided), id@) as usize))
            } else if position(tx_keys(pool.txs@), id@) >= 0 {
                Some(TxSource::Pool(position(tx_keys(pool.txs@), id@) as usize))
            } else {
                None
            },
        }
    }
}

/// The places among the first `n` whose transaction is not found, in
/// ascending order.
pub open spec fn missing_positions(
    block: CompactBlock,
    pool: TxPool,
    provided: Seq<Transaction>,
    n: int,
) -> Seq<usize>
    decreases n,
{
    if n <= 0 {
        Seq::<usize>::empty()
    } else if filled(block, pool, provided, n - 1).is_none() {
        missing_positions(block, pool, provided, n - 1).push((n - 1) as usize)
    } else {
        missing_positions(block, pool, provided, n - 1)
    }
}

/// Fills every place of a compact block.
///
/// Succeeds exactly when the transaction of every place is found, and
/// then returns where; otherwise returns the places that are missing, in
/// ascending order. A prefilled transaction wins over any other of the
/// same short identifier, and a transaction at hand over one in the pool.
pub fn reconstruct_block(block: &CompactBlock, pool: &TxPool, transactions: &[Transaction]) -> (r:
    Result<Vec<TxSource>, Vec<usize>>)
    requires
        block.wf(),
    ensures
        match r {
            Ok(sources) => {
                &&& missing_positions(*block, *pool, transactions@, block.spec_txs_len()).len()
                    == 0
                &&& sources@.len() == block.spec_txs_len()
                &&& forall|pos: int|
                    0 <= pos < sources@.len() ==> filled(*block, *pool, transactions@, pos)
                        == Some(#[trigger] sources@[pos]) && source_tx(
                        *block,
                        *pool,
                        transactions@,
                        sources@[pos],
                    ).is_some()
            },
            Err(missing) => missing@.len() > 0 && missing@ == missing_positions(
                *block,
                *pool,
                transactions@,
                block.spec_txs_len(),
            ),
        },
{
    let slots = block.block_short_ids();
    let txs_len = block.txs_len();
    let mut sources: Vec<TxSource> = Vec::new();
    let mut missing: Vec<usize> = Vec::new();
    let mut pos: usize = 0;
    while pos < txs_len
        invariant
            0 <= pos <= txs_len,
            txs_len == block.spec_txs_len(),
            slots@.len() == txs_len,
            forall|q: int| 0 <= q < slots@.len() ==> #[trigger] slots@[q] == block.spec_slot(q),
            missing@ == missing_positions(*block, *pool, transactions@, pos as int),
            missing@.len() == 0 ==> sources@.len() == pos,
            missing@.len() == 0 ==> forall|q: int|
                0 <= q < pos ==> filled(*block, *pool, transactions@, q) == Some(
                    #[trigger] sources@[q],
                ) && source_tx(*block, *pool, transactions@, sources@[q]).is_some(),
        decreases txs_len - pos,
    {
        let found: Option<TxSource> = match block.prefilled_at(pos) {
            Some(k) => {
                assert(first_prefilled(*block, pos as int) == k) by {
                    let c = first_prefilled(*block, pos as int);
                    assert(0 <= c < block.prefilled_transactions@.len()
                        && block.prefilled_transactions@[c].index == pos && forall|j: int|
                        0 <= j < c ==> (#[trigger] block.prefilled_transactions@[j]).index != pos);
                    if c < k {
                        assert(block.prefilled_transactions@[c].index != pos);
                    }
                    if k < c {
                        assert(block.prefilled_transactions@[k as int].index != pos);
                    }
                }
                Some(TxSource::Prefilled(k))
            },
            None => match slots[pos] {
                None => None,
                Some(id) => match find_tx(transactions, &id) {
                    Some(j) => Some(TxSource::Provided(j)),
                    None => match find_tx(pool.txs.as_slice(), &id) {
                        Some(i) => Some(TxSource::Pool(i)),
                        None => None,
                    },
                },
            },
        };
        assert(found == filled(*block, *pool, transactions@, pos as int));
        match found {
            Some(source) => {
                if missing.len() == 0 {
                    sources.push(source);
                }
            },
            None => {
                missing.push(pos);
            },
        }
        pos += 1;
    }
    if missing.len() == 0 {
        Ok(sources)
    } else {
        Err(missing)
    }
}

} // verus!
