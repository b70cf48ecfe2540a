//! The median of the timestamps of the latest blocks of a chain, by which
//! timestamps of headers and of `since` fields are judged.

use vstd::prelude::*;
use crate::primitives::Byte32;
use crate::primitives::position;
use crate::sorting::median;
use crate::sorting::median_of;
use crate::store::ChainStore;
use crate::store::find_header;
use crate::store::header_keys;
use crate::types::Header;

verus! {

/// The header with hash `hash`: among `pending` first, in the store
/// otherwise.
pub open spec fn lookup_header(pending: Seq<Header>, store: ChainStore, hash: Seq<u8>) -> Option<
    Header,
> {
    let i = position(header_keys(pending), hash);
    if 0 <= i < pending.len() {
        Some(pending[i])
    } else {
        store.spec_header(hash)
    }
}

/// The header with this hash, among the pending ones first and in the store
/// otherwise.
pub fn find_any_header(pending: &Vec<Header>, store: &ChainStore, hash: &Byte32) -> (r: Option<
    Header,
>)
    ensures
        r == lookup_header(pending@, *store, hash@),
{
    match find_header(pending, hash) {
        Some(i) => Some(pending[i]),
        None => store.get_block_header(hash),
    }
}

/// The timestamps of up to `count` blocks, from the block with hash `hash`
/// back through its ancestors and not beyond genesis; `None` where a header
/// on the way is not to be found.
pub open spec fn timestamps_back(
    pending: Seq<Header>,
    store: ChainStore,
    hash: Seq<u8>,
    count: nat,
) -> Option<Seq<u64>>
    decreases count,
{
    if count == 0 {
        Some(Seq::<u64>::empty())
    } else {
        match lookup_header(pending, store, hash) {
            None => None,
            Some(h) => if h.number == 0 {
                Some(seq![h.timestamp])
            } else {
                match timestamps_back(pending, store, h.parent_hash@, (count - 1) as nat) {
                    None => None,
                    Some(rest) => Some(seq![h.timestamp] + rest),
                }
            },
        }
    }
}

/// The median time at the block with hash `hash` over `count` blocks;
/// `None` where `count` is zero or a header on the way is not to be found.
pub open spec fn spec_median_time(
    pending: Seq<Header>,
    store: ChainStore,
    hash: Seq<u8>,
    count: nat,
) -> Option<u64> {
    match timestamps_back(pending, store, hash, count) {
        None => None,
        Some(ts) => if ts.len() > 0 {
            Some(median_of(ts))
        } else {
            None
        },
    }
}

/// Computes the median time at the block with hash `hash`.
pub fn block_median_time(pending: &Vec<Header>, store: &ChainStore, hash: &Byte32, count: u64) -> (r:
    Option<u64>)
    ensures
        r == spec_median_time(pending@, *store, hash@, count as nat),
{
    let mut timestamps: Vec<u64> = Vec::new();
    let mut current: Byte32 = *hash;
    let mut i: u64 = 0;
    let ghost whole = timestamps_back(pending@, *store, hash@, count as nat);
    assert(Seq::<u64>::empty() + timestamps_back(
        pending@,
        *store,
        hash@,
        count as nat,
    ).unwrap_or(Seq::<u64>::empty()) =~= timestamps_back(
        pending@,
        *store,
        hash@,
        count as nat,
    ).unwrap_or(Seq::<u64>::empty()));
    while i < count
        invariant
            0 <= i <= count,
            timestamps@.len() == i,
            whole == timestamps_back(pending@, *store, hash@, count as nat),
            whole == (match timestamps_back(pending@, *store, current@, (count - i) as nat) {
                None => None::<Seq<u64>>,
                Some(rest) => Some(timestamps@ + rest),
            }),
        decreases count - i,
    {
        let ghost before = timestamps@;
        match find_any_header(pending, store, &current) {
            None => {
                return None;
            },
            Some(h) => {
                timestamps.push(h.timestamp);
                if h.number == 0 {
                    assert(before + seq![h.timestamp] =~= timestamps@);
                    return Some(median(&timestamps));
                }
                proof {
                    let tail = timestamps_back(
                        pending@,
                        *store,
                        h.parent_hash@,
                        (count - i - 1) as nat,
                    );
                    if tail.is_some() {
                        assert(before + (seq![h.timestamp] + tail.unwrap()) =~= timestamps@
                            + tail.unwrap());
                    }
                }
                current = h.parent_hash;
            },
        }
        i += 1;
    }
    assert(timestamps@ + Seq::<u64>::empty() =~= timestamps@);
    if timestamps.len() == 0 {
        None
    } else {
        Some(median(&timestamps))
    }
}

} // verus!
