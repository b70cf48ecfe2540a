//! Sorting of 64-bit numbers, and the median that timestamps are judged by.

use vstd::prelude::*;
use vstd::relations::sorted_by;
use vstd::relations::total_ordering;
use vstd::seq_lib::lemma_sorted_unique;
use vstd::seq_lib::to_multiset_insert;

verus! {

/// The order by which numbers are sorted.
pub open spec fn leq_u64() -> spec_fn(u64, u64) -> bool {
    |a: u64, b: u64| a <= b
}

/// `values` in ascending order.
pub open spec fn ascending(values: Seq<u64>) -> Seq<u64> {
    values.sort_by(leq_u64())
}

/// The median of a non-empty sequence: the middle element of the
/// ascending order, the upper of the two where the length is even.
pub open spec fn median_of(values: Seq<u64>) -> u64 {
    ascending(values)[(values.len() / 2) as int]
}

/// What the ascending order is: a sorted rearrangement of the values.
pub proof fn lemma_ascending(values: Seq<u64>)
    ensures
        ascending(values).len() == values.len(),
        ascending(values).to_multiset() == values.to_multiset(),
        forall|i: int, j: int|
            0 <= i <= j < values.len() ==> ascending(values)[i] <= ascending(values)[j],
{
    values.lemma_sort_by_ensures(leq_u64());
    let sorted = ascending(values);
    sorted.to_multiset_ensures();
    values.to_multiset_ensures();
    assert(sorted.to_multiset() =~= values.to_multiset());
    assert forall|i: int, j: int| 0 <= i <= j < values.len() implies sorted[i] <= sorted[j] by {
        if i < j {
            assert(leq_u64()(sorted[i], sorted[j]));
        }
    }
}

/// A copy of `values` in ascending order.
pub fn sorted_copy(values: &Vec<u64>) -> (r: Vec<u64>)
    ensures
        r@ == ascending(values@),
        r@.len() == values@.len(),
{
    let mut out: Vec<u64> = Vec::new();
    let mut i: usize = 0;
    assert(out@.to_multiset() =~= values@.subrange(0, 0).to_multiset()) by {
        assert(out@ =~= values@.subrange(0, 0));
    }
    while i < values.len()
        invariant
            0 <= i <= values.len(),
            out@.len() == i,
            sorted_by(out@, leq_u64()),
            out@.to_multiset() == values@.subrange(0, i as int).to_multiset(),
        decreases values.len() - i,
    {
        let x = values[i];
        let mut p: usize = 0;
        while p < out.len() && out[p] <= x
            invariant
                0 <= p <= out.len(),
                forall|k: int| 0 <= k < p ==> out@[k] <= x,
            decreases out.len() - p,
        {
            p += 1;
        }
        let ghost before = out@;
        out.insert(p, x);
        proof {
            to_multiset_insert(before, p as int, x);
            assert(values@.subrange(0, i as int + 1) =~= values@.subrange(0, i as int).push(x));
            values@.subrange(0, i as int).to_multiset_ensures();
            before.insert_ensures(p as int, x);
            assert forall|a: int, b: int| 0 <= a < b < out@.len() implies leq_u64()(
                out@[a],
                out@[b],
            ) by {
                if b < p {
                    assert(leq_u64()(before[a], before[b]));
                } else if b == p {
                } else if a < p {
                    assert(out@[b] == before[b - 1]);
                    assert(leq_u64()(before[a], before[b - 1]));
                } else if a == p {
                    assert(out@[b] == before[b - 1]);
                    if p < before.len() {
                        assert(leq_u64()(before[p as int], before[b - 1]) || b - 1 == p);
                    }
                } else {
                    assert(out@[a] == before[a - 1]);
                    assert(out@[b] == before[b - 1]);
                    assert(leq_u64()(before[a - 1], before[b - 1]));
                }
            }
        }
        i += 1;
    }
    proof {
        assert(values@.subrange(0, values@.len() as int) =~= values@);
        values@.lemma_sort_by_ensures(leq_u64());
        assert(total_ordering(leq_u64()));
        lemma_sorted_unique(out@, ascending(values@), leq_u64());
    }
    out
}

/// The median of a non-empty list of numbers.
pub fn median(values: &Vec<u64>) -> (r: u64)
    requires
        values@.len() > 0,
    ensures
        r == median_of(values@),
{
    let sorted = sorted_copy(values);
    let n: usize = sorted.len();
    let mid: usize = n / 2;
    sorted[mid]
}

} // verus!
