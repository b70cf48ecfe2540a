//! Locators: lists of block hashes by which two nodes find the last block
//! that their chains share.
//!
//! A locator starts at the tip and walks back with steps of 1, 1, 2, 4, 8
//! and so on, and ends with the genesis block.

use vstd::prelude::*;
use crate::primitives::Byte32;
use crate::store::ChainStore;
use crate::types::BlockNumber;
use crate::types::Header;

verus! {

/// The heights of a locator that stands at `index` and steps `step` next;
/// `first` tells that no step was taken yet. The step stays 1 once, then
/// doubles; a step beyond genesis ends at genesis.
pub open spec fn locator_heights(index: int, step: int, first: bool) -> Seq<int>
    decreases index,
{
    if index <= 0 {
        seq![0int]
    } else if step <= 0 || index < step {
        seq![index, 0int]
    } else {
        seq![index] + locator_heights(
            index - step,
            if first {
                1
            } else {
                2 * step
            },
            false,
        )
    }
}

/// The heights of the locator of a chain whose tip is at `tip`.
pub open spec fn locator_of(tip: int) -> Seq<int> {
    locator_heights(tip, 1, true)
}

/// The locator of the main chain: the hashes at the heights of the
/// locator, from the tip down. Empty where the store holds no chain.
pub fn get_locator(store: &ChainStore) -> (r: Vec<Byte32>)
    ensures
        store.main_chain@.len() == 0 ==> r@.len() == 0,
        store.main_chain@.len() > 0 ==> r@.len() == locator_of(store.main_chain@.len() - 1).len(),
        store.main_chain@.len() > 0 ==> forall|i: int|
            0 <= i < r@.len() ==> 0 <= #[trigger] locator_of(store.main_chain@.len() - 1)[i]
                < store.main_chain@.len(),
        store.main_chain@.len() > 0 ==> forall|i: int|
            #![trigger r@[i]]
            0 <= i < r@.len() ==> r@[i] == store.main_chain@[locator_of(
                store.main_chain@.len() - 1,
            )[i]],
{
    let mut locator: Vec<Byte32> = Vec::new();
    if store.main_chain.len() == 0 {
        return locator;
    }
    let tip: usize = store.main_chain.len() - 1;
    let mut index: usize = tip;
    let mut step: u128 = 1;
    let mut first = true;
    let mut done = false;
    let ghost whole = locator_of(tip as int);
    assert(whole.subrange(0, whole.len() as int) =~= whole);
    while !done
        invariant
            index <= tip,
            tip == store.main_chain@.len() - 1,
            1 <= step <= 0x2_0000_0000_0000_0000,
            whole == locator_of(tip as int),
            locator@.len() <= whole.len(),
            !done ==> whole.subrange(locator@.len() as int, whole.len() as int) == locator_heights(
                index as int,
                step as int,
                first,
            ),
            done ==> locator@.len() == whole.len(),
            forall|i: int| 0 <= i < locator@.len() ==> 0 <= #[trigger] whole[i] <= tip,
            forall|i: int|
                #![trigger locator@[i]]
                0 <= i < locator@.len() ==> locator@[i] == store.main_chain@[whole[i]],
        decreases
                (if done {
                    0
                } else {
                    index + 1
                }),
    {
        let ghost n = locator@.len() as int;
        let ghost tail = whole.subrange(n, whole.len() as int);
        assert(tail.len() >= 1 && tail[0] == index as int);
        assert(whole[n] == tail[0]);
        locator.push(store.main_chain[index]);
        if index == 0 {
            assert(tail.len() == 1);
            done = true;
        } else if (index as u128) < step {
            assert(tail.len() == 2 && tail[1] == 0);
            assert(whole[n + 1] == tail[1]);
            locator.push(store.main_chain[0]);
            done = true;
        } else {
            proof {
                let rest = locator_heights(
                    index as int - step as int,
                    if first {
                        1
                    } else {
                        2 * (step as int)
                    },
                    false,
                );
                assert(tail == seq![index as int] + rest);
                assert(whole.subrange(n + 1, whole.len() as int) =~= rest) by {
                    assert forall|j: int| 0 <= j < rest.len() implies whole.subrange(
                        n + 1,
                        whole.len() as int,
                    )[j] == rest[j] by {
                        assert(tail[j + 1] == rest[j]);
                    }
                }
            }
            index = index - step as usize;
            step = if first {
                1
            } else {
                2 * step
            };
            first = false;
        }
    }
    locator
}

/// The place of the first entry of a locator, at or after `from`, that the
/// main chain holds; -1 where there is none.
pub open spec fn common_index(store: ChainStore, locator: Seq<Byte32>, from: int) -> int
    decreases locator.len() - from,
{
    if from < 0 || from >= locator.len() {
        -1
    } else if store.spec_in_main_chain(locator[from]@) {
        from
    } else {
        common_index(store, locator, from + 1)
    }
}

/// Where the chain that ends in the block with hash `hash` leaves the main
/// chain: the number of the first block of the main chain among that block
/// and its ancestors. `None` where the store lacks a header on the way, or
/// where `fuel` blocks were looked at without meeting the main chain.
pub open spec fn fork_point(store: ChainStore, hash: Seq<u8>, fuel: nat) -> Option<BlockNumber>
    decreases fuel,
{
    if fuel == 0 {
        None
    } else {
        match store.spec_header(hash) {
            None => None,
            Some(h) => if store.spec_in_main_chain(hash) {
                store.spec_number_of(hash)
            } else {
                fork_point(store, h.parent_hash@, (fuel - 1) as nat)
            },
        }
    }
}

/// The latest block that the main chain shares with the chain of a
/// locator.
///
/// The first entry that the main chain holds is a common block. Where the
/// entry before it is a block that the store holds off the main chain, the
/// chains part later than that: at the fork point of the parent of that
/// block. `None` where the main chain holds no entry.
pub open spec fn latest_common(store: ChainStore, locator: Seq<Byte32>) -> Option<BlockNumber> {
    let i = common_index(store, locator, 0);
    if i < 0 {
        None
    } else {
        let common = store.spec_number_of(locator[i]@);
        if i == 0 || common == Some(0u64) {
            common
        } else {
            match store.spec_header(locator[i - 1]@) {
                None => common,
                Some(h) => match fork_point(store, h.parent_hash@, store.blocks@.len() as nat) {
                    Some(n) => Some(n),
                    None => common,
                },
            }
        }
    }
}

/// What `common_index` returns: the first place at or after `from` whose
/// entry the main chain holds, or -1 and the main chain holds none.
pub proof fn lemma_common_index(store: ChainStore, locator: Seq<Byte32>, from: int)
    requires
        0 <= from,
    ensures
        common_index(store, locator, from) == -1 || from <= common_index(store, locator, from)
            < locator.len(),
        common_index(store, locator, from) >= 0 ==> store.spec_in_main_chain(
            locator[common_index(store, locator, from)]@,
        ),
        forall|j: int|
            from <= j < locator.len() && (common_index(store, locator, from) == -1 || j
                < common_index(store, locator, from)) ==> !store.spec_in_main_chain(
                (#[trigger] locator[j])@,
            ),
    decreases locator.len() - from,
{
    if from < locator.len() && !store.spec_in_main_chain(locator[from]@) {
        lemma_common_index(store, locator, from + 1);
    }
}

/// Looks for the fork point of the chain that ends in the block with hash
/// `hash`, among as many blocks as the store holds.
pub fn locate_fork_point(store: &ChainStore, hash: &Byte32) -> (r: Option<BlockNumber>)
    ensures
        r == fork_point(*store, hash@, store.blocks@.len() as nat),
{
    let mut block_hash = *hash;
    let mut fuel: usize = store.blocks.len();
    while fuel > 0
        invariant
            fork_point(*store, hash@, store.blocks@.len() as nat) == fork_point(
                *store,
                block_hash@,
                fuel as nat,
            ),
        decreases fuel,
    {
        let block_header = match store.get_block_header(&block_hash) {
            None => {
                return None;
            },
            Some(h) => h,
        };
        match store.get_block_number(&block_hash) {
            Some(number) => {
                return Some(number);
            },
            None => {},
        }
        block_hash = block_header.parent_hash;
        fuel -= 1;
    }
    None
}

/// Finds the latest block that the main chain shares with the chain of a
/// locator.
pub fn locate_latest_common_block(store: &ChainStore, hash_stop: &Byte32, locator: &Vec<Byte32>) -> (r:
    Option<BlockNumber>)
    ensures
        r == latest_common(*store, locator@),
{
    let mut i: usize = 0;
    while i < locator.len()
        invariant
            0 <= i <= locator.len(),
            common_index(*store, locator@, 0) == common_index(*store, locator@, i as int),
        decreases locator.len() - i,
    {
        match store.get_block_number(&locator[i]) {
            Some(number) => {
                if i == 0 || number == 0 {
                    return Some(number);
                }
                return match store.get_block_header(&locator[i - 1]) {
                    None => Some(number),
                    Some(header) => match locate_fork_point(store, &header.parent_hash) {
                        Some(n) => Some(n),
                        None => Some(number),
                    },
                };
            },
            None => {},
        }
        i += 1;
    }
    None
}

/// The headers of the main chain from height `from` up to, not including,
/// height `end`, as far as the store holds them; the list ends before the
/// block with hash `stop`.
pub open spec fn headers_between(store: ChainStore, from: int, end: int, stop: Seq<u8>) -> Seq<
    Header,
>
    decreases end - from,
{
    if from < 0 || from >= end || from >= store.main_chain@.len() {
        Seq::<Header>::empty()
    } else if store.main_chain@[from]@ == stop {
        Seq::<Header>::empty()
    } else {
        match store.spec_header(store.main_chain@[from]@) {
            Some(h) => seq![h] + headers_between(store, from + 1, end, stop),
            None => headers_between(store, from + 1, end, stop),
        }
    }
}

/// The height at which a reply that follows block `block_number` ends: at
/// most as many headers as a reply may carry, and not beyond the tip.
pub open spec fn response_end(store: ChainStore, block_number: BlockNumber) -> int {
    if block_number + 1 + crate::MAX_HEADERS_LEN <= store.main_chain@.len() {
        block_number + 1 + crate::MAX_HEADERS_LEN
    } else {
        store.main_chain@.len() as int
    }
}

/// The headers that answer a locator whose latest common block is at
/// `block_number`: those that follow it on the main chain, at most 2 000
/// of them, ending before `hash_stop`.
pub fn get_locator_response(store: &ChainStore, block_number: BlockNumber, hash_stop: &Byte32) -> (r:
    Vec<Header>)
    ensures
        r@ == headers_between(
            *store,
            block_number + 1,
            response_end(*store, block_number),
            hash_stop@,
        ),
        r@.len() <= crate::MAX_HEADERS_LEN,
{
    let mut headers: Vec<Header> = Vec::new();
    let len = store.main_chain.len();
    if block_number >= len as u64 {
        return headers;
    }
    let start: usize = block_number as usize + 1;
    let end: usize = if len - start >= crate::MAX_HEADERS_LEN {
        start + crate::MAX_HEADERS_LEN
    } else {
        len
    };
    let ghost whole = headers_between(*store, start as int, end as int, hash_stop@);
    let mut k: usize = start;
    let mut stopped = false;
    assert(headers@ + headers_between(*store, k as int, end as int, hash_stop@) =~= whole);
    while !stopped && k < end
        invariant
            start <= k <= end <= len,
            end - start <= crate::MAX_HEADERS_LEN,
            len == store.main_chain@.len(),
            headers@.len() <= k - start,
            !stopped ==> headers@ + headers_between(*store, k as int, end as int, hash_stop@)
                == whole,
            stopped ==> headers@ == whole,
        decreases
                (if stopped {
                    0
                } else {
                    end - k + 1
                }),
    {
        let hash = store.main_chain[k];
        if hash.same(hash_stop) {
            assert(headers@ + Seq::<Header>::empty() =~= headers@);
            stopped = true;
        } else {
            let ghost before = headers@;
            let ghost rest = headers_between(*store, k as int + 1, end as int, hash_stop@);
            match store.get_block_header(&hash) {
                Some(h) => {
                    headers.push(h);
                    assert(before + (seq![h] + rest) =~= headers@ + rest);
                },
                None => {},
            }
            k += 1;
        }
    }
    assert(headers@ + Seq::<Header>::empty() =~= headers@);
    headers
}

} // verus!
