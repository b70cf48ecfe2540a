//! The checks of a header that need no block body: proof of work, number
//! and timestamp.

use vstd::prelude::*;
use crate::consensus::Consensus;
use crate::median_time::block_median_time;
use crate::median_time::find_any_header;
use crate::median_time::lookup_header;
use crate::median_time::spec_median_time;
use crate::primitives::Byte32;
use crate::store::ChainStore;
use crate::types::BlockNumber;
use crate::types::Header;

verus! {

/// A fault in a header.
#[derive(Clone, Copy, Debug, PartialEq, Eq, Structural)]
pub enum HeaderError {
    /// The proof of work is invalid.
    Pow,
    /// The parent, or an ancestor that the median time needs, is not to be
    /// found.
    UnknownParent,
    /// The number is not the parent's plus one.
    Number,
    /// The timestamp is not later than the median time at the parent.
    BlockTimeTooOld,
    /// The timestamp lies further beyond the local clock than allowed.
    BlockTimeTooNew,
}

/// What is wrong with `header`, if anything, checked in this order: the
/// proof of work, the parent, the number, the timestamp against the median
/// time at the parent, the timestamp against the clock.
pub open spec fn header_fault(
    pending: Seq<Header>,
    store: ChainStore,
    consensus: Consensus,
    now: u64,
    header: Header,
    pow_valid: bool,
) -> Option<HeaderError> {
    if !pow_valid {
        Some(HeaderError::Pow)
    } else {
        match lookup_header(pending, store, header.parent_hash@) {
            None => Some(HeaderError::UnknownParent),
            Some(parent) => if parent.number + 1 != header.number {
                Some(HeaderError::Number)
            } else {
                match spec_median_time(
                    pending,
                    store,
                    header.parent_hash@,
                    consensus.median_time_block_count as nat,
                ) {
                    None => Some(HeaderError::UnknownParent),
                    Some(median) => if header.timestamp <= median {
                        Some(HeaderError::BlockTimeTooOld)
                    } else if header.timestamp > now + consensus.allowed_future_time {
                        Some(HeaderError::BlockTimeTooNew)
                    } else {
                        None
                    },
                }
            },
        }
    }
}

/// Checks headers against the store and the headers known beside it.
pub struct HeaderVerifier<'a> {
    pub pending: &'a Vec<Header>,
    pub store: &'a ChainStore,
    pub consensus: &'a Consensus,
    /// The local clock, in milliseconds.
    pub now: u64,
}

impl<'a> HeaderVerifier<'a> {
    /// A verifier of `header` against the chain seen through `view`.
    pub fn new(
        pending: &'a Vec<Header>,
        store: &'a ChainStore,
        consensus: &'a Consensus,
        now: u64,
    ) -> (r: Self)
        ensures
            r.pending == pending,
            r.store == store,
            r.consensus == consensus,
            r.now == now,
    {
        HeaderVerifier { pending, store, consensus, now }
    }

    /// Accepts `header` exactly when nothing is wrong with it, and names
    /// the first fault otherwise. Whether the proof of work holds is for
    /// the caller to say.
    pub fn verify(&self, header: &Header, pow_valid: bool) -> (r: Result<(), HeaderError>)
        ensures
            match r {
                Ok(_) => header_fault(
                    self.pending@,
                    *self.store,
                    *self.consensus,
                    self.now,
                    *header,
                    pow_valid,
                ).is_none(),
                Err(e) => header_fault(
                    self.pending@,
                    *self.store,
                    *self.consensus,
                    self.now,
                    *header,
                    pow_valid,
                ) == Some(e),
            },
    {
        if !pow_valid {
            return Err(HeaderError::Pow);
        }
        let parent = match find_any_header(self.pending, self.store, &header.parent_hash) {
            Some(p) => p,
            None => {
                return Err(HeaderError::UnknownParent);
            },
        };
        if parent.number == u64::MAX || parent.number + 1 != header.number {
            return Err(HeaderError::Number);
        }
        let median = match block_median_time(
            self.pending,
            self.store,
            &header.parent_hash,
            self.consensus.median_time_block_count,
        ) {
            Some(m) => m,
            None => {
                return Err(HeaderError::UnknownParent);
            },
        };
        if header.timestamp <= median {
            return Err(HeaderError::BlockTimeTooOld);
        }
        if header.timestamp as u128 > self.now as u128 + self.consensus.allowed_future_time as u128 {
            return Err(HeaderError::BlockTimeTooNew);
        }
        Ok(())
    }
}

/// The hash at height `number` on the chain that ends in the block with
/// hash `hash`, found by walking back at most `fuel` headers: through the
/// pending headers until the walk meets the main chain, and from there by
/// the main chain's index.
pub open spec fn chain_hash_at(
    pending: Seq<Header>,
    store: ChainStore,
    hash: Byte32,
    number: BlockNumber,
    fuel: nat,
) -> Option<Byte32>
    decreases fuel,
{
    if fuel == 0 {
        None
    } else {
        match lookup_header(pending, store, hash@) {
            None => None,
            Some(header) => if header.number == number {
                Some(header.hash)
            } else if store.spec_hash_at(header.number).is_some() && store.spec_hash_at(
                header.number,
            ).unwrap()@ == hash@ {
                store.spec_hash_at(number)
            } else {
                chain_hash_at(pending, store, header.parent_hash, number, (fuel - 1) as nat)
            },
        }
    }
}

/// The chain as the header of a compact block sees it: the pending
/// headers that lead from the main chain to the block, and the main chain
/// below them.
pub struct CompactBlockMedianTimeView<'a> {
    pub anchor_hash: &'a Byte32,
    pub pending: &'a Vec<Header>,
    pub store: &'a ChainStore,
    pub consensus: &'a Consensus,
}

impl<'a> CompactBlockMedianTimeView<'a> {
    /// The header with hash `hash`, pending or stored.
    pub fn get_header(&self, hash: &Byte32) -> (r: Option<Header>)
        ensures
            r == lookup_header(self.pending@, *self.store, hash@),
    {
        find_any_header(self.pending, self.store, hash)
    }

    /// The number of blocks whose timestamps give the median time.
    pub fn median_block_count(&self) -> (r: u64)
        ensures
            r == self.consensus.median_time_block_count,
    {
        self.consensus.median_time_block_count()
    }

    /// Timestamp and parent hash of a known block.
    pub fn timestamp_and_parent(&self, block_hash: &Byte32) -> (r: (u64, Byte32))
        requires
            lookup_header(self.pending@, *self.store, block_hash@).is_some(),
        ensures
            r.0 == lookup_header(self.pending@, *self.store, block_hash@).unwrap().timestamp,
            r.1 == lookup_header(self.pending@, *self.store, block_hash@).unwrap().parent_hash,
    {
        match self.get_header(block_hash) {
            Some(header) => (header.timestamp, header.parent_hash),
            None => (0, Byte32::zero()),
        }
    }

    /// The most headers that a walk back from the anchor can pass.
    pub open spec fn spec_fuel(&self) -> nat {
        (self.pending@.len() + self.store.blocks@.len() + 1) as nat
    }

    /// The hash at height `block_number` on the chain of the anchor.
    pub fn get_block_hash(&self, block_number: BlockNumber) -> (r: Option<Byte32>)
        requires
            self.pending@.len() + self.store.blocks@.len() < usize::MAX,
        ensures
            r == chain_hash_at(
                self.pending@,
                *self.store,
                *self.anchor_hash,
                block_number,
                self.spec_fuel(),
            ),
    {
        let mut hash: Byte32 = *self.anchor_hash;
        let mut fuel: usize = self.pending.len() + self.store.blocks.len() + 1;
        while fuel > 0
            invariant
                chain_hash_at(
                    self.pending@,
                    *self.store,
                    *self.anchor_hash,
                    block_number,
                    self.spec_fuel(),
                ) == chain_hash_at(self.pending@, *self.store, hash, block_number, fuel as nat),
            decreases fuel,
        {
            let header = match self.get_header(&hash) {
                Some(h) => h,
                None => {
                    return None;
                },
            };
            if header.number == block_number {
                return Some(header.hash);
            }
            match self.store.get_block_hash(header.number) {
                Some(on_chain) => {
                    if on_chain.same(&hash) {
                        return self.store.get_block_hash(block_number);
                    }
                },
                None => {},
            }
            hash = header.parent_hash;
            fuel -= 1;
        }
        None
    }
}

} // verus!
