//! Protocol constants and the epoch schedule.

use vstd::prelude::*;
use crate::primitives::Byte32;
use crate::primitives::Capacity;
use crate::primitives::Ratio;
use crate::types::BlockNumber;
use crate::types::EpochNumber;
use crate::types::Header;

verus! {

/// How long before its commitment a transaction must have been proposed:
/// at least `closest` and at most `farthest` blocks earlier.
#[derive(Clone, Copy, Debug, PartialEq, Eq, Structural)]
pub struct ProposalWindow {
    pub closest: BlockNumber,
    pub farthest: BlockNumber,
}

impl ProposalWindow {
    /// The smallest distance between a proposal and its commitment.
    pub fn closest(&self) -> (r: BlockNumber)
        ensures
            r == self.closest,
    {
        self.closest
    }

    /// The largest distance between a proposal and its commitment.
    pub fn farthest(&self) -> (r: BlockNumber)
        ensures
            r == self.farthest,
    {
        self.farthest
    }
}

/// The proposal window of a chain that sets none of its own.
pub const DEFAULT_TX_PROPOSAL_WINDOW: (BlockNumber, BlockNumber) = (2, 10);

/// An epoch: a run of `length` blocks from `start_number` on, with the
/// rewards that are spread over them.
#[derive(Clone, Copy, Debug, PartialEq, Eq, Structural)]
pub struct EpochExt {
    pub number: EpochNumber,
    pub length: BlockNumber,
    pub start_number: BlockNumber,
    pub primary_reward: Capacity,
    pub secondary_reward: Capacity,
    pub difficulty: u64,
}

/// The share of an epoch reward that goes to the block at `offset` within
/// an epoch of `length` blocks: the quotient, and one more shannon for as
/// many leading blocks as the remainder counts.
pub open spec fn block_share(reward: u64, length: u64, offset: u64) -> int {
    if (offset as int) < (reward as int) % (length as int) {
        (reward as int) / (length as int) + 1
    } else {
        (reward as int) / (length as int)
    }
}

fn share_of(reward: u64, length: u64, offset: u64) -> (r: u64)
    requires
        length > 0,
    ensures
        r == block_share(reward, length, offset),
{
    let q = reward / length;
    let m = reward % length;
    if offset < m {
        assert(q < u64::MAX) by {
            assert(m > 0);
            assert(reward as int == (length as int) * (q as int) + (m as int)) by (nonlinear_arith)
                requires
                    q == reward / length,
                    m == reward % length,
                    length > 0,
            ;
            assert((length as int) * (q as int) >= q as int) by (nonlinear_arith)
                requires
                    length >= 1,
                    q >= 0,
            ;
        }
        q + 1
    } else {
        q
    }
}

impl EpochExt {
    /// An epoch with at least one block that ends within 64-bit numbers.
    pub open spec fn wf(&self) -> bool {
        self.length > 0 && self.start_number + self.length <= u64::MAX
    }

    /// Whether block `number` belongs to the epoch.
    pub open spec fn spec_contains(&self, number: BlockNumber) -> bool {
        self.start_number <= number < self.start_number + self.length
    }

    /// Whether the block numbered `number` lies in this epoch.
    #[verifier::when_used_as_spec(spec_contains)]
    pub fn contains(&self, number: BlockNumber) -> (r: bool)
        requires
            self.wf(),
        ensures
            r == self.spec_contains(number),
    {
        self.start_number <= number && number - self.start_number < self.length
    }

    /// The primary issuance of block `number`, over the integers.
    pub open spec fn spec_primary(&self, number: BlockNumber) -> int {
        block_share(
            self.primary_reward.shannons,
            self.length,
            (number - self.start_number) as u64,
        )
    }

    /// The secondary issuance of block `number`, over the integers.
    pub open spec fn spec_secondary(&self, number: BlockNumber) -> int {
        block_share(
            self.secondary_reward.shannons,
            self.length,
            (number - self.start_number) as u64,
        )
    }

    /// The primary issuance of block `number` of this epoch.
    pub fn block_reward(&self, number: BlockNumber) -> (r: Capacity)
        requires
            self.wf(),
            self.spec_contains(number),
        ensures
            r.shannons == self.spec_primary(number),
    {
        Capacity {
            shannons: share_of(
                self.primary_reward.shannons,
                self.length,
                number - self.start_number,
            ),
        }
    }

    /// The secondary issuance of block `number` of this epoch.
    pub fn secondary_block_issuance(&self, number: BlockNumber) -> (r: Capacity)
        requires
            self.wf(),
            self.spec_contains(number),
        ensures
            r.shannons == self.spec_secondary(number),
    {
        Capacity {
            shannons: share_of(
                self.secondary_reward.shannons,
                self.length,
                number - self.start_number,
            ),
        }
    }
}

/// An epoch number with the position of a block inside the epoch, packed
/// into the lower 56 bits of a 64-bit value: the number in bits 0 to 23,
/// the index in bits 24 to 39 and the length in bits 40 to 55.
#[derive(Clone, Copy, Debug, PartialEq, Eq, Structural)]
pub struct EpochNumberWithFraction {
    pub number: u64,
    pub index: u64,
    pub length: u64,
}

/// The bits of a packed epoch that hold its number.
pub const EPOCH_NUMBER_MASK: u64 = 0xff_ffff;

/// The bits of a packed epoch that hold an index or a length.
pub const EPOCH_INDEX_MASK: u64 = 0xffff;

impl EpochNumberWithFraction {
    /// Each part fits the bits it is packed into.
    pub open spec fn wf(&self) -> bool {
        self.number <= 0xff_ffff && self.index <= 0xffff && self.length <= 0xffff
    }

    /// The point `index / length` of the epoch `number`.
    pub fn new(number: u64, index: u64, length: u64) -> (r: EpochNumberWithFraction)
        ensures
            r.number == number,
            r.index == index,
            r.length == length,
    {
        EpochNumberWithFraction { number, index, length }
    }

    /// The epoch's number.
    pub fn number(&self) -> (r: u64)
        ensures
            r == self.number,
    {
        self.number
    }

    /// The block's index in the epoch.
    pub fn index(&self) -> (r: u64)
        ensures
            r == self.index,
    {
        self.index
    }

    /// The epoch's length in blocks.
    pub fn length(&self) -> (r: u64)
        ensures
            r == self.length,
    {
        self.length
    }

    /// The packed value.
    pub open spec fn spec_full_value(&self) -> u64 {
        (self.length << 40) | (self.index << 24) | self.number
    }

    /// The point packed into one integer: the length above the index above the
    /// number.
    #[verifier::when_used_as_spec(spec_full_value)]
    pub fn full_value(&self) -> (r: u64)
        ensures
            r == self.spec_full_value(),
    {
        (self.length << 40) | (self.index << 24) | self.number
    }

    /// The parts of a packed value.
    pub open spec fn spec_from_full_value(value: u64) -> EpochNumberWithFraction {
        EpochNumberWithFraction {
            number: value & 0xff_ffff,
            index: (value >> 24) & 0xffff,
            length: (value >> 40) & 0xffff,
        }
    }

    /// The point that `value` packs.
    #[verifier::when_used_as_spec(spec_from_full_value)]
    pub fn from_full_value(value: u64) -> (r: EpochNumberWithFraction)
        ensures
            r == Self::spec_from_full_value(value),
            r.wf(),
    {
        assert(value & 0xff_ffff <= 0xff_ffff) by (bit_vector);
        assert((value >> 24) & 0xffff <= 0xffff) by (bit_vector);
        assert((value >> 40) & 0xffff <= 0xffff) by (bit_vector);
        EpochNumberWithFraction {
            number: value & 0xff_ffff,
            index: (value >> 24) & 0xffff,
            length: (value >> 40) & 0xffff,
        }
    }

    /// Whether this point lies at or after `other`: a later epoch, or the
    /// same epoch and a fraction that is not smaller.
    pub open spec fn spec_reached(&self, other: &EpochNumberWithFraction) -> bool {
        self.number > other.number || (self.number == other.number && self.index * other.length
            >= other.index * self.length)
    }

    /// Whether this point lies at or after `other`.
    #[verifier::when_used_as_spec(spec_reached)]
    pub fn reached(&self, other: &EpochNumberWithFraction) -> (r: bool)
        requires
            self.wf(),
            other.wf(),
        ensures
            r == self.spec_reached(other),
    {
        if self.number != other.number {
            return self.number > other.number;
        }
        assert(self.index * other.length <= 0xffff * 0xffff) by (nonlinear_arith)
            requires
                self.index <= 0xffff,
                other.length <= 0xffff,
        ;
        assert(other.index * self.length <= 0xffff * 0xffff) by (nonlinear_arith)
            requires
                other.index <= 0xffff,
                self.length <= 0xffff,
        ;
        self.index * other.length >= other.index * self.length
    }
}

/// Unpacking a packed point gives the point back.
pub proof fn lemma_epoch_fraction_round_trip(point: EpochNumberWithFraction)
    requires
        point.wf(),
    ensures
        EpochNumberWithFraction::spec_from_full_value(point.spec_full_value()) == point,
        point.spec_full_value() < 0x100_0000_0000_0000,
{
    let n = point.number;
    let i = point.index;
    let l = point.length;
    assert(((l << 40) | (i << 24) | n) & 0xff_ffff == n) by (bit_vector)
        requires
            n <= 0xff_ffff,
            i <= 0xffff,
            l <= 0xffff,
    ;
    assert((((l << 40) | (i << 24) | n) >> 24) & 0xffff == i) by (bit_vector)
        requires
            n <= 0xff_ffff,
            i <= 0xffff,
            l <= 0xffff,
    ;
    assert((((l << 40) | (i << 24) | n) >> 40) & 0xffff == l) by (bit_vector)
        requires
            n <= 0xff_ffff,
            i <= 0xffff,
            l <= 0xffff,
    ;
    assert(((l << 40) | (i << 24) | n) < 0x100_0000_0000_0000) by (bit_vector)
        requires
            n <= 0xff_ffff,
            i <= 0xffff,
            l <= 0xffff,
    ;
}

/// The constants of a chain.
#[derive(Clone, Debug, PartialEq, Eq)]
pub struct Consensus {
    pub tx_proposal_window: ProposalWindow,
    pub cellbase_maturity: BlockNumber,
    pub median_time_block_count: u64,
    pub max_block_cycles: u64,
    pub max_uncles_num: u64,
    pub max_block_bytes: u64,
    pub max_block_proposals_limit: u64,
    /// How far beyond the local clock a header's timestamp may lie, in
    /// milliseconds.
    pub allowed_future_time: u64,
    pub genesis_epoch_ext: EpochExt,
    pub dao_type_hash: Option<Byte32>,
    pub satoshi_pubkey_hash: Vec<u8>,
    pub satoshi_cell_occupied_ratio: Ratio,
}

impl Consensus {
    /// The window in which a proposal may be committed.
    pub fn tx_proposal_window(&self) -> (r: ProposalWindow)
        ensures
            r == self.tx_proposal_window,
    {
        self.tx_proposal_window
    }

    /// The number of blocks a cellbase output waits before it can be spent.
    pub fn cellbase_maturity(&self) -> (r: BlockNumber)
        ensures
            r == self.cellbase_maturity,
    {
        self.cellbase_maturity
    }

    /// The number of blocks whose timestamps give the median time.
    pub fn median_time_block_count(&self) -> (r: u64)
        ensures
            r == self.median_time_block_count,
    {
        self.median_time_block_count
    }

    /// The most cycles the scripts of one block may use.
    pub fn max_block_cycles(&self) -> (r: u64)
        ensures
            r == self.max_block_cycles,
    {
        self.max_block_cycles
    }

    /// The epoch of the genesis block.
    pub fn genesis_epoch_ext(&self) -> (r: EpochExt)
        ensures
            r == self.genesis_epoch_ext,
    {
        self.genesis_epoch_ext
    }
}

} // verus!
