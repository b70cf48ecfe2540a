//! The `since` field of an input: a 64-bit constraint on when the input
//! may be spent.
//!
//! Bit 63 tells a relative constraint from an absolute one, bits 62 and 61
//! name the metric, and bits 60 to 0 hold the value.

use vstd::prelude::*;
use crate::types::BlockNumber;
use crate::types::EpochNumber;

verus! {

/// Set where the value is relative to the spent cell's block.
pub const FLAG_SINCE_RELATIVE: u64 = 0x8000_0000_0000_0000;

/// The metric flag of a block number.
pub const FLAG_SINCE_BLOCK_NUMBER: u64 = 0x0000_0000_0000_0000;

/// The metric flag of an epoch number.
pub const FLAG_SINCE_EPOCH_NUMBER: u64 = 0x2000_0000_0000_0000;

/// The metric flag of a timestamp.
pub const FLAG_SINCE_TIMESTAMP: u64 = 0x4000_0000_0000_0000;

/// Bits 62 and 61.
pub const SINCE_METRIC_MASK: u64 = 0x6000_0000_0000_0000;

/// Bits 60 to 0.
pub const SINCE_VALUE_MASK: u64 = 0x1fff_ffff_ffff_ffff;

/// What a `since` value is measured in, with the value.
#[derive(Clone, Copy, Debug, PartialEq, Eq, Structural)]
pub enum SinceMetric {
    BlockNumber(u64),
    EpochNumber(u64),
    /// Seconds.
    Timestamp(u64),
}

/// A `since` field.
#[derive(Clone, Copy, Debug, PartialEq, Eq, Structural)]
pub struct Since(pub u64);

impl Since {
    /// Whether the value is relative to the spent cell's block.
    pub open spec fn spec_is_relative(&self) -> bool {
        self.0 & 0x8000_0000_0000_0000 != 0
    }

    /// Whether the constraint counts from the block of the spent cell.
    #[verifier::when_used_as_spec(spec_is_relative)]
    pub fn is_relative(&self) -> (r: bool)
        ensures
            r == self.spec_is_relative(),
    {
        self.0 & FLAG_SINCE_RELATIVE != 0
    }

    /// Whether the value is absolute.
    pub open spec fn spec_is_absolute(&self) -> bool {
        !self.spec_is_relative()
    }

    /// Whether the constraint counts from the start of the chain.
    #[verifier::when_used_as_spec(spec_is_absolute)]
    pub fn is_absolute(&self) -> (r: bool)
        ensures
            r == self.spec_is_absolute(),
    {
        !self.is_relative()
    }

    /// The value: bits 60 to 0.
    pub open spec fn spec_value(&self) -> u64 {
        self.0 & 0x1fff_ffff_ffff_ffff
    }

    /// The metric and value, or `None` where bits 62 and 61 are both set.
    pub open spec fn spec_metric(&self) -> Option<SinceMetric> {
        let flag = self.0 & 0x6000_0000_0000_0000;
        if flag == 0 {
            Some(SinceMetric::BlockNumber(self.spec_value()))
        } else if flag == 0x2000_0000_0000_0000 {
            Some(SinceMetric::EpochNumber(self.spec_value()))
        } else if flag == 0x4000_0000_0000_0000 {
            Some(SinceMetric::Timestamp(self.spec_value()))
        } else {
            None
        }
    }

    /// The metric and its value, or `None` where the flags name no metric.
    #[verifier::when_used_as_spec(spec_metric)]
    pub fn extract_metric(&self) -> (r: Option<SinceMetric>)
        ensures
            r == self.spec_metric(),
    {
        let value = self.0 & SINCE_VALUE_MASK;
        let flag = self.0 & SINCE_METRIC_MASK;
        if flag == FLAG_SINCE_BLOCK_NUMBER {
            Some(SinceMetric::BlockNumber(value))
        } else if flag == FLAG_SINCE_EPOCH_NUMBER {
            Some(SinceMetric::EpochNumber(value))
        } else if flag == FLAG_SINCE_TIMESTAMP {
            Some(SinceMetric::Timestamp(value))
        } else {
            None
        }
    }
}

/// A `since` that asks for `block_number` blocks after the spent cell's block.
pub fn since_from_relative_block_number(block_number: BlockNumber) -> (r: u64)
    ensures
        r == 0x8000_0000_0000_0000 | block_number,
{
    assert(0x8000_0000_0000_0000u64 | 0u64 | block_number == 0x8000_0000_0000_0000u64
        | block_number) by (bit_vector);
    FLAG_SINCE_RELATIVE | FLAG_SINCE_BLOCK_NUMBER | block_number
}

/// A `since` that asks for the block numbered `block_number`.
pub fn since_from_absolute_block_number(block_number: BlockNumber) -> (r: u64)
    ensures
        r == block_number,
{
    assert(0u64 | block_number == block_number) by (bit_vector);
    FLAG_SINCE_BLOCK_NUMBER | block_number
}

/// A `since` that asks for `epoch_number` epochs after the spent cell's epoch.
pub fn since_from_relative_epoch_number(epoch_number: EpochNumber) -> (r: u64)
    ensures
        r == 0xa000_0000_0000_0000 | epoch_number,
{
    assert(0x8000_0000_0000_0000u64 | 0x2000_0000_0000_0000u64 | epoch_number
        == 0xa000_0000_0000_0000u64 | epoch_number) by (bit_vector);
    FLAG_SINCE_RELATIVE | FLAG_SINCE_EPOCH_NUMBER | epoch_number
}

/// A `since` that asks for the epoch numbered `epoch_number`.
pub fn since_from_absolute_epoch_number(epoch_number: EpochNumber) -> (r: u64)
    ensures
        r == 0x2000_0000_0000_0000 | epoch_number,
{
    FLAG_SINCE_EPOCH_NUMBER | epoch_number
}

/// A `since` that asks for `timestamp` seconds after the spent cell's median
/// time.
pub fn since_from_relative_timestamp(timestamp: u64) -> (r: u64)
    ensures
        r == 0xc000_0000_0000_0000 | timestamp,
{
    assert(0x8000_0000_0000_0000u64 | 0x4000_0000_0000_0000u64 | timestamp
        == 0xc000_0000_0000_0000u64 | timestamp) by (bit_vector);
    FLAG_SINCE_RELATIVE | FLAG_SINCE_TIMESTAMP | timestamp
}

/// A `since` that asks for the median time `timestamp`, in seconds.
pub fn since_from_absolute_timestamp(timestamp: u64) -> (r: u64)
    ensures
        r == 0x4000_0000_0000_0000 | timestamp,
{
    FLAG_SINCE_TIMESTAMP | timestamp
}

/// A value of at most 61 bits, combined with the flags of a metric and of
/// relativity, is read back as that metric, relativity and value.
pub proof fn lemma_since_round_trip(value: u64)
    requires
        value <= SINCE_VALUE_MASK,
    ensures
        Since(value).spec_is_absolute(),
        Since(value).spec_metric() == Some(SinceMetric::BlockNumber(value)),
        Since(0x8000_0000_0000_0000 | value).spec_is_relative(),
        Since(0x8000_0000_0000_0000 | value).spec_metric() == Some(
            SinceMetric::BlockNumber(value),
        ),
        Since(0x2000_0000_0000_0000 | value).spec_is_absolute(),
        Since(0x2000_0000_0000_0000 | value).spec_metric() == Some(
            SinceMetric::EpochNumber(value),
        ),
        Since(0xa000_0000_0000_0000 | value).spec_is_relative(),
        Since(0xa000_0000_0000_0000 | value).spec_metric() == Some(
            SinceMetric::EpochNumber(value),
        ),
        Since(0x4000_0000_0000_0000 | value).spec_is_absolute(),
        Since(0x4000_0000_0000_0000 | value).spec_metric() == Some(SinceMetric::Timestamp(value)),
        Since(0xc000_0000_0000_0000 | value).spec_is_relative(),
        Since(0xc000_0000_0000_0000 | value).spec_metric() == Some(SinceMetric::Timestamp(value)),
{
    assert(value & 0x8000_0000_0000_0000 == 0 && value & 0x6000_0000_0000_0000 == 0 && value
        & 0x1fff_ffff_ffff_ffff == value) by (bit_vector)
        requires
            value <= 0x1fff_ffff_ffff_ffff,
    ;
    assert((0x8000_0000_0000_0000 | value) & 0x8000_0000_0000_0000 != 0 && (0x8000_0000_0000_0000
        | value) & 0x6000_0000_0000_0000 == 0 && (0x8000_0000_0000_0000 | value)
        & 0x1fff_ffff_ffff_ffff == value) by (bit_vector)
        requires
            value <= 0x1fff_ffff_ffff_ffff,
    ;
    assert((0x2000_0000_0000_0000 | value) & 0x8000_0000_0000_0000 == 0 && (0x2000_0000_0000_0000
        | value) & 0x6000_0000_0000_0000 == 0x2000_0000_0000_0000 && (0x2000_0000_0000_0000
        | value) & 0x1fff_ffff_ffff_ffff == value) by (bit_vector)
        requires
            value <= 0x1fff_ffff_ffff_ffff,
    ;
    assert((0xa000_0000_0000_0000 | value) & 0x8000_0000_0000_0000 != 0 && (0xa000_0000_0000_0000
        | value) & 0x6000_0000_0000_0000 == 0x2000_0000_0000_0000 && (0xa000_0000_0000_0000
        | value) & 0x1fff_ffff_ffff_ffff == value) by (bit_vector)
        requires
            value <= 0x1fff_ffff_ffff_ffff,
    ;
    assert((0x4000_0000_0000_0000 | value) & 0x8000_0000_0000_0000 == 0 && (0x4000_0000_0000_0000
        | value) & 0x6000_0000_0000_0000 == 0x4000_0000_0000_0000 && (0x4000_0000_0000_0000
        | value) & 0x1fff_ffff_ffff_ffff == value) by (bit_vector)
        requires
            value <= 0x1fff_ffff_ffff_ffff,
    ;
    assert((0xc000_0000_0000_0000 | value) & 0x8000_0000_0000_0000 != 0 && (0xc000_0000_0000_0000
        | value) & 0x6000_0000_0000_0000 == 0x4000_0000_0000_0000 && (0xc000_0000_0000_0000
        | value) & 0x1fff_ffff_ffff_ffff == value) by (bit_vector)
        requires
            value <= 0x1fff_ffff_ffff_ffff,
    ;
}

} // verus!
