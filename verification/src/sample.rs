//! Observations as plain values.

use vstd::prelude::*;

verus! {

/// Bit pattern of the binary64 number one.
pub const ONE_BITS: u64 = 0x3FF0_0000_0000_0000;

/// Bit pattern of the binary64 negative zero.
pub const NEGATIVE_ZERO_BITS: u64 = 0x8000_0000_0000_0000;

/// One observation, or one quantile rank.
///
/// The value is an IEEE 754 binary64 number, held as its 64-bit pattern so that
/// it can be stored, compared for identity and handed on without arithmetic.
#[derive(Clone, Copy, Debug, PartialEq, Eq, Structural)]
pub struct Sample {
    /// The bit pattern of the number.
    pub bits: u64,
}

impl View for Sample {
    type V = u64;

    open spec fn view(&self) -> u64 {
        self.bits
    }
}

/// Whether the binary64 number with the given bit pattern lies in the closed
/// interval from zero to one.
///
/// The non-negative numbers up to one are exactly the patterns up to `ONE_BITS`,
/// because the order of non-negative binary64 numbers is the order of their
/// patterns; negative zero compares equal to zero. Every NaN and every other
/// negative number is outside.
pub open spec fn is_rank_bits(bits: u64) -> bool {
    bits <= ONE_BITS || bits == NEGATIVE_ZERO_BITS
}

impl Sample {
    /// The sample with the given bit pattern.
    pub open spec fn from_bits_spec(bits: u64) -> Sample {
        Sample { bits }
    }

    /// The sample with the given bit pattern.
    #[verifier::when_used_as_spec(from_bits_spec)]
    pub fn from_bits(bits: u64) -> (s: Sample)
        ensures
            s == Sample::from_bits_spec(bits),
            s@ == bits,
    {
        Sample { bits }
    }

    /// The bit pattern of the sample.
    pub fn to_bits(&self) -> (bits: u64)
        ensures
            bits == self@,
    {
        self.bits
    }

    /// Whether the sample can serve as a quantile rank.
    pub open spec fn is_rank(&self) -> bool {
        is_rank_bits(self@)
    }

    /// Whether the sample lies between zero and one, both included.
    pub fn in_unit_interval(&self) -> (b: bool)
        ensures
            b == self.is_rank(),
    {
        self.bits <= ONE_BITS || self.bits == NEGATIVE_ZERO_BITS
    }
}

} // verus!
