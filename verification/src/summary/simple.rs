//! Options of the plain streaming estimator.

use vstd::prelude::*;
use crate::sample::Sample;

verus! {

/// Bit pattern of the default relative error, one ten-thousandth.
pub const DEFAULT_ALPHA_BITS: u64 = 0x3F1A_36E2_EB1C_432D;

/// The default limit on the number of buckets of the sketch.
pub const DEFAULT_MAX_BUCKETS: u32 = 32_768;

/// Bit pattern of the default smallest value told apart from zero, one billionth.
pub const DEFAULT_MIN_VALUE_BITS: u64 = 0x3E11_2E0B_E826_D695;

/// Configuration of the plain streaming estimator.
#[derive(Clone, Copy, Debug)]
pub struct SimpleSummaryOpts {
    /// The relative error that the sketch aims for.
    pub alpha: Sample,
    /// The limit on the number of buckets, and so on the memory of the sketch.
    pub max_buckets: u32,
    /// The smallest value that is told apart from zero.
    pub min_value: Sample,
}

impl Default for SimpleSummaryOpts {
    fn default() -> (opts: Self)
        ensures
            opts.alpha@ == DEFAULT_ALPHA_BITS,
            opts.max_buckets == DEFAULT_MAX_BUCKETS,
            opts.min_value@ == DEFAULT_MIN_VALUE_BITS,
    {
        Self {
            alpha: Sample::from_bits(DEFAULT_ALPHA_BITS),
            max_buckets: DEFAULT_MAX_BUCKETS,
            min_value: Sample::from_bits(DEFAULT_MIN_VALUE_BITS),
        }
    }
}

} // verus!
