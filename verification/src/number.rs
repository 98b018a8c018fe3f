//! Conversions into the number types of the metrics.

use vstd::prelude::*;
use crate::private::Sealed;

verus! {

/// Two to the power of sixty-four.
pub open spec fn two_pow_64() -> int {
    0x1_0000_0000_0000_0000
}

/// Conversion of a value into the number type `T` of a metric, so that a
/// length or a small integer can be handed to a metric as it is.
///
/// A number converts to its own type unchanged. An integer converts to a wider
/// type of the same sign unchanged, and to a type of the other sign as `as`
/// does: a negative number comes out `2^64` higher.
pub trait IntoAtomic<T>: Sealed + Sized {
    /// The value that `into_atomic` gives.
    open spec fn converted(self) -> T {
        arbitrary()
    }

    fn into_atomic(self) -> (value: T)
        ensures
            value == self.converted(),
    ;
}

impl<T: Sealed> IntoAtomic<T> for T {
    open spec fn converted(self) -> T {
        self
    }

    #[inline]
    fn into_atomic(self) -> (value: T) {
        self
    }
}

impl IntoAtomic<u64> for i32 {
    open spec fn converted(self) -> u64 {
        if self >= 0 {
            self as u64
        } else {
            (self + two_pow_64()) as u64
        }
    }

    #[inline]
    fn into_atomic(self) -> (value: u64) {
        let value = #[verifier::truncate]
        (self as u64);
        assert(value == if self >= 0 {
            self as u64
        } else {
            (self + 0x1_0000_0000_0000_0000) as u64
        }) by (bit_vector)
            requires
                value == self as u64,
        ;
        value
    }
}

impl IntoAtomic<u64> for u32 {
    open spec fn converted(self) -> u64 {
        self as u64
    }

    #[inline]
    fn into_atomic(self) -> (value: u64) {
        self as u64
    }
}

impl IntoAtomic<u64> for usize {
    open spec fn converted(self) -> u64 {
        self as u64
    }

    #[inline]
    fn into_atomic(self) -> (value: u64) {
        self as u64
    }
}

impl IntoAtomic<i64> for i32 {
    open spec fn converted(self) -> i64 {
        self as i64
    }

    #[inline]
    fn into_atomic(self) -> (value: i64) {
        self as i64
    }
}

impl IntoAtomic<i64> for u32 {
    open spec fn converted(self) -> i64 {
        self as i64
    }

    #[inline]
    fn into_atomic(self) -> (value: i64) {
        self as i64
    }
}

impl IntoAtomic<i64> for usize {
    open spec fn converted(self) -> i64 {
        if self <= i64::MAX {
            self as i64
        } else {
            (self - two_pow_64()) as i64
        }
    }

    #[inline]
    fn into_atomic(self) -> (value: i64) {
        let wide: u64 = self as u64;
        let value = #[verifier::truncate]
        (wide as i64);
        assert(value == if wide <= 0x7FFF_FFFF_FFFF_FFFFu64 {
            wide as i64
        } else {
            (wide - 0x1_0000_0000_0000_0000) as i64
        }) by (bit_vector)
            requires
                value == wide as i64,
        ;
        value
    }
}

} // verus!
