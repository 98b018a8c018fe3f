//! The seal on the number types of the metrics.

use vstd::prelude::*;

verus! {

/// Implemented by the number types that metric values are made of, and by no
/// other: code outside this library cannot name the trait.
pub trait Sealed {

}

impl Sealed for u64 {

}

impl Sealed for i64 {

}

impl Sealed for i32 {

}

impl Sealed for u32 {

}

impl Sealed for usize {

}

} // verus!
