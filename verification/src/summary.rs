//! Summaries of observations and the providers that compute them.

pub mod traits;
pub mod simple;
pub mod rolling;
pub mod batching;
pub mod shared;
pub mod labels;
pub mod generic;
