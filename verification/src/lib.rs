//! Metrics for many producers: the rules behind counters, gauges, histograms
//! and, above all, summaries of observations.
//!
//! A summary records numeric observations and answers with their count, their
//! sum and estimates of their quantiles. The estimators themselves are
//! providers that the caller brings (`summary::traits`). This library holds
//! what stands around them and is proved here:
//!
//! - `summary::batching`: the batching layer that collects observations and
//!   drains them into a provider batch by batch, with the proof that no
//!   observation is lost or counted twice;
//! - `summary::shared`: the same layer under many producers at once, as steps
//!   that interleave freely, with the same proof;
//! - `swap_cell`: the ownership protocol of the cell that the batch lives in;
//! - `summary::rolling`: the options and the snapshot of the rolling window;
//! - `summary::generic` and `summary::labels`: what a summary metric exports,
//!   and its label pairs;
//! - `exporter`, `registration`, `wiring`, `number`: the settings of the HTTP
//!   exporter, the registration of a metric, the wiring of the fields of a
//!   metrics struct, and the conversions into the number types of the metrics.
//!
//! An observation is a `sample::Sample`: a binary64 number held as its bit
//! pattern. The library stores samples and hands them on; it never computes
//! with them.

mod private;
pub mod number;
pub mod sample;
pub mod config;
pub mod swap_cell;
pub mod summary;
pub mod exporter;
pub mod registration;
pub mod wiring;
