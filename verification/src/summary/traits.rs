//! The capabilities that every estimator offers.
//!
//! An estimator is a provider: it takes observations and gives summaries. The
//! plain estimators, the rolling one and the batching layer all offer the same
//! capabilities, so that one can stand for another and one can wrap another.
//!
//! Each trait names, as spec functions, what an implementation stands for: the
//! samples that a provider has kept, the count and the estimates of a summary.
//! The `ensures` clauses say how the methods move these. They are what an
//! implementation promises, and the library's proofs hold of the
//! implementations that keep the promise. An implementation outside this
//! library has no need to define the spec functions.

use vstd::prelude::*;
use crate::sample::Sample;
use crate::config::ConfigError;

verus! {

/// A read-only view of the observations at one point in time.
///
/// A summary never changes after it is made: asked twice, it answers the same.
pub trait Summary {
    /// The number of samples that the summary covers.
    open spec fn count(&self) -> nat {
        arbitrary()
    }

    /// The sum of the samples that the summary covers.
    open spec fn sum(&self) -> Sample {
        arbitrary()
    }

    /// The estimate that the summary gives at a quantile rank.
    open spec fn quantile_at(&self, rank: Sample) -> Option<Sample> {
        arbitrary()
    }

    /// The sum of all the samples in the summary.
    fn sample_sum(&self) -> (sum: Sample)
        ensures
            sum == self.sum(),
    ;

    /// The number of samples in the summary.
    fn sample_count(&self) -> (n: u64)
        ensures
            n == self.count(),
    ;

    /// The estimated value at the given quantile rank, if there is one.
    ///
    /// There is none for a rank outside zero to one, nor without samples.
    fn quantile(&self, rank: Sample) -> (value: Option<Sample>)
        ensures
            value == self.quantile_at(rank),
            !rank.is_rank() ==> value is None,
            self.count() == 0 ==> value is None,
    ;
}

/// An estimator that one owner feeds and reads.
pub trait NonConcurrentSummaryProvider: Sized {
    type Opts;

    type Summary: Summary;

    /// Why the options cannot build a provider, if they cannot.
    open spec fn rejection(opts: &Self::Opts) -> Option<ConfigError> {
        arbitrary()
    }

    /// Whether the provider keeps a sample that it is given. An estimator may
    /// pass over some samples, as a sketch passes over what is not finite; what
    /// it passes over is not counted.
    open spec fn records(sample: Sample) -> bool {
        arbitrary()
    }

    /// The samples that the provider has kept since it was built, oldest first.
    open spec fn recorded(&self) -> Seq<Sample> {
        arbitrary()
    }

    /// Create a new instance of the given provider.
    fn new_provider(opts: &Self::Opts) -> (built: Result<Self, ConfigError>)
        ensures
            match built {
                Ok(provider) => Self::rejection(opts) is None && provider.recorded()
                    == Seq::<Sample>::empty(),
                Err(e) => Self::rejection(opts) == Some(e),
            },
    ;

    /// Add a new data point to the provider's collection.
    fn observe(&mut self, sample: Sample)
        ensures
            final(self).recorded() == if Self::records(sample) {
                old(self).recorded().push(sample)
            } else {
                old(self).recorded()
            },
    ;

    /// The current summary computed over the observations. It counts every
    /// sample that the provider has kept; which of them count for its
    /// quantiles is the provider's own matter.
    fn snapshot(&mut self) -> (summary: Self::Summary)
        ensures
            final(self).recorded() == old(self).recorded(),
            summary.count() == old(self).recorded().len(),
    ;
}

/// A provider that can back a metric: it can be sent, shared and copied.
pub trait SummaryMetric: NonConcurrentSummaryProvider + Send + Sync + Clone {}

impl<T: NonConcurrentSummaryProvider + Send + Sync + Clone> SummaryMetric for T {}

} // verus!
