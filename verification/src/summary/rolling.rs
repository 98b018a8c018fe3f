//! The rolling window: its options, and the snapshot it gives.
//!
//! A rolling estimator answers quantiles from recent observations only, while
//! its count and its sum go on over its whole life. Its window is made of
//! buckets of equal duration; a bucket is dropped once it is older than the
//! window, which is the bucket duration times the bucket count.

use vstd::prelude::*;
use crate::config::ConfigError;
use crate::sample::Sample;
use crate::summary::traits::Summary;

verus! {

/// The number of nanoseconds in a second.
pub const NANOS_PER_SEC: u32 = 1_000_000_000;

/// The default duration of a bucket, in seconds.
pub const DEFAULT_SUMMARY_BUCKET_SECS: u64 = 20;

/// The default number of buckets.
pub const DEFAULT_SUMMARY_BUCKET_COUNT: u32 = 3;

/// A span of time: whole seconds and the nanoseconds of the second begun.
#[derive(Clone, Copy, Debug, PartialEq, Eq, Structural)]
pub struct TimeSpan {
    secs: u64,
    subsec_nanos: u32,
}

impl View for TimeSpan {
    type V = nat;

    /// The span in nanoseconds.
    closed spec fn view(&self) -> nat {
        (self.secs as nat) * (NANOS_PER_SEC as nat) + (self.subsec_nanos as nat)
    }
}

/// The longest span, in nanoseconds: the seconds fill 64 bits and the second
/// begun lacks one nanosecond.
pub open spec fn max_span_nanos() -> nat {
    (u64::MAX as nat) * (NANOS_PER_SEC as nat) + (NANOS_PER_SEC as nat - 1) as nat
}

impl TimeSpan {
    #[verifier::type_invariant]
    spec fn well_formed(self) -> bool {
        self.subsec_nanos < NANOS_PER_SEC
    }

    /// A span of whole seconds.
    pub fn from_secs(secs: u64) -> (span: TimeSpan)
        ensures
            span@ == secs as nat * NANOS_PER_SEC as nat,
    {
        TimeSpan { secs, subsec_nanos: 0 }
    }

    /// A span of seconds and nanoseconds, if the nanoseconds stay below one second.
    pub fn new(secs: u64, subsec_nanos: u32) -> (span: Option<TimeSpan>)
        ensures
            span is Some <==> subsec_nanos < NANOS_PER_SEC,
            span matches Some(s) ==> s@ == secs as nat * NANOS_PER_SEC as nat
                + subsec_nanos as nat,
    {
        if subsec_nanos < NANOS_PER_SEC {
            Some(TimeSpan { secs, subsec_nanos })
        } else {
            None
        }
    }

    /// The whole seconds of the span.
    pub fn secs(&self) -> (secs: u64)
        ensures
            secs as nat == self@ / (NANOS_PER_SEC as nat),
    {
        proof {
            use_type_invariant(self);
            lemma_split(self.secs as nat, self.subsec_nanos as nat);
        }
        self.secs
    }

    /// The nanoseconds of the span beyond its whole seconds.
    pub fn subsec_nanos(&self) -> (nanos: u32)
        ensures
            nanos as nat == self@ % (NANOS_PER_SEC as nat),
            nanos < NANOS_PER_SEC,
    {
        proof {
            use_type_invariant(self);
            lemma_split(self.secs as nat, self.subsec_nanos as nat);
        }
        self.subsec_nanos
    }

    /// Whether the span is empty.
    pub fn is_zero(&self) -> (zero: bool)
        ensures
            zero == (self@ == 0),
    {
        proof {
            use_type_invariant(self);
            lemma_split(self.secs as nat, self.subsec_nanos as nat);
        }
        self.secs == 0 && self.subsec_nanos == 0
    }

    /// The span taken `count` times, unless that is longer than a span can be.
    pub fn checked_mul(&self, count: u32) -> (product: Option<TimeSpan>)
        ensures
            product is Some <==> self@ * (count as nat) <= max_span_nanos(),
            product matches Some(p) ==> p@ == self@ * (count as nat),
    {
        proof {
            use_type_invariant(self);
        }
        let per_sec: u128 = NANOS_PER_SEC as u128;
        assert(self.secs as u128 * per_sec <= u64::MAX as u128 * per_sec) by (nonlinear_arith)
            requires
                self.secs <= u64::MAX,
                per_sec == 1_000_000_000,
        ;
        let nanos: u128 = self.secs as u128 * per_sec + self.subsec_nanos as u128;
        assert(nanos as nat == self@);
        assert(nanos * (count as u128) <= 18_446_744_074_709_551_615_999_999_999u128 * 4_294_967_295u128)
            by (nonlinear_arith)
            requires
                nanos <= 18_446_744_074_709_551_615_999_999_999u128,
                count <= 4_294_967_295u32,
        ;
        let total: u128 = nanos * (count as u128);
        let secs: u128 = total / per_sec;
        let rest: u128 = total % per_sec;
        if secs > u64::MAX as u128 {
            proof {
                lemma_split_bound(total as nat);
            }
            None
        } else {
            proof {
                lemma_split_bound(total as nat);
                assert(total == secs * per_sec + rest) by (nonlinear_arith)
                    requires
                        secs == total / per_sec,
                        rest == total % per_sec,
                        per_sec > 0,
                ;
            }
            Some(TimeSpan { secs: secs as u64, subsec_nanos: rest as u32 })
        }
    }
}

/// Seconds and nanoseconds are the quotient and the remainder of the nanoseconds.
proof fn lemma_split(secs: nat, nanos: nat)
    requires
        nanos < NANOS_PER_SEC,
    ensures
        (secs * (NANOS_PER_SEC as nat) + nanos) / (NANOS_PER_SEC as nat) == secs,
        (secs * (NANOS_PER_SEC as nat) + nanos) % (NANOS_PER_SEC as nat) == nanos,
        (secs * (NANOS_PER_SEC as nat) + nanos == 0) <==> (secs == 0 && nanos == 0),
{
    let d = NANOS_PER_SEC as nat;
    assert((secs * d + nanos) / d == secs && (secs * d + nanos) % d == nanos) by (nonlinear_arith)
        requires
            nanos < d,
            d == 1_000_000_000,
    ;
    assert(secs * d + nanos == 0 <==> secs == 0 && nanos == 0) by (nonlinear_arith)
        requires
            d == 1_000_000_000,
    ;
}

/// A number of nanoseconds fits a span exactly when its whole seconds fit 64 bits.
proof fn lemma_split_bound(total: nat)
    ensures
        total <= max_span_nanos() <==> total / (NANOS_PER_SEC as nat) <= u64::MAX,
{
    let d = NANOS_PER_SEC as nat;
    assert(total <= (u64::MAX as nat) * d + (d - 1) <==> total / d <= u64::MAX) by (nonlinear_arith)
        requires
            d == 1_000_000_000,
    ;
}

/// Configuration of the rolling estimator.
#[derive(Clone, Debug, PartialEq, Eq)]
pub struct RollingSummaryOpts {
    /// The quantile ranks that the estimator is asked for.
    pub quantiles: Vec<Sample>,
    /// The duration of one bucket.
    pub duration: TimeSpan,
    /// The number of buckets of the window.
    pub max_buckets_count: u32,
}

/// Why the given rolling window cannot be built, if it cannot: it has no
/// bucket, or its buckets last no time, or the whole window is longer than a
/// span can be.
pub open spec fn window_rejection(duration: TimeSpan, max_buckets_count: u32) -> Option<
    ConfigError,
> {
    if max_buckets_count == 0 {
        Some(ConfigError::ZeroBucketCount)
    } else if duration@ == 0 {
        Some(ConfigError::ZeroBucketDuration)
    } else if duration@ * (max_buckets_count as nat) > max_span_nanos() {
        Some(ConfigError::WindowTooLong)
    } else {
        None
    }
}

impl RollingSummaryOpts {
    /// The same options with other quantile ranks.
    pub fn with_quantiles(self, quantiles: Vec<Sample>) -> (opts: Self)
        ensures
            opts.quantiles == quantiles,
            opts.duration == self.duration,
            opts.max_buckets_count == self.max_buckets_count,
    {
        Self { quantiles, duration: self.duration, max_buckets_count: self.max_buckets_count }
    }

    /// Why the options cannot build a rolling estimator, if they cannot.
    pub open spec fn rejection(&self) -> Option<ConfigError> {
        window_rejection(self.duration, self.max_buckets_count)
    }

    /// The time after which an observation no longer counts for the quantiles:
    /// the bucket duration times the bucket count. Options that cannot build an
    /// estimator are turned down with the reason.
    pub fn window(&self) -> (window: Result<TimeSpan, ConfigError>)
        ensures
            match window {
                Ok(span) => self.rejection() is None && span@ == self.duration@ * (
                self.max_buckets_count as nat),
                Err(e) => self.rejection() == Some(e),
            },
    {
        if self.max_buckets_count == 0 {
            return Err(ConfigError::ZeroBucketCount);
        }
        if self.duration.is_zero() {
            return Err(ConfigError::ZeroBucketDuration);
        }
        match self.duration.checked_mul(self.max_buckets_count) {
            Some(span) => Ok(span),
            None => Err(ConfigError::WindowTooLong),
        }
    }
}

impl Default for RollingSummaryOpts {
    /// The default quantile ranks over three buckets of twenty seconds.
    fn default() -> (opts: Self)
        ensures
            opts.quantiles@ == crate::summary::generic::default_quantiles(),
            opts.duration@ == DEFAULT_SUMMARY_BUCKET_SECS as nat * NANOS_PER_SEC as nat,
            opts.max_buckets_count == DEFAULT_SUMMARY_BUCKET_COUNT,
            opts.rejection() is None,
    {
        Self {
            quantiles: crate::summary::generic::default_quantile_ranks(),
            duration: TimeSpan::from_secs(DEFAULT_SUMMARY_BUCKET_SECS),
            max_buckets_count: DEFAULT_SUMMARY_BUCKET_COUNT,
        }
    }
}

/// The snapshot of a rolling estimator.
///
/// The count and the sum are those of all observations since the estimator was
/// built; the quantiles are those of the inner summary, which covers the
/// observations of the window only.
pub struct RollingSummarySnapshot<S> {
    count: usize,
    inner: S,
}

impl<S: Summary> RollingSummarySnapshot<S> {
    /// A snapshot of `count` observations in all, with the summary of the recent ones.
    pub fn new(count: usize, inner: S) -> (snapshot: Self)
        ensures
            snapshot.total_count() == count,
            snapshot.recent() == inner,
    {
        Self { count, inner }
    }

    /// The number of observations since the estimator was built.
    pub closed spec fn total_count(&self) -> usize {
        self.count
    }

    /// The summary of the observations of the window.
    pub closed spec fn recent(&self) -> S {
        self.inner
    }
}

impl<S: Summary> Summary for RollingSummarySnapshot<S> {
    open spec fn count(&self) -> nat {
        self.total_count() as nat
    }

    open spec fn sum(&self) -> Sample {
        self.recent().sum()
    }

    open spec fn quantile_at(&self, rank: Sample) -> Option<Sample> {
        if self.total_count() == 0 {
            None
        } else {
            self.recent().quantile_at(rank)
        }
    }

    fn sample_sum(&self) -> (sum: Sample) {
        self.inner.sample_sum()
    }

    fn sample_count(&self) -> (n: u64) {
        self.count as u64
    }

    fn quantile(&self, rank: Sample) -> (value: Option<Sample>) {
        if self.count == 0 {
            None
        } else {
            self.inner.quantile(rank)
        }
    }
}

} // verus!
