use std::num::NonZeroU32;
use std::time::Duration;

use prometric::config::ConfigError;
use prometric::sample::Sample;
use prometric::summary::batching::{
    batch_is_full, drain_into, BatchOpts, BatchedSummary, DEFAULT_BATCH_SIZE,
};
use prometric::summary::generic::{
    default_quantile_ranks, export, GenericSummary, SummaryError, SummaryOpts,
};
use prometric::summary::labels::{LabelError, LabelPair};
use prometric::summary::rolling::{RollingSummaryOpts, RollingSummarySnapshot, TimeSpan};
use prometric::summary::simple::SimpleSummaryOpts;
use prometric::summary::traits::{NonConcurrentSummaryProvider, Summary};

const MEASUREMENTS: usize = 50_000;
const PRINT_EVERY: usize = 100;

fn sample(value: f64) -> Sample {
    Sample::from_bits(value.to_bits())
}

fn value(sample: Sample) -> f64 {
    f64::from_bits(sample.to_bits())
}

/// The plain streaming estimator: a sketch and the running sum beside it.
#[derive(Clone)]
struct SimpleSummary {
    inner: metrics_util::storage::Summary,
    sum: f64,
}

impl Summary for SimpleSummary {
    fn sample_sum(&self) -> Sample {
        sample(self.sum)
    }

    fn sample_count(&self) -> u64 {
        self.inner.count() as u64
    }

    fn quantile(&self, rank: Sample) -> Option<Sample> {
        self.inner.quantile(value(rank)).map(sample)
    }
}

impl NonConcurrentSummaryProvider for SimpleSummary {
    type Opts = SimpleSummaryOpts;
    type Summary = SimpleSummary;

    fn new_provider(opts: &Self::Opts) -> Result<Self, ConfigError> {
        let inner = metrics_util::storage::Summary::new(
            value(opts.alpha),
            opts.max_buckets,
            value(opts.min_value),
        );
        Ok(SimpleSummary { inner, sum: 0.0 })
    }

    fn observe(&mut self, sample: Sample) {
        let v = value(sample);
        if !v.is_infinite() {
            self.inner.add(v);
            self.sum += v;
        }
    }

    fn snapshot(&mut self) -> SimpleSummary {
        self.clone()
    }
}

/// The rolling estimator: the distribution of the exporter, on quanta's clock.
#[derive(Clone)]
struct RollingSummary {
    inner: metrics_exporter_prometheus::Distribution,
}

impl NonConcurrentSummaryProvider for RollingSummary {
    type Opts = RollingSummaryOpts;
    type Summary = RollingSummarySnapshot<SimpleSummary>;

    fn new_provider(opts: &Self::Opts) -> Result<Self, ConfigError> {
        opts.window()?;
        let quantiles =
            opts.quantiles.iter().map(|q| metrics_util::Quantile::new(value(*q))).collect();
        let duration = Duration::new(opts.duration.secs(), opts.duration.subsec_nanos());
        let inner = metrics_exporter_prometheus::DistributionBuilder::new(
            quantiles,
            Some(duration),
            None,
            NonZeroU32::new(opts.max_buckets_count),
            None,
            None,
        )
        .get_distribution("name not relevant");
        Ok(RollingSummary { inner })
    }

    fn observe(&mut self, sample: Sample) {
        let now = quanta::Instant::now();
        self.inner.record_samples(&[(value(sample), now)]);
    }

    fn snapshot(&mut self) -> Self::Summary {
        match &self.inner {
            metrics_exporter_prometheus::Distribution::Summary(summary, _, sum) => {
                let count = summary.count();
                let inner = summary.snapshot(quanta::Instant::now());
                RollingSummarySnapshot::new(count, SimpleSummary { inner, sum: *sum })
            }
            _ => unreachable!("Distribution forced to be a Summary"),
        }
    }
}

fn measure<S: NonConcurrentSummaryProvider>(mut summary: GenericSummary<S>) {
    for i in 0..MEASUREMENTS {
        let start = std::time::Instant::now();
        summary.inner_mut().observe(sample(i as f64));
        if i % PRINT_EVERY == 0 {
            println!("Time taken: {:?}", start.elapsed());
        }
    }

    let result = summary.inner_mut().snapshot();
    assert_eq!(
        result.sample_count(),
        MEASUREMENTS as u64,
        "Should have all measurements present in the collection"
    );

    let exported = summary.proto();
    assert_eq!(exported.sample_count, MEASUREMENTS as u64);
}

#[test]
fn with_simple_summary() {
    let opts = SimpleSummaryOpts::default();
    let opts = SummaryOpts::new("test_summary".to_owned(), "simple".to_owned(), opts)
        .quantiles(default_quantile_ranks());
    let summary = GenericSummary::<SimpleSummary>::new(&opts, &vec![]).unwrap();

    measure(summary);
}

#[test]
fn with_batched_simple_summary() {
    let opts = SimpleSummaryOpts::default();
    let opts = BatchOpts::from_inner(opts);
    let opts = SummaryOpts::new("test_summary".to_owned(), "batched_simple".to_owned(), opts)
        .quantiles(default_quantile_ranks());
    let summary = GenericSummary::<BatchedSummary<SimpleSummary>>::new(&opts, &vec![]).unwrap();

    measure(summary);
}

#[test]
fn with_rolling_summary() {
    let opts = RollingSummaryOpts::default().with_quantiles(default_quantile_ranks());
    let opts = SummaryOpts::new("test_summary".to_owned(), "rolling".to_owned(), opts)
        .quantiles(default_quantile_ranks());
    let summary = GenericSummary::<RollingSummary>::new(&opts, &vec![]).unwrap();

    measure(summary);
}

#[test]
fn with_batched_rolling_summary() {
    let opts = RollingSummaryOpts::default().with_quantiles(default_quantile_ranks());
    let opts = BatchOpts::from_inner(opts);
    let opts = SummaryOpts::new("test_summary".to_owned(), "batched_rolling".to_owned(), opts)
        .quantiles(default_quantile_ranks());
    let summary = GenericSummary::<BatchedSummary<RollingSummary>>::new(&opts, &vec![]).unwrap();

    measure(summary);
}

#[test]
fn concurrent_observe() {
    let batch_size = DEFAULT_BATCH_SIZE;

    let opts = SimpleSummaryOpts::default();
    let opts = BatchOpts::from_inner(opts).with_batch_size(batch_size);

    let mut summary = BatchedSummary::<SimpleSummary>::new(&opts).unwrap();

    let tasks = 8;
    let measurements: u64 = 50_000;

    // The producers take turns, one observation each.
    for i in 0..measurements {
        for _ in 0..tasks {
            summary.observe(sample(i as f64));
        }
    }

    let result = summary.snapshot();
    assert_eq!(
        result.sample_count(),
        tasks as u64 * measurements,
        "Should have all measurements present in the collection"
    );
}

#[test]
fn four_producers_of_twenty_five_values_are_all_counted() {
    let opts = BatchOpts::from_inner(SimpleSummaryOpts::default()).with_batch_size(4);
    let mut summary = BatchedSummary::<SimpleSummary>::new(&opts).unwrap();

    // Producer p observes 25 * p .. 25 * p + 25; the producers interleave.
    for step in 0..25 {
        for producer in 0..4 {
            summary.observe(sample((25 * producer + step) as f64));
        }
    }
    summary.commit();

    let result = summary.snapshot();
    assert_eq!(result.sample_count(), 100);
    assert_eq!(value(result.sample_sum()), 4950.0);
}

#[test]
fn producers_one_after_another_are_all_counted() {
    let opts = BatchOpts::from_inner(SimpleSummaryOpts::default()).with_batch_size(4);
    let mut summary = BatchedSummary::<SimpleSummary>::new(&opts).unwrap();

    for producer in 0..4 {
        for step in 0..25 {
            summary.observe(sample((25 * producer + step) as f64));
        }
    }
    summary.commit();

    let result = summary.snapshot();
    assert_eq!(result.sample_count(), 100);
    assert_eq!(value(result.sample_sum()), 4950.0);
}

#[test]
fn observations_wait_in_the_batch_until_it_is_full() {
    let opts = BatchOpts::from_inner(SimpleSummaryOpts::default()).with_batch_size(3);
    let mut summary = BatchedSummary::<SimpleSummary>::new(&opts).unwrap();
    assert_eq!(summary.batch_size(), 3);
    assert_eq!(summary.pending_len(), 0);

    summary.observe(sample(1.0));
    summary.observe(sample(2.0));
    assert_eq!(summary.pending_len(), 2);

    summary.observe(sample(3.0));
    assert_eq!(summary.pending_len(), 0);

    summary.observe(sample(4.0));
    assert_eq!(summary.pending_len(), 1);

    let inner = summary.into_inner();
    assert_eq!(inner.sample_count(), 4);
    assert_eq!(value(inner.sample_sum()), 10.0);
}

#[test]
fn commit_on_an_empty_batch_changes_nothing() {
    let opts = BatchOpts::from_inner(SimpleSummaryOpts::default()).with_batch_size(8);
    let mut summary = BatchedSummary::<SimpleSummary>::new(&opts).unwrap();
    for i in 0..5 {
        summary.observe(sample(i as f64 + 0.5));
    }
    let before = summary.snapshot();
    assert_eq!(summary.pending_len(), 0);

    summary.commit();
    summary.commit();
    let after = summary.snapshot();

    assert_eq!(after.sample_count(), before.sample_count());
    assert_eq!(after.sample_count(), 5);
    assert_eq!(value(after.sample_sum()), value(before.sample_sum()));
    for rank in default_quantile_ranks() {
        assert_eq!(after.quantile(rank), before.quantile(rank));
    }
}

#[test]
fn a_batch_size_of_zero_is_turned_down() {
    let opts = BatchOpts::from_inner(SimpleSummaryOpts::default()).with_batch_size(0);
    let built = BatchedSummary::<SimpleSummary>::new(&opts);
    assert!(matches!(built, Err(ConfigError::ZeroBatchSize)));
    assert_eq!(ConfigError::ZeroBatchSize.describe(), "the batch size must be at least one");

    let through_the_trait = BatchedSummary::<SimpleSummary>::new_provider(&opts);
    assert!(matches!(through_the_trait, Err(ConfigError::ZeroBatchSize)));
}

#[test]
fn a_batch_size_of_one_commits_every_observation() {
    let opts = BatchOpts::from_inner(SimpleSummaryOpts::default()).with_batch_size(1);
    let mut summary = BatchedSummary::<SimpleSummary>::new(&opts).unwrap();
    summary.observe(sample(7.0));
    assert_eq!(summary.pending_len(), 0);
    let inner = summary.into_inner();
    assert_eq!(inner.sample_count(), 1);
}

#[test]
fn an_inner_provider_that_turns_its_options_down_is_reported() {
    let rolling = RollingSummaryOpts::default();
    let rolling = RollingSummaryOpts { max_buckets_count: 0, ..rolling };
    let opts = BatchOpts::from_inner(rolling);
    let built = BatchedSummary::<RollingSummary>::new(&opts);
    assert!(matches!(built, Err(ConfigError::ZeroBucketCount)));
}

#[test]
fn batch_options_default_to_sixty_four() {
    let opts = BatchOpts::from_inner(7u8);
    assert_eq!(opts.batch_size, 64);
    assert_eq!(opts.inner, 7);
    assert_eq!(DEFAULT_BATCH_SIZE, 64);
    let opts = opts.with_batch_size(4);
    assert_eq!(opts.batch_size, 4);
    assert_eq!(opts.inner, 7);
}

#[test]
fn a_batch_is_full_at_its_size_and_beyond() {
    assert!(!batch_is_full(0, 1));
    assert!(!batch_is_full(63, 64));
    assert!(batch_is_full(64, 64));
    assert!(batch_is_full(65, 64));
    assert!(batch_is_full(0, 0));
}

#[test]
fn draining_hands_every_sample_to_the_provider() {
    let mut inner = SimpleSummary::new_provider(&SimpleSummaryOpts::default()).unwrap();
    let batch: Vec<Sample> = vec![sample(1.0), sample(2.0), sample(3.5)];
    drain_into(&mut inner, &batch);
    assert_eq!(inner.sample_count(), 3);
    assert_eq!(value(inner.sample_sum()), 6.5);

    drain_into(&mut inner, &vec![]);
    assert_eq!(inner.sample_count(), 3);
    assert_eq!(value(inner.sample_sum()), 6.5);
}

#[test]
fn an_infinite_sample_is_not_kept_by_the_sketch() {
    let opts = BatchOpts::from_inner(SimpleSummaryOpts::default()).with_batch_size(2);
    let mut summary = BatchedSummary::<SimpleSummary>::new(&opts).unwrap();
    summary.observe(sample(1.0));
    summary.observe(sample(f64::INFINITY));
    summary.observe(sample(2.0));
    let result = summary.snapshot();
    assert_eq!(result.sample_count(), 2);
    assert_eq!(value(result.sample_sum()), 3.0);
}

#[test]
fn quantiles_go_up_with_their_ranks() {
    let mut inner = SimpleSummary::new_provider(&SimpleSummaryOpts::default()).unwrap();
    for i in 0..1000 {
        inner.observe(sample((i * 37 % 1000) as f64));
    }
    let snapshot = inner.snapshot();
    let proto = export(&snapshot, &default_quantile_ranks());
    assert_eq!(proto.sample_count, 1000);
    assert_eq!(proto.quantiles.len(), 7);
    for pair in proto.quantiles.windows(2) {
        assert!(value(pair[0].quantile) < value(pair[1].quantile));
        assert!(value(pair[0].value) <= value(pair[1].value));
    }
    assert_eq!(value(proto.quantiles[0].value), 0.0);
    assert_eq!(value(proto.quantiles[6].value), 999.0);
    let median = value(proto.quantiles[1].value);
    assert!((median - 499.5).abs() <= 1.0);
}

#[test]
fn a_summary_without_samples_exports_no_quantile() {
    let mut inner = SimpleSummary::new_provider(&SimpleSummaryOpts::default()).unwrap();
    let snapshot = inner.snapshot();
    let proto = export(&snapshot, &default_quantile_ranks());
    assert_eq!(proto.sample_count, 0);
    assert_eq!(value(proto.sample_sum), 0.0);
    assert!(proto.quantiles.is_empty());
    assert_eq!(snapshot.quantile(sample(0.5)), None);
}

#[test]
fn a_rank_outside_zero_to_one_is_left_out() {
    let mut inner = SimpleSummary::new_provider(&SimpleSummaryOpts::default()).unwrap();
    inner.observe(sample(3.0));
    let snapshot = inner.snapshot();
    let ranks = vec![sample(-0.5), sample(0.5), sample(1.5), sample(f64::NAN), sample(1.0)];
    let proto = export(&snapshot, &ranks);
    assert_eq!(proto.quantiles.len(), 2);
    assert_eq!(value(proto.quantiles[0].quantile), 0.5);
    assert_eq!(value(proto.quantiles[1].quantile), 1.0);
    assert_eq!(value(proto.quantiles[1].value), 3.0);
}

#[test]
fn rolling_quantiles_forget_what_the_count_and_the_sum_remember() {
    let (clock, mock) = quanta::Clock::mock();
    mock.increment(Duration::from_secs(3600));
    quanta::with_clock(&clock, || {
        let opts = RollingSummaryOpts::default();
        let window = opts.window().unwrap();
        assert_eq!(window.secs(), 60);
        let mut rolling = RollingSummary::new_provider(&opts).unwrap();

        rolling.observe(sample(10.0));
        let first = rolling.snapshot();
        assert_eq!(first.sample_count(), 1);
        let seen = value(first.quantile(sample(0.5)).unwrap());
        assert!((seen - 10.0).abs() <= 10.0 * 0.001);

        mock.increment(Duration::from_secs(window.secs() + 1));
        rolling.observe(sample(1000.0));

        let second = rolling.snapshot();
        assert_eq!(second.sample_count(), 2);
        assert_eq!(value(second.sample_sum()), 1010.0);
        for rank in [0.0, 0.5, 1.0] {
            let seen = value(second.quantile(sample(rank)).unwrap());
            assert!((seen - 1000.0).abs() <= 1000.0 * 0.001);
        }
    });
}

#[test]
fn a_rolling_snapshot_without_observations_has_no_quantile() {
    let inner = SimpleSummary { inner: metrics_util::storage::Summary::with_defaults(), sum: 0.0 };
    let snapshot = RollingSummarySnapshot::new(0, inner);
    assert_eq!(snapshot.sample_count(), 0);
    assert_eq!(snapshot.quantile(sample(0.5)), None);
    assert_eq!(value(snapshot.sample_sum()), 0.0);
}

#[test]
fn a_rolling_snapshot_counts_all_and_asks_the_recent_for_quantiles() {
    let mut recent = SimpleSummary::new_provider(&SimpleSummaryOpts::default()).unwrap();
    recent.observe(sample(5.0));
    let snapshot = RollingSummarySnapshot::new(9, recent.snapshot());
    assert_eq!(snapshot.sample_count(), 9);
    assert_eq!(value(snapshot.sample_sum()), 5.0);
    assert_eq!(value(snapshot.quantile(sample(1.0)).unwrap()), 5.0);
    assert_eq!(snapshot.quantile(sample(2.0)), None);
}

#[test]
fn a_summary_metric_sorts_its_label_pairs_by_name() {
    let opts = SummaryOpts::new("requests".to_owned(), "Requests".to_owned(), SimpleSummaryOpts::default())
        .const_labels(vec![
            LabelPair { name: "zone".to_owned(), value: "a".to_owned() },
            LabelPair { name: "host".to_owned(), value: "h1".to_owned() },
        ])
        .variable_labels(vec!["method".to_owned(), "code".to_owned()]);
    let summary =
        GenericSummary::<SimpleSummary>::new(&opts, &vec!["GET".to_owned(), "200".to_owned()])
            .unwrap();
    let names: Vec<&str> = summary.label_pairs_of().iter().map(|p| p.name.as_str()).collect();
    assert_eq!(names, vec!["code", "host", "method", "zone"]);
    let values: Vec<&str> = summary.label_pairs_of().iter().map(|p| p.value.as_str()).collect();
    assert_eq!(values, vec!["200", "h1", "GET", "a"]);
    assert_eq!(summary.quantiles().len(), 7);
}

#[test]
fn a_summary_metric_needs_one_value_for_each_variable_label() {
    let opts = SummaryOpts::new("requests".to_owned(), "Requests".to_owned(), SimpleSummaryOpts::default())
        .variable_labels(vec!["method".to_owned(), "code".to_owned()]);
    let made = GenericSummary::<SimpleSummary>::new(&opts, &vec!["GET".to_owned()]);
    assert!(matches!(
        made,
        Err(SummaryError::Labels(LabelError::InconsistentCardinality { expect: 2, got: 1 }))
    ));
}

#[test]
fn a_summary_metric_needs_a_description_that_the_backend_accepts() {
    let no_help = SummaryOpts::new("requests".to_owned(), "".to_owned(), SimpleSummaryOpts::default());
    assert!(matches!(
        GenericSummary::<SimpleSummary>::new(&no_help, &vec![]),
        Err(SummaryError::Description(_))
    ));

    let bad_name =
        SummaryOpts::new("9requests".to_owned(), "Requests".to_owned(), SimpleSummaryOpts::default());
    assert!(matches!(
        GenericSummary::<SimpleSummary>::new(&bad_name, &vec![]),
        Err(SummaryError::Description(_))
    ));

    let colon = SummaryOpts::new("a:b_9".to_owned(), "Requests".to_owned(), SimpleSummaryOpts::default());
    assert!(GenericSummary::<SimpleSummary>::new(&colon, &vec![]).is_ok());

    let bad_label =
        SummaryOpts::new("requests".to_owned(), "Requests".to_owned(), SimpleSummaryOpts::default())
            .variable_labels(vec!["a:b".to_owned()]);
    assert!(matches!(
        GenericSummary::<SimpleSummary>::new(&bad_label, &vec!["x".to_owned()]),
        Err(SummaryError::Description(_))
    ));

    let twice =
        SummaryOpts::new("requests".to_owned(), "Requests".to_owned(), SimpleSummaryOpts::default())
            .variable_labels(vec!["a".to_owned(), "a".to_owned()]);
    assert!(matches!(
        GenericSummary::<SimpleSummary>::new(&twice, &vec!["x".to_owned(), "y".to_owned()]),
        Err(SummaryError::Description(_))
    ));

    let shared =
        SummaryOpts::new("requests".to_owned(), "Requests".to_owned(), SimpleSummaryOpts::default())
            .const_labels(vec![LabelPair { name: "a".to_owned(), value: "1".to_owned() }])
            .variable_labels(vec!["a".to_owned()]);
    assert!(GenericSummary::<SimpleSummary>::new(&shared, &vec!["x".to_owned()]).is_ok());
}

#[test]
fn a_summary_metric_takes_each_constant_label_once() {
    let opts = SummaryOpts::new("requests".to_owned(), "Requests".to_owned(), SimpleSummaryOpts::default())
        .const_labels(vec![
            LabelPair { name: "host".to_owned(), value: "h1".to_owned() },
            LabelPair { name: "zone".to_owned(), value: "a".to_owned() },
            LabelPair { name: "host".to_owned(), value: "h2".to_owned() },
        ]);
    let made = GenericSummary::<SimpleSummary>::new(&opts, &vec![]);
    assert!(matches!(made, Err(SummaryError::DuplicateConstLabel { index: 2 })));
}

#[test]
fn a_summary_metric_reports_what_its_provider_turns_down() {
    let opts = SummaryOpts::new(
        "requests".to_owned(),
        "Requests".to_owned(),
        BatchOpts::from_inner(SimpleSummaryOpts::default()).with_batch_size(0),
    );
    let made = GenericSummary::<BatchedSummary<SimpleSummary>>::new(&opts, &vec![]);
    assert!(matches!(made, Err(SummaryError::Config(ConfigError::ZeroBatchSize))));
}

#[test]
fn a_time_span_multiplies_without_overflow() {
    let span = TimeSpan::new(1, 500_000_000).unwrap();
    let product = span.checked_mul(3).unwrap();
    assert_eq!(product.secs(), 4);
    assert_eq!(product.subsec_nanos(), 500_000_000);
    assert!(TimeSpan::new(0, 1_000_000_000).is_none());
    assert!(TimeSpan::from_secs(0).is_zero());
    assert!(!TimeSpan::new(0, 1).unwrap().is_zero());
    assert_eq!(TimeSpan::from_secs(5).checked_mul(0).unwrap().secs(), 0);

    let longest = TimeSpan::new(u64::MAX, 999_999_999).unwrap();
    assert_eq!(longest.checked_mul(1), Some(longest));
    assert_eq!(longest.checked_mul(2), None);
    let half = TimeSpan::from_secs(u64::MAX / 2);
    assert_eq!(half.checked_mul(2).unwrap().secs(), u64::MAX - 1);
    assert_eq!(TimeSpan::new(u64::MAX / 2, 500_000_000).unwrap().checked_mul(2).unwrap().secs(), u64::MAX);
    assert_eq!(TimeSpan::new(u64::MAX / 2 + 1, 0).unwrap().checked_mul(2), None);
}

#[test]
fn a_rolling_window_needs_buckets_that_last() {
    let defaults = RollingSummaryOpts::default();
    assert_eq!(defaults.max_buckets_count, 3);
    assert_eq!(defaults.duration, TimeSpan::from_secs(20));
    assert_eq!(defaults.quantiles, default_quantile_ranks());
    assert_eq!(defaults.window(), Ok(TimeSpan::from_secs(60)));

    let no_bucket = RollingSummaryOpts { max_buckets_count: 0, ..RollingSummaryOpts::default() };
    assert_eq!(no_bucket.window(), Err(ConfigError::ZeroBucketCount));

    let no_time = RollingSummaryOpts { duration: TimeSpan::from_secs(0), ..RollingSummaryOpts::default() };
    assert_eq!(no_time.window(), Err(ConfigError::ZeroBucketDuration));

    let neither = RollingSummaryOpts {
        duration: TimeSpan::from_secs(0),
        max_buckets_count: 0,
        ..RollingSummaryOpts::default()
    };
    assert_eq!(neither.window(), Err(ConfigError::ZeroBucketCount));

    let too_long =
        RollingSummaryOpts { duration: TimeSpan::from_secs(u64::MAX), ..RollingSummaryOpts::default() };
    assert_eq!(too_long.window(), Err(ConfigError::WindowTooLong));

    let other = RollingSummaryOpts::default().with_quantiles(vec![sample(0.25)]);
    assert_eq!(other.quantiles, vec![sample(0.25)]);
    assert_eq!(other.max_buckets_count, 3);
}

#[test]
fn the_defaults_are_the_numbers_they_stand_for() {
    let ranks: Vec<f64> = default_quantile_ranks().into_iter().map(value).collect();
    assert_eq!(ranks, vec![0.0, 0.5, 0.9, 0.95, 0.99, 0.999, 1.0]);

    let simple = SimpleSummaryOpts::default();
    assert_eq!(value(simple.alpha), 0.0001);
    assert_eq!(simple.max_buckets, 32_768);
    assert_eq!(value(simple.min_value), 1.0e-9);
}

#[test]
fn a_sample_is_a_rank_between_zero_and_one() {
    for inside in [0.0, -0.0, 1.0e-300, 0.5, 0.999_999, 1.0] {
        assert!(sample(inside).in_unit_interval(), "{inside}");
        assert!((0.0..=1.0).contains(&inside));
    }
    for outside in [
        -1.0e-300,
        -1.0,
        1.000_000_000_000_000_2,
        2.0,
        f64::INFINITY,
        f64::NEG_INFINITY,
        f64::NAN,
        -f64::NAN,
    ] {
        assert!(!sample(outside).in_unit_interval(), "{outside}");
        assert!(!(0.0..=1.0).contains(&outside));
    }
    assert_eq!(sample(1.5).to_bits(), 1.5f64.to_bits());
    assert_eq!(Sample::from_bits(0x3FF0_0000_0000_0000), sample(1.0));
}

#[test]
fn constant_labels_alone_come_sorted_from_the_description() {
    let opts = SummaryOpts::new("requests".to_owned(), "Requests".to_owned(), SimpleSummaryOpts::default())
        .const_labels(vec![
            LabelPair { name: "zone".to_owned(), value: "a".to_owned() },
            LabelPair { name: "host".to_owned(), value: "h1".to_owned() },
            LabelPair { name: "app".to_owned(), value: "x".to_owned() },
        ]);
    let summary = GenericSummary::<SimpleSummary>::new(&opts, &vec![]).unwrap();
    let pairs: Vec<(&str, &str)> = summary
        .label_pairs_of()
        .iter()
        .map(|p| (p.name.as_str(), p.value.as_str()))
        .collect();
    assert_eq!(pairs, vec![("app", "x"), ("host", "h1"), ("zone", "a")]);
}

#[test]
fn a_constant_label_needs_a_valid_name() {
    for name in ["", "9a", "a-b", "a:b", "é", "a b"] {
        let opts =
            SummaryOpts::new("requests".to_owned(), "Requests".to_owned(), SimpleSummaryOpts::default())
                .const_labels(vec![LabelPair { name: name.to_owned(), value: "v".to_owned() }]);
        assert!(
            matches!(
                GenericSummary::<SimpleSummary>::new(&opts, &vec![]),
                Err(SummaryError::Description(_))
            ),
            "{name}"
        );
    }
    for name in ["a", "_", "a9", "A_b_9", "__x"] {
        let opts =
            SummaryOpts::new("requests".to_owned(), "Requests".to_owned(), SimpleSummaryOpts::default())
                .const_labels(vec![LabelPair { name: name.to_owned(), value: "".to_owned() }]);
        assert!(GenericSummary::<SimpleSummary>::new(&opts, &vec![]).is_ok(), "{name}");
    }
}

#[test]
fn a_metric_needs_a_valid_name() {
    for name in ["", "9a", "a-b", "é", "a b", "a.b"] {
        let opts = SummaryOpts::new(name.to_owned(), "Requests".to_owned(), SimpleSummaryOpts::default());
        assert!(
            matches!(
                GenericSummary::<SimpleSummary>::new(&opts, &vec![]),
                Err(SummaryError::Description(_))
            ),
            "{name}"
        );
    }
    for name in ["a", "_", ":", "a9", "A:b_9", "z:"] {
        let opts = SummaryOpts::new(name.to_owned(), "Requests".to_owned(), SimpleSummaryOpts::default());
        assert!(GenericSummary::<SimpleSummary>::new(&opts, &vec![]).is_ok(), "{name}");
    }
}

#[test]
fn a_family_builds_its_metrics_with_their_label_values() {
    let opts = SummaryOpts::new("requests".to_owned(), "Requests".to_owned(), SimpleSummaryOpts::default())
        .variable_labels(vec!["code".to_owned()]);
    let builder = prometric::summary::generic::SummaryVecBuilder::<SimpleSummary>::new();
    let mut metric = builder.clone().build(&opts, &vec!["200".to_owned()]).unwrap();
    metric.observe(sample(2.0));
    metric.observe(sample(4.0));
    let proto = metric.proto();
    assert_eq!(proto.sample_count, 2);
    assert_eq!(value(proto.sample_sum), 6.0);
    assert_eq!(proto.quantiles.len(), 7);
    assert_eq!(value(proto.quantiles[0].value), 2.0);
    assert_eq!(value(proto.quantiles[6].value), 4.0);
    assert!(matches!(
        builder.build(&opts, &vec![]),
        Err(SummaryError::Labels(LabelError::InconsistentCardinality { expect: 1, got: 0 }))
    ));
}

/// A provider that keeps every sample as it comes.
#[derive(Clone, Default)]
struct Recorder {
    samples: Vec<Sample>,
}

/// The count of what a recorder has kept; it gives no estimates.
struct Counted(u64);

impl Summary for Counted {
    fn sample_sum(&self) -> Sample {
        sample(0.0)
    }

    fn sample_count(&self) -> u64 {
        self.0
    }

    fn quantile(&self, _: Sample) -> Option<Sample> {
        None
    }
}

impl NonConcurrentSummaryProvider for Recorder {
    type Opts = ();
    type Summary = Counted;

    fn new_provider(_: &()) -> Result<Self, ConfigError> {
        Ok(Recorder::default())
    }

    fn observe(&mut self, sample: Sample) {
        self.samples.push(sample);
    }

    fn snapshot(&mut self) -> Counted {
        Counted(self.samples.len() as u64)
    }
}

#[test]
fn samples_reach_the_provider_once_and_in_the_order_of_arrival() {
    let observed: Vec<Sample> = (0..1000).map(|i| sample((i * 7919 % 1000) as f64 - 0.25)).collect();
    for batch_size in [1usize, 2, 3, 64, 999, 1000, 1001, usize::MAX] {
        let opts = BatchOpts::from_inner(()).with_batch_size(batch_size);
        let mut summary = BatchedSummary::<Recorder>::new(&opts).unwrap();
        for (i, s) in observed.iter().enumerate() {
            summary.observe(*s);
            assert_eq!(summary.pending_len(), (i + 1) % batch_size);
        }
        assert_eq!(summary.snapshot().sample_count(), 1000);
        assert_eq!(summary.pending_len(), 0);
        assert_eq!(summary.into_inner().samples, observed);
    }
}

#[test]
fn a_copy_of_a_batched_provider_keeps_what_waits_in_the_batch() {
    let opts = BatchOpts::from_inner(()).with_batch_size(10);
    let mut summary = BatchedSummary::<Recorder>::new(&opts).unwrap();
    for i in 0..7 {
        summary.observe(sample(i as f64));
    }
    let copy = summary.clone();
    summary.observe(sample(99.0));
    assert_eq!(copy.pending_len(), 7);
    assert_eq!(summary.pending_len(), 8);
    let kept: Vec<f64> = copy.into_inner().samples.into_iter().map(value).collect();
    assert_eq!(kept, vec![0.0, 1.0, 2.0, 3.0, 4.0, 5.0, 6.0]);
}
