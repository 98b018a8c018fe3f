//! Batching of observations in front of an estimator.
//!
//! Observations are appended to a pending batch. When the batch reaches the
//! configured size, or when a commit or a snapshot is asked for, the batch is
//! taken out whole, an empty one is installed in its place, and the taken batch is
//! drained into the inner provider in one pass. A shell that serves many threads
//! performs each of these steps under its own synchronisation; the steps
//! themselves, and what they do to the observations, are the ones defined here.
//!
//! The batch is kept in a concurrent vector, the container that such a shell
//! appends to from many threads. Here it has one owner at a time, and what it
//! holds after each call is stated with the call.

use vstd::prelude::*;
use orx_concurrent_vec::ConcurrentVec;
use crate::config::ConfigError;
use crate::sample::Sample;
use crate::summary::traits::NonConcurrentSummaryProvider;

verus! {

/// The number of measurements to batch before committing, unless configured otherwise.
pub const DEFAULT_BATCH_SIZE: usize = 64;

/// The configuration of a batched provider.
#[derive(Clone)]
pub struct BatchOpts<O> {
    /// The number of measurements to batch before committing to the inner provider.
    pub batch_size: usize,
    /// The options of the inner provider.
    pub inner: O,
}

impl<O> BatchOpts<O> {
    /// Options with the default batch size around the inner provider's options.
    pub fn from_inner(inner: O) -> (opts: Self)
        ensures
            opts.batch_size == DEFAULT_BATCH_SIZE,
            opts.inner == inner,
    {
        Self { batch_size: DEFAULT_BATCH_SIZE, inner }
    }

    /// The same options with another batch size.
    pub fn with_batch_size(self, batch_size: usize) -> (opts: Self)
        ensures
            opts.batch_size == batch_size,
            opts.inner == self.inner,
    {
        Self { batch_size, inner: self.inner }
    }
}

/// Those of the samples that a provider of type `P` keeps, in the same order.
pub open spec fn kept<P: NonConcurrentSummaryProvider>(samples: Seq<Sample>) -> Seq<Sample> {
    samples.filter(|s: Sample| P::records(s))
}

/// What is kept of a batch with one more sample is what was kept of the batch,
/// followed by the sample if the provider keeps it.
pub proof fn lemma_kept_push<P: NonConcurrentSummaryProvider>(samples: Seq<Sample>, sample: Sample)
    ensures
        kept::<P>(samples.push(sample)) == if P::records(sample) {
            kept::<P>(samples).push(sample)
        } else {
            kept::<P>(samples)
        },
{
    reveal(Seq::filter);
    assert(samples.push(sample).drop_last() == samples);
}

/// What is kept of two batches in a row is what is kept of each, in a row.
pub proof fn lemma_kept_add<P: NonConcurrentSummaryProvider>(a: Seq<Sample>, b: Seq<Sample>)
    ensures
        kept::<P>(a + b) == kept::<P>(a) + kept::<P>(b),
{
    Seq::filter_distributes_over_add(a, b, |s: Sample| P::records(s));
}

/// Nothing dropped: where the provider keeps every sample, it keeps the batch as it is.
pub proof fn lemma_kept_all<P: NonConcurrentSummaryProvider>(samples: Seq<Sample>)
    requires
        forall|i: int| 0 <= i < samples.len() ==> P::records(#[trigger] samples[i]),
    ensures
        kept::<P>(samples) == samples,
    decreases samples.len(),
{
    reveal(Seq::filter);
    if samples.len() > 0 {
        lemma_kept_all::<P>(samples.drop_last());
        assert(samples.drop_last().push(samples.last()) == samples);
    }
}

/// A batch: an `orx_concurrent_vec::ConcurrentVec` of the bit patterns of its
/// samples. The container chooses its storage through traits of its own crate,
/// so it is held behind this struct, and the proofs go by `batch_bits` alone.
#[verifier::external_body]
pub struct Batch {
    inner: ConcurrentVec<u64>,
}

impl Clone for Batch {
    /// A copy of the batch: `ConcurrentVec::clone`, which copies the values in
    /// their order.
    #[verifier::external_body]
    fn clone(&self) -> (copy: Self)
        ensures
            batch_bits(copy) == batch_bits(*self),
    {
        Batch { inner: self.inner.clone() }
    }
}

/// The bit patterns of the samples that a batch holds, in the order in which
/// they were appended.
pub uninterp spec fn batch_bits(batch: Batch) -> Seq<u64>;

/// The number of samples that a batch takes for certain: the capacity of the
/// container where addresses have 32 bits, four less than two to the power of
/// thirty-one. Where addresses have 64 bits the container takes more.
pub const BATCH_CAPACITY: usize = 2_147_483_644;

/// The samples of the given bit patterns.
pub open spec fn samples_of(bits: Seq<u64>) -> Seq<Sample> {
    Seq::new(bits.len(), |i: int| Sample { bits: bits[i] })
}

/// An empty batch: `ConcurrentVec::new`.
#[verifier::external_body]
fn batch_new() -> (batch: Batch)
    ensures
        batch_bits(batch) == Seq::<u64>::empty(),
{
    Batch { inner: ConcurrentVec::new() }
}

/// Appends to the batch: `ConcurrentVec::push`, which puts the value behind
/// those that the batch holds. The container panics beyond its capacity, so the
/// batch must be below it.
#[verifier::external_body]
fn batch_push(batch: &mut Batch, bits: u64)
    requires
        batch_bits(*old(batch)).len() < BATCH_CAPACITY,
    ensures
        batch_bits(*final(batch)) == batch_bits(*old(batch)).push(bits),
{
    batch.inner.push(bits);
}

/// The number of samples in the batch: `ConcurrentVec::len`.
#[verifier::external_body]
fn batch_len(batch: &Batch) -> (len: usize)
    ensures
        len == batch_bits(*batch).len(),
{
    batch.inner.len()
}

/// Takes the samples out of the batch: `ConcurrentVec::into_iter`, which hands
/// the values out in the order in which they were appended.
#[verifier::external_body]
fn batch_into_samples(batch: Batch) -> (samples: Vec<Sample>)
    ensures
        samples@ == samples_of(batch_bits(batch)),
{
    batch.inner.into_iter().map(Sample::from_bits).collect()
}

/// Whether a batch of the given length has reached the configured size.
pub fn batch_is_full(len: usize, batch_size: usize) -> (full: bool)
    ensures
        full == (len >= batch_size),
{
    len >= batch_size
}

/// Hands every sample of the batch to the provider, oldest first.
///
/// The provider ends up with what it had kept before, followed by what it keeps
/// of the batch. An empty batch leaves the provider untouched.
pub fn drain_into<P: NonConcurrentSummaryProvider>(inner: &mut P, batch: &Vec<Sample>)
    ensures
        final(inner).recorded() == old(inner).recorded() + kept::<P>(batch@),
        batch@.len() == 0 ==> *final(inner) == *old(inner),
{
    let ghost before = inner.recorded();
    let mut i: usize = 0;
    proof {
        reveal(Seq::filter);
        assert(batch@.take(0) == Seq::<Sample>::empty());
        assert(before + kept::<P>(batch@.take(0)) == before);
    }
    while i < batch.len()
        invariant
            i <= batch.len(),
            inner.recorded() == before + kept::<P>(batch@.take(i as int)),
            i == 0 ==> *inner == *old(inner),
        decreases batch.len() - i,
    {
        let sample = batch[i];
        inner.observe(sample);
        proof {
            let done = batch@.take(i as int);
            assert(batch@.take(i + 1) == done.push(sample));
            lemma_kept_push::<P>(done, sample);
            if P::records(sample) {
                assert(before + kept::<P>(done).push(sample) == (before + kept::<P>(done)).push(
                    sample,
                ));
            }
        }
        i += 1;
    }
    proof {
        assert(batch@.take(batch@.len() as int) == batch@);
    }
}

/// What a batched provider holds, as plain values.
#[verifier::ext_equal]
pub struct BatchView {
    /// The number of pending samples at which the batch is committed.
    pub batch_size: nat,
    /// The samples that wait in the current batch, oldest first.
    pub pending: Seq<Sample>,
    /// The samples that the inner provider has kept, oldest first.
    pub committed: Seq<Sample>,
}

impl BatchView {
    /// Whether the batch is below the size at which it is committed. This holds
    /// of every batched provider between two calls.
    pub open spec fn bounded(self) -> bool {
        self.pending.len() < self.batch_size
    }

    /// The state right after construction.
    pub open spec fn fresh(batch_size: nat) -> BatchView {
        BatchView { batch_size, pending: Seq::empty(), committed: Seq::empty() }
    }

    /// Everything that a snapshot will count: what the inner provider has kept and
    /// what it will keep of the pending batch.
    pub open spec fn total<P: NonConcurrentSummaryProvider>(self) -> Seq<Sample> {
        self.committed + kept::<P>(self.pending)
    }

    /// The state after a commit: the batch is drained into the inner provider.
    pub open spec fn commit<P: NonConcurrentSummaryProvider>(self) -> BatchView {
        BatchView {
            batch_size: self.batch_size,
            pending: Seq::empty(),
            committed: self.committed + kept::<P>(self.pending),
        }
    }

    /// The state with room for one more sample: as it is while the batch is
    /// below the capacity of its container, committed once it is not.
    pub open spec fn with_room<P: NonConcurrentSummaryProvider>(self) -> BatchView {
        if self.pending.len() >= BATCH_CAPACITY {
            self.commit::<P>()
        } else {
            self
        }
    }

    /// The state after one observation: the sample joins the batch, and the batch
    /// is committed if that fills it.
    pub open spec fn observe<P: NonConcurrentSummaryProvider>(self, sample: Sample) -> BatchView {
        let room = self.with_room::<P>();
        let appended = BatchView {
            batch_size: room.batch_size,
            pending: room.pending.push(sample),
            committed: room.committed,
        };
        if appended.pending.len() >= self.batch_size {
            appended.commit::<P>()
        } else {
            appended
        }
    }

    /// The state after the observations of `samples`, in order.
    pub open spec fn observe_all<P: NonConcurrentSummaryProvider>(
        self,
        samples: Seq<Sample>,
    ) -> BatchView
        decreases samples.len(),
    {
        if samples.len() == 0 {
            self
        } else {
            self.observe_all::<P>(samples.drop_last()).observe::<P>(samples.last())
        }
    }
}

/// Construction with a batch size above zero starts below the batch size, and
/// every observation and every commit stays there.
pub proof fn lemma_bounded<P: NonConcurrentSummaryProvider>(v: BatchView, sample: Sample)
    requires
        v.batch_size > 0,
    ensures
        BatchView::fresh(v.batch_size).bounded(),
        v.commit::<P>().bounded(),
        v.bounded() ==> v.observe::<P>(sample).bounded(),
{
}

/// A commit on an empty batch changes nothing, and so a second commit right
/// after a first changes nothing.
pub proof fn lemma_commit_idempotent<P: NonConcurrentSummaryProvider>(v: BatchView)
    ensures
        v.pending.len() == 0 ==> v.commit::<P>() == v,
        v.commit::<P>().commit::<P>() == v.commit::<P>(),
{
    reveal(Seq::filter);
    let once = v.commit::<P>();
    assert(once.committed + kept::<P>(once.pending) =~= once.committed);
    assert(once.commit::<P>() =~= once);
    if v.pending.len() == 0 {
        assert(v.pending =~= Seq::<Sample>::empty());
        assert(v.committed + kept::<P>(v.pending) =~= v.committed);
        assert(v.commit::<P>() =~= v);
    }
}

/// A commit moves samples from the batch to the inner provider and neither adds
/// nor removes one; an observation adds the sample, if the provider keeps it,
/// and nothing else.
pub proof fn lemma_total_step<P: NonConcurrentSummaryProvider>(v: BatchView, sample: Sample)
    ensures
        v.commit::<P>().total::<P>() == v.total::<P>(),
        v.observe::<P>(sample).total::<P>() == v.total::<P>() + kept::<P>(seq![sample]),
        v.observe::<P>(sample).batch_size == v.batch_size,
{
    reveal(Seq::filter);
    let once = v.commit::<P>();
    assert(once.committed + kept::<P>(once.pending) =~= once.committed);
    let room = v.with_room::<P>();
    assert(room.total::<P>() == v.total::<P>());
    let appended = BatchView {
        batch_size: room.batch_size,
        pending: room.pending.push(sample),
        committed: room.committed,
    };
    assert(room.pending.push(sample) =~= room.pending + seq![sample]);
    lemma_kept_add::<P>(room.pending, seq![sample]);
    assert(appended.total::<P>() =~= v.total::<P>() + kept::<P>(seq![sample]));
    let twice = appended.commit::<P>();
    assert(twice.committed + kept::<P>(twice.pending) =~= twice.committed);
}

/// Conservation: whatever the batch size and however the observations fall
/// into batches, after the observations of `samples` the provider accounts for
/// what it accounted for before, followed by what its inner provider keeps of
/// `samples`, each once and in the order of arrival.
pub proof fn lemma_conservation<P: NonConcurrentSummaryProvider>(v: BatchView, samples: Seq<Sample>)
    ensures
        v.observe_all::<P>(samples).total::<P>() == v.total::<P>() + kept::<P>(samples),
        v.observe_all::<P>(samples).commit::<P>().committed == v.total::<P>() + kept::<P>(
            samples,
        ),
        v.observe_all::<P>(samples).batch_size == v.batch_size,
    decreases samples.len(),
{
    reveal(Seq::filter);
    if samples.len() == 0 {
        assert(samples =~= Seq::<Sample>::empty());
        assert(v.total::<P>() + kept::<P>(samples) =~= v.total::<P>());
    } else {
        let front = samples.drop_last();
        let before = v.observe_all::<P>(front);
        lemma_conservation::<P>(v, front);
        lemma_total_step::<P>(before, samples.last());
        assert(front + seq![samples.last()] =~= samples);
        lemma_kept_add::<P>(front, seq![samples.last()]);
        assert(v.total::<P>() + kept::<P>(front) + kept::<P>(seq![samples.last()]) =~= v.total::<P>()
            + kept::<P>(samples));
    }
}

/// Conservation from a new provider: where the inner provider keeps every one
/// of the `samples`, a commit after their observations leaves the inner provider
/// with exactly these samples, so that a snapshot counts as many as were
/// observed.
pub proof fn lemma_conservation_from_fresh<P: NonConcurrentSummaryProvider>(
    batch_size: nat,
    samples: Seq<Sample>,
)
    requires
        forall|i: int| 0 <= i < samples.len() ==> P::records(#[trigger] samples[i]),
    ensures
        BatchView::fresh(batch_size).observe_all::<P>(samples).commit::<P>().committed == samples,
        BatchView::fresh(batch_size).observe_all::<P>(samples).total::<P>() == samples,
        BatchView::fresh(batch_size).observe_all::<P>(samples).total::<P>().len() == samples.len(),
{
    reveal(Seq::filter);
    let fresh = BatchView::fresh(batch_size);
    lemma_conservation::<P>(fresh, samples);
    lemma_kept_all::<P>(samples);
    assert(fresh.total::<P>() =~= Seq::<Sample>::empty());
    assert(fresh.total::<P>() + kept::<P>(samples) =~= samples);
}

/// Wraps a provider `P` to batch measurements according to the configured batch
/// size, so that the provider is fed once per batch and not once per sample.
///
/// The provider has one owner. Where many threads observe at once, each of the
/// steps taken here is taken by one of them, as `crate::summary::shared` sets out.
#[derive(Clone)]
pub struct BatchedSummary<P> {
    measurements: Batch,
    batch_size: usize,
    inner: P,
}

impl<P: NonConcurrentSummaryProvider> View for BatchedSummary<P> {
    type V = BatchView;

    closed spec fn view(&self) -> BatchView {
        BatchView {
            batch_size: self.batch_size as nat,
            pending: samples_of(batch_bits(self.measurements)),
            committed: self.inner.recorded(),
        }
    }
}

impl<P: NonConcurrentSummaryProvider> BatchedSummary<P> {
    /// The inner provider.
    pub closed spec fn inner(&self) -> P {
        self.inner
    }

    /// A batched provider around a new inner provider.
    ///
    /// A batch size of zero is turned down, and so is whatever the inner provider
    /// turns down.
    pub fn new(opts: &BatchOpts<P::Opts>) -> (built: Result<Self, ConfigError>)
        ensures
            match built {
                Ok(summary) => opts.batch_size > 0 && P::rejection(&opts.inner) is None
                    && summary@ == BatchView::fresh(opts.batch_size as nat),
                Err(e) => if opts.batch_size == 0 {
                    e == ConfigError::ZeroBatchSize
                } else {
                    P::rejection(&opts.inner) == Some(e)
                },
            },
    {
        if opts.batch_size == 0 {
            return Err(ConfigError::ZeroBatchSize);
        }
        match P::new_provider(&opts.inner) {
            Ok(inner) => {
                let built = Self { measurements: batch_new(), batch_size: opts.batch_size, inner };
                assert(built@.pending =~= Seq::<Sample>::empty());
                Ok(built)
            },
            Err(e) => Err(e),
        }
    }

    /// The number of pending samples at which the batch is committed.
    pub fn batch_size(&self) -> (n: usize)
        ensures
            n == self@.batch_size,
    {
        self.batch_size
    }

    /// The number of samples that wait in the current batch.
    pub fn pending_len(&self) -> (n: usize)
        ensures
            n == self@.pending.len(),
    {
        batch_len(&self.measurements)
    }

    /// Commits the current batch to the inner provider and installs an empty batch.
    ///
    /// With an empty batch this does nothing: the inner provider is the one it was.
    pub fn commit(&mut self)
        ensures
            final(self)@ == old(self)@.commit::<P>(),
            old(self)@.pending.len() == 0 ==> final(self).inner() == old(self).inner()
                && final(self)@ == old(self)@,
    {
        let mut batch = batch_new();
        core::mem::swap(&mut batch, &mut self.measurements);
        let samples = batch_into_samples(batch);
        drain_into(&mut self.inner, &samples);
        proof {
            reveal(Seq::filter);
            assert(self@.pending =~= Seq::<Sample>::empty());
            if old(self)@.pending.len() == 0 {
                assert(old(self)@.pending =~= Seq::<Sample>::empty());
                assert(old(self)@.committed + kept::<P>(old(self)@.pending) == old(self)@.committed);
            }
        }
    }

    /// Commits the current batch and hands out the inner provider.
    pub fn into_inner(self) -> (inner: P)
        ensures
            inner.recorded() == self@.total::<P>(),
    {
        let mut this = self;
        this.commit();
        this.inner
    }
}

impl<P: NonConcurrentSummaryProvider> NonConcurrentSummaryProvider for BatchedSummary<P> {
    type Opts = BatchOpts<P::Opts>;

    type Summary = P::Summary;

    open spec fn rejection(opts: &Self::Opts) -> Option<ConfigError> {
        if opts.batch_size == 0 {
            Some(ConfigError::ZeroBatchSize)
        } else {
            P::rejection(&opts.inner)
        }
    }

    open spec fn records(sample: Sample) -> bool {
        P::records(sample)
    }

    open spec fn recorded(&self) -> Seq<Sample> {
        self@.total::<P>()
    }

    fn new_provider(opts: &Self::Opts) -> (built: Result<Self, ConfigError>)
        ensures
            built matches Ok(summary) ==> summary@ == BatchView::fresh(opts.batch_size as nat),
    {
        let built = Self::new(opts);
        proof {
            reveal(Seq::filter);
            if built is Ok {
                assert(built->Ok_0@.total::<P>() == Seq::<Sample>::empty());
            }
        }
        built
    }

    /// Appends the sample to the current batch, and commits the batch if that
    /// fills it. A batch that has reached the capacity of its container is
    /// committed before the sample is appended.
    fn observe(&mut self, sample: Sample)
        ensures
            final(self)@ == old(self)@.observe::<P>(sample),
    {
        if batch_len(&self.measurements) >= BATCH_CAPACITY {
            self.commit();
        }
        let ghost room = self@;
        assert(room == old(self)@.with_room::<P>());
        assert(room.pending.len() == batch_bits(self.measurements).len());
        batch_push(&mut self.measurements, sample.to_bits());
        proof {
            assert(self@.pending =~= room.pending.push(sample));
            lemma_kept_push::<P>(room.pending, sample);
        }
        if batch_is_full(batch_len(&self.measurements), self.batch_size) {
            self.commit();
        }
        proof {
            reveal(Seq::filter);
        }
    }

    /// Commits the current batch, then takes the inner provider's snapshot, which
    /// counts every sample that the inner provider keeps of those observed.
    fn snapshot(&mut self) -> (summary: Self::Summary)
        ensures
            final(self)@ == old(self)@.commit::<P>(),
    {
        self.commit();
        proof {
            reveal(Seq::filter);
        }
        self.inner.snapshot()
    }
}

} // verus!
