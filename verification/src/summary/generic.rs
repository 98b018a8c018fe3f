//! What a summary shows of itself when it is exported.

use vstd::prelude::*;
use core::marker::PhantomData;
use crate::config::ConfigError;
use crate::sample::Sample;
use crate::summary::labels::{make_label_pairs, Description, LabelError, LabelPair};
use crate::summary::traits::{NonConcurrentSummaryProvider, Summary};

verus! {

/// The bit patterns of the quantile ranks that are exported unless others are
/// configured: 0, 0.5, 0.9, 0.95, 0.99, 0.999 and 1.
pub open spec fn default_quantile_bits() -> Seq<u64> {
    seq![
        0x0000_0000_0000_0000u64,
        0x3FE0_0000_0000_0000u64,
        0x3FEC_CCCC_CCCC_CCCDu64,
        0x3FEE_6666_6666_6666u64,
        0x3FEF_AE14_7AE1_47AEu64,
        0x3FEF_F7CE_D916_872Bu64,
        0x3FF0_0000_0000_0000u64,
    ]
}

/// The default quantile ranks, in ascending order.
pub open spec fn default_quantiles() -> Seq<Sample> {
    Seq::new(7, |i: int| Sample::from_bits_spec(default_quantile_bits()[i]))
}

/// The default quantile ranks are the samples of the default bit patterns.
pub proof fn lemma_default_quantiles()
    ensures
        default_quantiles().len() == 7,
        forall|i: int|
            0 <= i < 7 ==> (#[trigger] default_quantiles()[i])@ == default_quantile_bits()[i],
        forall|i: int| 0 <= i < 7 ==> (#[trigger] default_quantiles()[i]).is_rank(),
        forall|i: int, j: int|
            0 <= i < j < 7 ==> default_quantiles()[i]@ < default_quantiles()[j]@,
{
}

/// The quantile ranks that are exported unless others are configured.
pub fn default_quantile_ranks() -> (ranks: Vec<Sample>)
    ensures
        ranks@ == default_quantiles(),
{
    let mut ranks: Vec<Sample> = Vec::new();
    ranks.push(Sample::from_bits(0x0000_0000_0000_0000));
    ranks.push(Sample::from_bits(0x3FE0_0000_0000_0000));
    ranks.push(Sample::from_bits(0x3FEC_CCCC_CCCC_CCCD));
    ranks.push(Sample::from_bits(0x3FEE_6666_6666_6666));
    ranks.push(Sample::from_bits(0x3FEF_AE14_7AE1_47AE));
    ranks.push(Sample::from_bits(0x3FEF_F7CE_D916_872B));
    ranks.push(Sample::from_bits(0x3FF0_0000_0000_0000));
    assert(ranks@ =~= default_quantiles());
    ranks
}

/// `prometheus::Error`, the error of the metrics backend. It is handed on as it
/// came and never looked into.
#[verifier::external_type_specification]
#[verifier::external_body]
pub struct ExBackendError(prometheus::Error);

/// What every metric is described by.
#[derive(Clone, Debug)]
pub struct CommonOpts {
    /// The name of the metric.
    pub name: String,
    /// What the metric tells, for its readers.
    pub help: String,
    /// The labels that every sample of the metric carries, each name once.
    pub const_labels: Vec<LabelPair>,
    /// The names of the labels whose values are given with each metric.
    pub variable_labels: Vec<String>,
}

/// Configuration options for a `GenericSummary`.
#[derive(Clone)]
pub struct SummaryOpts<O> {
    pub common_opts: CommonOpts,
    /// Used to initialise the provider.
    pub summary_opts: O,
    /// Which quantiles to export.
    pub quantiles: Vec<Sample>,
}

impl<O> SummaryOpts<O> {
    /// Options for a metric of the given name, without labels, that exports the
    /// default quantiles.
    pub fn new(name: String, help: String, summary: O) -> (opts: Self)
        ensures
            opts.common_opts.name == name,
            opts.common_opts.help == help,
            opts.common_opts.const_labels@.len() == 0,
            opts.common_opts.variable_labels@.len() == 0,
            opts.summary_opts == summary,
            opts.quantiles@ == default_quantiles(),
    {
        Self {
            common_opts: CommonOpts {
                name,
                help,
                const_labels: Vec::new(),
                variable_labels: Vec::new(),
            },
            summary_opts: summary,
            quantiles: default_quantile_ranks(),
        }
    }

    /// The same options with other constant labels.
    pub fn const_labels(self, const_labels: Vec<LabelPair>) -> (opts: Self)
        ensures
            opts.common_opts.const_labels == const_labels,
            opts.common_opts.name == self.common_opts.name,
            opts.common_opts.help == self.common_opts.help,
            opts.common_opts.variable_labels == self.common_opts.variable_labels,
            opts.summary_opts == self.summary_opts,
            opts.quantiles == self.quantiles,
    {
        let mut opts = self;
        opts.common_opts.const_labels = const_labels;
        opts
    }

    /// The same options with other variable labels.
    pub fn variable_labels(self, variable_labels: Vec<String>) -> (opts: Self)
        ensures
            opts.common_opts.variable_labels == variable_labels,
            opts.common_opts.name == self.common_opts.name,
            opts.common_opts.help == self.common_opts.help,
            opts.common_opts.const_labels == self.common_opts.const_labels,
            opts.summary_opts == self.summary_opts,
            opts.quantiles == self.quantiles,
    {
        let mut opts = self;
        opts.common_opts.variable_labels = variable_labels;
        opts
    }

    /// The same options with other quantiles to export.
    pub fn quantiles(self, quantiles: Vec<Sample>) -> (opts: Self)
        ensures
            opts.quantiles == quantiles,
            opts.common_opts == self.common_opts,
            opts.summary_opts == self.summary_opts,
    {
        let mut opts = self;
        opts.quantiles = quantiles;
        opts
    }
}

/// Whether a name can start with the character: a letter of the basic Latin
/// alphabet or an underscore.
pub open spec fn starts_label(c: char) -> bool {
    (0x41 <= c as int <= 0x5A) || (0x61 <= c as int <= 0x7A) || c == '_'
}

/// Whether the character is one of the ten digits.
pub open spec fn is_digit(c: char) -> bool {
    0x30 <= c as int <= 0x39
}

/// Whether the text can name a label: letters, digits and underscores, no
/// digit in front, at least one character.
pub open spec fn valid_label_name(name: Seq<char>) -> bool {
    &&& name.len() > 0
    &&& starts_label(name[0])
    &&& forall|i: int| 0 < i < name.len() ==> starts_label(#[trigger] name[i]) || is_digit(name[i])
}

/// Whether the text can name a metric: as a label name, and colons too.
pub open spec fn valid_metric_name(name: Seq<char>) -> bool {
    &&& name.len() > 0
    &&& (starts_label(name[0]) || name[0] == ':')
    &&& forall|i: int|
        0 < i < name.len() ==> starts_label(#[trigger] name[i]) || is_digit(name[i]) || name[i]
            == ':'
}

/// Whether no two of the pairs have one name.
pub open spec fn names_distinct(pairs: Seq<LabelPair>) -> bool {
    forall|i: int, j: int|
        0 <= i < j < pairs.len() ==> (#[trigger] pairs[i]).name@ != (#[trigger] pairs[j]).name@
}

/// Whether the backend accepts the description of a metric: the help is not
/// empty, the names of the metric and of its labels are valid, and no two
/// variable labels have one name.
pub open spec fn describable(opts: CommonOpts) -> bool {
    &&& opts.help@.len() > 0
    &&& valid_metric_name(opts.name@)
    &&& forall|i: int|
        0 <= i < opts.const_labels@.len() ==> valid_label_name(
            (#[trigger] opts.const_labels@[i]).name@,
        )
    &&& forall|i: int|
        0 <= i < opts.variable_labels@.len() ==> valid_label_name(
            (#[trigger] opts.variable_labels@[i])@,
        )
    &&& forall|i: int, j: int|
        0 <= i < j < opts.variable_labels@.len() ==> (#[trigger] opts.variable_labels@[i])@ != (
        #[trigger] opts.variable_labels@[j])@
}

/// Has the backend describe the metric: `prometheus::core::Describer::describe`
/// on a `prometheus::Opts` of the same name, help and labels, without
/// namespace or subsystem.
///
/// The backend turns down an empty help, an invalid name and a variable label
/// that comes twice, and nothing else. Its description holds the variable
/// labels as given and the constant labels sorted by name.
#[verifier::external_body]
fn describe(opts: &CommonOpts) -> (described: Result<Description, prometheus::Error>)
    requires
        names_distinct(opts.const_labels@),
    ensures
        described is Ok <==> describable(*opts),
        described matches Ok(desc) ==> desc.variable_labels@ == opts.variable_labels@
            && desc.const_label_pairs@ == crate::summary::labels::sorted_by_name(
            opts.const_labels@,
        ),
{
    let labels = opts.const_labels.iter().map(|p| (p.name.clone(), p.value.clone())).collect();
    let backend = prometheus::Opts::new(opts.name.clone(), opts.help.clone())
        .const_labels(labels)
        .variable_labels(opts.variable_labels.clone());
    let desc = prometheus::core::Describer::describe(&backend)?;
    let pairs = desc.const_label_pairs.iter();
    Ok(
        Description {
            variable_labels: desc.variable_labels,
            const_label_pairs: pairs.map(
                |p| LabelPair { name: p.name().to_owned(), value: p.value().to_owned() },
            ).collect(),
        },
    )
}

/// Whether the pair at the position is the first whose name an earlier pair has.
pub open spec fn first_repeated_at(pairs: Seq<LabelPair>, index: usize) -> bool {
    &&& index < pairs.len()
    &&& names_distinct(pairs.take(index as int))
    &&& exists|i: int| 0 <= i < index && pairs[i].name@ == pairs[index as int].name@
}

/// The label pairs of a described metric with the given values for its
/// variable labels: the constant labels sorted by name, and with variable
/// labels, these and the variable pairs together, sorted by name.
pub open spec fn described_pairs(opts: CommonOpts, label_values: Seq<String>) -> Seq<LabelPair> {
    let const_pairs = crate::summary::labels::sorted_by_name(opts.const_labels@);
    if opts.variable_labels@.len() == 0 {
        const_pairs
    } else {
        crate::summary::labels::sorted_by_name(
            crate::summary::labels::variable_pairs(opts.variable_labels@, label_values)
                + const_pairs,
        )
    }
}

/// The position of the first pair whose name an earlier pair has, if there is one.
pub fn first_repeated_name(pairs: &Vec<LabelPair>) -> (found: Option<usize>)
    ensures
        found is None <==> names_distinct(pairs@),
        found matches Some(j) ==> first_repeated_at(pairs@, j),
{
    let mut j: usize = 0;
    while j < pairs.len()
        invariant
            j <= pairs.len(),
            names_distinct(pairs@.take(j as int)),
        decreases pairs.len() - j,
    {
        let mut i: usize = 0;
        while i < j
            invariant
                i <= j < pairs.len(),
                names_distinct(pairs@.take(j as int)),
                forall|k: int| 0 <= k < i ==> (#[trigger] pairs@[k]).name@ != pairs@[j as int].name@,
            decreases j - i,
        {
            if pairs[i].name == pairs[j].name {
                proof {
                    assert(pairs@[i as int].name@ == pairs@[j as int].name@);
                }
                return Some(j);
            }
            i += 1;
        }
        proof {
            let wider = pairs@.take(j + 1);
            assert forall|a: int, b: int| 0 <= a < b < wider.len() implies (#[trigger] wider[a]).name@
                != (#[trigger] wider[b]).name@ by {
                if b < j {
                    assert(pairs@.take(j as int)[a] == wider[a]);
                    assert(pairs@.take(j as int)[b] == wider[b]);
                }
            }
        }
        j += 1;
    }
    proof {
        assert(pairs@.take(j as int) == pairs@);
    }
    None
}

/// Why a summary metric cannot be made.
#[derive(Debug)]
pub enum SummaryError {
    /// The constant label at this position has the name of an earlier one.
    DuplicateConstLabel { index: usize },
    /// The backend turns the description down.
    Description(prometheus::Error),
    /// The label values do not fit the variable labels.
    Labels(LabelError),
    /// The provider turns its options down.
    Config(ConfigError),
}

/// One exported quantile: the rank, and the estimate at that rank.
#[derive(Clone, Copy, Debug, PartialEq, Eq, Structural)]
pub struct QuantileValue {
    pub quantile: Sample,
    pub value: Sample,
}

/// What a summary exports: the sum and the count of its samples, and the
/// estimates at the configured quantiles.
#[derive(Clone, Debug)]
pub struct SummaryProto {
    pub sample_sum: Sample,
    pub sample_count: u64,
    pub quantiles: Vec<QuantileValue>,
}

/// The estimates of the summary at the given ranks, in their order. A rank at
/// which the summary has no estimate is left out.
pub open spec fn exported<S: Summary>(summary: S, ranks: Seq<Sample>) -> Seq<QuantileValue>
    decreases ranks.len(),
{
    if ranks.len() == 0 {
        Seq::empty()
    } else {
        let front = exported(summary, ranks.drop_last());
        match summary.quantile_at(ranks.last()) {
            Some(value) => front.push(QuantileValue { quantile: ranks.last(), value }),
            None => front,
        }
    }
}

/// Whether the export is that of the given summary at the given ranks.
pub open spec fn exports<S: Summary>(proto: SummaryProto, summary: S, ranks: Seq<Sample>) -> bool {
    &&& proto.sample_sum == summary.sum()
    &&& proto.sample_count == summary.count()
    &&& proto.quantiles@ == exported(summary, ranks)
}

/// An export holds one estimate for each rank at which the summary has one:
/// never more than there are ranks, and none at a rank outside zero to one.
pub proof fn lemma_exported<S: Summary>(summary: S, ranks: Seq<Sample>)
    ensures
        exported(summary, ranks).len() <= ranks.len(),
        forall|i: int|
            0 <= i < exported(summary, ranks).len() ==> ranks.contains(
                (#[trigger] exported(summary, ranks)[i]).quantile,
            ) && summary.quantile_at(exported(summary, ranks)[i].quantile) == Some(
                exported(summary, ranks)[i].value,
            ),
    decreases ranks.len(),
{
    if ranks.len() > 0 {
        let front = ranks.drop_last();
        lemma_exported(summary, front);
        let out = exported(summary, ranks);
        assert forall|i: int| 0 <= i < out.len() implies ranks.contains((#[trigger] out[i]).quantile)
            && summary.quantile_at(out[i].quantile) == Some(out[i].value) by {
            if i < exported(summary, front).len() {
                let q = exported(summary, front)[i].quantile;
                assert(front.contains(q));
                let k = choose|k: int| 0 <= k < front.len() && front[k] == q;
                assert(ranks[k] == q);
            } else {
                assert(ranks[ranks.len() - 1] == out[i].quantile);
            }
        }
    }
}

/// Reads the summary out: its sum, its count and its estimates at the ranks.
pub fn export<S: Summary>(summary: &S, quantiles: &Vec<Sample>) -> (proto: SummaryProto)
    ensures
        exports(proto, *summary, quantiles@),
{
    let mut values: Vec<QuantileValue> = Vec::new();
    let mut i: usize = 0;
    proof {
        assert(quantiles@.take(0) == Seq::<Sample>::empty());
    }
    while i < quantiles.len()
        invariant
            i <= quantiles.len(),
            values@ == exported(*summary, quantiles@.take(i as int)),
        decreases quantiles.len() - i,
    {
        let quantile = quantiles[i];
        proof {
            assert(quantiles@.take(i + 1).drop_last() == quantiles@.take(i as int));
            assert(quantiles@.take(i + 1).last() == quantile);
        }
        match summary.quantile(quantile) {
            Some(value) => {
                values.push(QuantileValue { quantile, value });
            },
            None => {},
        }
        i += 1;
    }
    proof {
        assert(quantiles@.take(i as int) == quantiles@);
    }
    SummaryProto {
        sample_sum: summary.sample_sum(),
        sample_count: summary.sample_count(),
        quantiles: values,
    }
}

/// A summary metric: a provider `P` that collects the observations, the label
/// pairs of the metric, and the quantiles that it exports.
#[derive(Clone)]
pub struct GenericSummary<P> {
    label_pairs: Vec<LabelPair>,
    provider: P,
    quantiles: Vec<Sample>,
}

/// What making a summary metric comes to, once the backend has described the
/// metric or turned it down.
///
/// A description that the backend turned down is the error. Label values that
/// do not fit the description are the next. Then the provider is built, and
/// what it turns down is the last.
pub fn assemble<P: NonConcurrentSummaryProvider>(
    described: Result<Description, prometheus::Error>,
    opts: &SummaryOpts<P::Opts>,
    label_values: &Vec<String>,
) -> (made: Result<GenericSummary<P>, SummaryError>)
    ensures
        match made {
            Ok(summary) => {
                &&& described matches Ok(desc) && desc.variable_labels@.len() == label_values@.len()
                    && summary.label_pairs() == crate::summary::labels::label_pairs_of(
                    desc,
                    label_values@,
                )
                &&& P::rejection(&opts.summary_opts) is None
                &&& summary.inner().recorded() == Seq::<Sample>::empty()
                &&& summary.quantile_ranks() == opts.quantiles@
            },
            Err(SummaryError::Description(e)) => described == Err::<Description, prometheus::Error>(
                e,
            ),
            Err(SummaryError::Labels(e)) => described matches Ok(desc) && desc.variable_labels@.len()
                != label_values@.len() && e == (LabelError::InconsistentCardinality {
                expect: desc.variable_labels.len(),
                got: label_values.len(),
            }),
            Err(SummaryError::Config(e)) => described matches Ok(desc) && desc.variable_labels@.len()
                == label_values@.len() && P::rejection(&opts.summary_opts) == Some(e),
            Err(SummaryError::DuplicateConstLabel { .. }) => false,
        },
{
    let desc = match described {
        Ok(desc) => desc,
        Err(e) => {
            return Err(SummaryError::Description(e));
        },
    };
    let label_pairs = match make_label_pairs(&desc, label_values) {
        Ok(pairs) => pairs,
        Err(e) => {
            return Err(SummaryError::Labels(e));
        },
    };
    match P::new_provider(&opts.summary_opts) {
        Ok(provider) => Ok(
            GenericSummary { label_pairs, provider, quantiles: opts.quantiles.clone() },
        ),
        Err(e) => Err(SummaryError::Config(e)),
    }
}

impl<P: NonConcurrentSummaryProvider> GenericSummary<P> {
    /// The label pairs of the metric, sorted by name.
    pub closed spec fn label_pairs(&self) -> Seq<LabelPair> {
        self.label_pairs@
    }

    /// The ranks of the quantiles that the metric exports.
    pub closed spec fn quantile_ranks(&self) -> Seq<Sample> {
        self.quantiles@
    }

    /// The provider behind the metric.
    #[verifier::when_used_as_spec(inner_spec)]
    pub fn inner(&self) -> (provider: &P)
        ensures
            provider == self.inner_spec(),
    {
        &self.provider
    }

    /// The provider behind the metric.
    pub closed spec fn inner_spec(&self) -> &P {
        &self.provider
    }

    /// The provider behind the metric, to feed it or to read it. The label
    /// pairs and the quantiles of the metric stay as they are.
    pub fn inner_mut(&mut self) -> (provider: &mut P)
        ensures
            *provider == *old(self).inner(),
            *final(self).inner() == *final(provider),
            final(self).label_pairs() == old(self).label_pairs(),
            final(self).quantile_ranks() == old(self).quantile_ranks(),
    {
        &mut self.provider
    }

    /// The label pairs of the metric, sorted by name.
    pub fn label_pairs_of(&self) -> (pairs: &Vec<LabelPair>)
        ensures
            pairs@ == self.label_pairs(),
    {
        &self.label_pairs
    }

    /// The ranks of the quantiles that the metric exports.
    pub fn quantiles(&self) -> (ranks: &Vec<Sample>)
        ensures
            ranks@ == self.quantile_ranks(),
    {
        &self.quantiles
    }

    /// A summary metric with the given values for its variable labels.
    ///
    /// Constant labels of one name are turned down first. Then the backend
    /// describes the metric, and all goes on as `assemble` says.
    pub fn new(opts: &SummaryOpts<P::Opts>, label_values: &Vec<String>) -> (made: Result<
        Self,
        SummaryError,
    >)
        ensures
            match made {
                Ok(summary) => {
                    &&& names_distinct(opts.common_opts.const_labels@)
                    &&& describable(opts.common_opts)
                    &&& opts.common_opts.variable_labels@.len() == label_values@.len()
                    &&& P::rejection(&opts.summary_opts) is None
                    &&& summary.label_pairs() == described_pairs(opts.common_opts, label_values@)
                    &&& summary.inner().recorded() == Seq::<Sample>::empty()
                    &&& summary.quantile_ranks() == opts.quantiles@
                },
                Err(SummaryError::DuplicateConstLabel { index }) => first_repeated_at(
                    opts.common_opts.const_labels@,
                    index,
                ),
                Err(SummaryError::Description(_)) => names_distinct(opts.common_opts.const_labels@)
                    && !describable(opts.common_opts),
                Err(SummaryError::Labels(e)) => names_distinct(opts.common_opts.const_labels@)
                    && describable(opts.common_opts) && opts.common_opts.variable_labels@.len()
                    != label_values@.len() && e == (LabelError::InconsistentCardinality {
                    expect: opts.common_opts.variable_labels.len(),
                    got: label_values.len(),
                }),
                Err(SummaryError::Config(e)) => names_distinct(opts.common_opts.const_labels@)
                    && describable(opts.common_opts) && opts.common_opts.variable_labels@.len()
                    == label_values@.len() && P::rejection(&opts.summary_opts) == Some(e),
            },
    {
        if let Some(index) = first_repeated_name(&opts.common_opts.const_labels) {
            return Err(SummaryError::DuplicateConstLabel { index });
        }
        let described = describe(&opts.common_opts);
        assemble(described, opts, label_values)
    }

    /// Records an observation.
    pub fn observe(&mut self, sample: Sample)
        ensures
            final(self).inner().recorded() == if P::records(sample) {
                old(self).inner().recorded().push(sample)
            } else {
                old(self).inner().recorded()
            },
            final(self).label_pairs() == old(self).label_pairs(),
            final(self).quantile_ranks() == old(self).quantile_ranks(),
    {
        self.provider.observe(sample);
    }

    /// Takes a snapshot of the provider and reads it out: the count of all that
    /// the provider has recorded, the sum, and the estimates at the configured
    /// quantiles that the snapshot has.
    pub fn proto(&mut self) -> (proto: SummaryProto)
        ensures
            final(self).inner().recorded() == old(self).inner().recorded(),
            final(self).label_pairs() == old(self).label_pairs(),
            final(self).quantile_ranks() == old(self).quantile_ranks(),
            proto.sample_count == old(self).inner().recorded().len(),
            exists|snapshot: P::Summary|
                snapshot.count() == old(self).inner().recorded().len() && exports(
                    proto,
                    snapshot,
                    old(self).quantile_ranks(),
                ),
    {
        let snapshot = self.provider.snapshot();
        let proto = export(&snapshot, &self.quantiles);
        proof {
            assert(exports(proto, snapshot, self.quantiles@));
        }
        proto
    }
}

/// Builds the summary metrics of one family, each from the family's options
/// and its own label values.
pub struct SummaryVecBuilder<S> {
    _p: PhantomData<S>,
}

impl<S> Clone for SummaryVecBuilder<S> {
    fn clone(&self) -> Self {
        Self { _p: PhantomData }
    }
}

impl<P: NonConcurrentSummaryProvider> SummaryVecBuilder<P> {
    pub fn new() -> Self {
        Self { _p: PhantomData }
    }

    /// The summary metric of the family with the given label values: what
    /// `GenericSummary::new` makes of them.
    pub fn build(&self, opts: &SummaryOpts<P::Opts>, vals: &Vec<String>) -> (made: Result<
        GenericSummary<P>,
        SummaryError,
    >)
        ensures
            made is Ok <==> {
                &&& names_distinct(opts.common_opts.const_labels@)
                &&& describable(opts.common_opts)
                &&& opts.common_opts.variable_labels@.len() == vals@.len()
                &&& P::rejection(&opts.summary_opts) is None
            },
            made matches Ok(summary) ==> {
                &&& summary.label_pairs() == described_pairs(opts.common_opts, vals@)
                &&& summary.inner().recorded() == Seq::<Sample>::empty()
                &&& summary.quantile_ranks() == opts.quantiles@
            },
    {
        GenericSummary::new(opts, vals)
    }
}

} // verus!
