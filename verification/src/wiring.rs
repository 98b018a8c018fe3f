//! How the fields of a metrics struct are wired to metrics.
//!
//! Each field names a metric type and may carry a scope, a new name, labels, a
//! help text and the partitions of its values: buckets for a histogram,
//! quantiles for a summary. What a field's settings come to is settled here;
//! reading the field and writing the code for it is the caller's.

use vstd::prelude::*;
use vstd::string::*;
use crate::registration::{join, joined};

verus! {

/// The separator between the scope and the name of a metric.
pub const DEFAULT_SEPARATOR: &'static str = "_";

/// The type of a metric.
#[derive(Clone, Copy, Debug, PartialEq, Eq, Structural)]
pub enum MetricType {
    Counter,
    Gauge,
    Histogram,
    Summary,
}

/// What is wrong with the settings of a field.
#[derive(Clone, Copy, Debug, PartialEq, Eq, Structural)]
pub enum WiringError {
    /// The type of the field names no metric type.
    UnsupportedType,
    /// The field sets both buckets and quantiles.
    BucketsAndQuantiles,
    /// A histogram has buckets, not quantiles.
    QuantilesOnHistogram,
    /// A summary has quantiles, not buckets.
    BucketsOnSummary,
    /// The field has neither a help text nor documentation.
    NoHelp,
}

/// Which partition of its values a field sets for its metric.
#[derive(Clone, Copy, Debug, PartialEq, Eq)]
pub enum Partitions<E> {
    /// No partitions are set.
    Unset,
    /// The metric type has no partitions: a counter, a gauge.
    NotApplicable,
    /// The buckets of a histogram.
    Buckets(E),
    /// The quantiles of a summary.
    Quantiles(E),
}

impl<E> Partitions<E> {
    /// The buckets, if buckets are set.
    pub fn buckets(&self) -> (buckets: Option<&E>)
        ensures
            match self {
                Partitions::Buckets(e) => buckets == Some(e),
                _ => buckets is None,
            },
    {
        match self {
            Partitions::Buckets(buckets) => Some(buckets),
            _ => None,
        }
    }

    /// The quantiles, if quantiles are set.
    pub fn quantiles(&self) -> (quantiles: Option<&E>)
        ensures
            match self {
                Partitions::Quantiles(e) => quantiles == Some(e),
                _ => quantiles is None,
            },
    {
        match self {
            Partitions::Quantiles(quantiles) => Some(quantiles),
            _ => None,
        }
    }
}

impl MetricType {
    /// The name of the metric type.
    pub open spec fn name_of(self) -> Seq<char> {
        match self {
            MetricType::Counter => "Counter"@,
            MetricType::Gauge => "Gauge"@,
            MetricType::Histogram => "Histogram"@,
            MetricType::Summary => "Summary"@,
        }
    }

    /// The number type of a metric whose field names none: the default of a
    /// counter and of a gauge. The other metric types have no number type.
    pub fn default_number(&self) -> (path: Option<&'static str>)
        ensures
            match self {
                MetricType::Counter => path matches Some(p) && p@
                    == "::prometric::CounterDefault"@,
                MetricType::Gauge => path matches Some(p) && p@ == "::prometric::GaugeDefault"@,
                _ => path is None,
            },
    {
        match self {
            MetricType::Counter => Some("::prometric::CounterDefault"),
            MetricType::Gauge => Some("::prometric::GaugeDefault"),
            _ => None,
        }
    }

    /// The name of the metric type.
    pub fn name(&self) -> (name: &'static str)
        ensures
            name@ == self.name_of(),
    {
        match self {
            MetricType::Counter => "Counter",
            MetricType::Gauge => "Gauge",
            MetricType::Histogram => "Histogram",
            MetricType::Summary => "Summary",
        }
    }

    /// The metric type of the given name, which is the last segment of the
    /// field's type path.
    pub fn from_name(name: &str) -> (found: Result<MetricType, WiringError>)
        ensures
            match found {
                Ok(ty) => name@ == ty.name_of(),
                Err(e) => e == WiringError::UnsupportedType && forall|ty: MetricType|
                    name@ != #[trigger] ty.name_of(),
            },
    {
        let name = name.to_owned();
        if name == "Counter".to_owned() {
            Ok(MetricType::Counter)
        } else if name == "Gauge".to_owned() {
            Ok(MetricType::Gauge)
        } else if name == "Histogram".to_owned() {
            Ok(MetricType::Histogram)
        } else if name == "Summary".to_owned() {
            Ok(MetricType::Summary)
        } else {
            Err(WiringError::UnsupportedType)
        }
    }

    /// The partitions of a metric of this type, given the buckets and the
    /// quantiles that its field sets.
    ///
    /// A counter and a gauge have none, whatever is set. A histogram takes its
    /// buckets and turns quantiles down; a summary takes its quantiles and turns
    /// buckets down.
    pub fn partitions_for<E>(&self, maybe_buckets: Option<E>, maybe_quantiles: Option<E>) -> (found:
        Result<Partitions<E>, WiringError>)
        ensures
            found == match self {
                MetricType::Counter | MetricType::Gauge => Ok::<Partitions<E>, WiringError>(
                    Partitions::NotApplicable,
                ),
                MetricType::Histogram => match (maybe_quantiles, maybe_buckets) {
                    (Some(_), _) => Err(WiringError::QuantilesOnHistogram),
                    (None, Some(buckets)) => Ok(Partitions::Buckets(buckets)),
                    (None, None) => Ok(Partitions::Unset),
                },
                MetricType::Summary => match (maybe_buckets, maybe_quantiles) {
                    (Some(_), _) => Err(WiringError::BucketsOnSummary),
                    (None, Some(quantiles)) => Ok(Partitions::Quantiles(quantiles)),
                    (None, None) => Ok(Partitions::Unset),
                },
            },
    {
        match self {
            MetricType::Counter | MetricType::Gauge => Ok(Partitions::NotApplicable),
            MetricType::Histogram => {
                if maybe_quantiles.is_some() {
                    Err(WiringError::QuantilesOnHistogram)
                } else {
                    match maybe_buckets {
                        Some(buckets) => Ok(Partitions::Buckets(buckets)),
                        None => Ok(Partitions::Unset),
                    }
                }
            },
            MetricType::Summary => {
                if maybe_buckets.is_some() {
                    Err(WiringError::BucketsOnSummary)
                } else {
                    match maybe_quantiles {
                        Some(quantiles) => Ok(Partitions::Quantiles(quantiles)),
                        None => Ok(Partitions::Unset),
                    }
                }
            },
        }
    }
}

/// The shape of the arguments behind the last segment of a field's type path.
#[derive(Clone, Copy, Debug, PartialEq, Eq, Structural)]
pub enum ArgumentShape {
    /// No arguments: `Counter`.
    Absent,
    /// Arguments in angle brackets, `count` of them: `Counter<u64>`.
    AngleBracketed { count: usize, first_is_type: bool },
    /// Arguments in round brackets: `Counter(u64)`.
    Parenthesized,
}

/// Why the arguments of a field's type are turned down.
#[derive(Clone, Copy, Debug, PartialEq, Eq, Structural)]
pub enum ArgumentError {
    /// There is not exactly one argument in the angle brackets.
    NotSingle,
    /// The argument is not a type.
    NotAType,
    /// The arguments stand in round brackets.
    Parenthesized,
}

impl ArgumentError {
    /// The message of the error.
    pub fn message(&self) -> (text: &'static str)
        ensures
            text@ == match self {
                ArgumentError::NotSingle => "Expected a single generic argument"@,
                ArgumentError::NotAType => "Expected a type argument"@,
                ArgumentError::Parenthesized => "Expected a generic type argument"@,
            },
    {
        match self {
            ArgumentError::NotSingle => "Expected a single generic argument",
            ArgumentError::NotAType => "Expected a type argument",
            ArgumentError::Parenthesized => "Expected a generic type argument",
        }
    }
}

/// Whether the type of a field names its number type: it does with one type in
/// angle brackets and does not without arguments; everything else is an error.
pub fn generic_argument(shape: ArgumentShape) -> (given: Result<bool, ArgumentError>)
    ensures
        given == match shape {
            ArgumentShape::Absent => Ok::<bool, ArgumentError>(false),
            ArgumentShape::AngleBracketed { count, first_is_type } => if count != 1 {
                Err(ArgumentError::NotSingle)
            } else if first_is_type {
                Ok(true)
            } else {
                Err(ArgumentError::NotAType)
            },
            ArgumentShape::Parenthesized => Err(ArgumentError::Parenthesized),
        },
{
    match shape {
        ArgumentShape::Absent => Ok(false),
        ArgumentShape::AngleBracketed { count, first_is_type } => {
            if count != 1 {
                Err(ArgumentError::NotSingle)
            } else if first_is_type {
                Ok(true)
            } else {
                Err(ArgumentError::NotAType)
            }
        },
        ArgumentShape::Parenthesized => Err(ArgumentError::Parenthesized),
    }
}

/// The message that turns down a type that names no metric type.
pub fn unsupported_type_message(name: &str) -> (text: String)
    ensures
        text@ == "Unsupported metric type '"@ + name@ + "'. Use Counter, Gauge, or Histogram"@,
{
    let mut text = "Unsupported metric type '".to_owned();
    text.append(name);
    text.append("'. Use Counter, Gauge, or Histogram");
    text
}

impl WiringError {
    /// The message of the error.
    pub fn message(&self) -> (text: &'static str)
        ensures
            text@ == self.message_of(),
    {
        match self {
            WiringError::UnsupportedType => "Unsupported metric type. Use Counter, Gauge, or Histogram",
            WiringError::BucketsAndQuantiles => "The attributes `buckets` and `quantiles` are mutually exclusive",
            WiringError::QuantilesOnHistogram => "Invalid configuration for Histogram: `quantiles` is not a valid option, use `buckets` or switch to Summary.",
            WiringError::BucketsOnSummary => "Invalid configuration for Summary: `buckets` is not a valid option, use `quantiles` or switch to Histogram.",
            WiringError::NoHelp => "Unable to determine `help` label for metric. Provide an explicit `help` argument to `metric` or document the field",
        }
    }

    /// The message of the error.
    pub open spec fn message_of(&self) -> Seq<char> {
        match self {
            WiringError::UnsupportedType => "Unsupported metric type. Use Counter, Gauge, or Histogram"@,
            WiringError::BucketsAndQuantiles => "The attributes `buckets` and `quantiles` are mutually exclusive"@,
            WiringError::QuantilesOnHistogram => "Invalid configuration for Histogram: `quantiles` is not a valid option, use `buckets` or switch to Summary."@,
            WiringError::BucketsOnSummary => "Invalid configuration for Summary: `buckets` is not a valid option, use `quantiles` or switch to Histogram."@,
            WiringError::NoHelp => "Unable to determine `help` label for metric. Provide an explicit `help` argument to `metric` or document the field"@,
        }
    }
}

/// What a field says of its metric, as far as the wiring goes.
pub struct FieldSettings<E> {
    /// The name of the field.
    pub ident: String,
    /// The last segment of the field's type path.
    pub type_ident: String,
    /// The name to use for the metric in place of the field's name.
    pub rename: Option<String>,
    /// The help text of the metric.
    pub help: Option<String>,
    /// The documentation of the field, which is the help text if none is set.
    pub doc: Option<String>,
    /// The buckets of a histogram.
    pub buckets: Option<E>,
    /// The quantiles of a summary.
    pub quantiles: Option<E>,
}

/// What a field's settings come to.
pub struct Wiring<E> {
    /// The type of the metric.
    pub ty: MetricType,
    /// The full name of the metric: the scope, the separator, and the name.
    pub full_name: String,
    /// The help text of the metric.
    pub help: String,
    /// The buckets of a histogram or the quantiles of a summary.
    pub partitions: Partitions<E>,
}

/// The full name of a metric: the scope, an underscore, and the name.
pub open spec fn full_name_of(scope: Seq<char>, name: Seq<char>) -> Seq<char> {
    scope + seq!['_'] + name
}

/// The full name of a metric: the scope, an underscore, and the name.
pub fn full_name(scope: &str, name: &str) -> (full: String)
    ensures
        full@ == full_name_of(scope@, name@),
{
    let mut full = scope.to_owned();
    proof {
        reveal_strlit("_");
        assert(DEFAULT_SEPARATOR@ == seq!['_']);
    }
    full.append(DEFAULT_SEPARATOR);
    full.append(name);
    full
}

/// Whether the settings are turned down, and why: both partitions set, no help
/// to be had, a type that names no metric, or a partition that the metric type
/// does not take. The reasons are looked for in this order.
pub open spec fn wiring_error<E>(field: FieldSettings<E>) -> Option<WiringError> {
    if field.buckets is Some && field.quantiles is Some {
        Some(WiringError::BucketsAndQuantiles)
    } else if field.help is None && field.doc is None {
        Some(WiringError::NoHelp)
    } else if forall|ty: MetricType| field.type_ident@ != #[trigger] ty.name_of() {
        Some(WiringError::UnsupportedType)
    } else if field.type_ident@ == MetricType::Histogram.name_of() && field.quantiles is Some {
        Some(WiringError::QuantilesOnHistogram)
    } else if field.type_ident@ == MetricType::Summary.name_of() && field.buckets is Some {
        Some(WiringError::BucketsOnSummary)
    } else {
        None
    }
}

/// What the settings of a field come to, under the given scope.
///
/// The help text is the one that is set, else the documentation. The metric is
/// named by the new name if there is one, else by the field.
pub fn wire<E>(field: FieldSettings<E>, scope: &str) -> (wired: Result<Wiring<E>, WiringError>)
    ensures
        match wired {
            Ok(wiring) => {
                &&& wiring_error(field) is None
                &&& wiring.ty.name_of() == field.type_ident@
                &&& wiring.help == if field.help is Some {
                    field.help->Some_0
                } else {
                    field.doc->Some_0
                }
                &&& wiring.full_name@ == full_name_of(
                    scope@,
                    if field.rename is Some {
                        field.rename->Some_0@
                    } else {
                        field.ident@
                    },
                )
                &&& wiring.partitions == match wiring.ty {
                    MetricType::Counter | MetricType::Gauge => Partitions::<E>::NotApplicable,
                    MetricType::Histogram => match field.buckets {
                        Some(buckets) => Partitions::Buckets(buckets),
                        None => Partitions::Unset,
                    },
                    MetricType::Summary => match field.quantiles {
                        Some(quantiles) => Partitions::Quantiles(quantiles),
                        None => Partitions::Unset,
                    },
                }
            },
            Err(e) => wiring_error(field) == Some(e),
        },
{
    proof {
        lemma_names_differ();
    }
    let FieldSettings { ident, type_ident, rename, help, doc, buckets, quantiles } = field;
    if buckets.is_some() && quantiles.is_some() {
        return Err(WiringError::BucketsAndQuantiles);
    }
    let help = match help {
        Some(help) => help,
        None => match doc {
            Some(doc) => doc,
            None => {
                return Err(WiringError::NoHelp);
            },
        },
    };
    let metric_name = match rename {
        Some(rename) => rename,
        None => ident,
    };
    let full_name = full_name(scope, metric_name.as_str());
    let ty = match MetricType::from_name(type_ident.as_str()) {
        Ok(ty) => ty,
        Err(e) => {
            return Err(e);
        },
    };
    match ty.partitions_for(buckets, quantiles) {
        Ok(partitions) => Ok(Wiring { ty, full_name, help, partitions }),
        Err(e) => Err(e),
    }
}

/// No two metric types have one name.
pub proof fn lemma_names_differ()
    ensures
        forall|a: MetricType, b: MetricType| a.name_of() == b.name_of() ==> a == b,
{
    reveal_strlit("Counter");
    reveal_strlit("Gauge");
    reveal_strlit("Histogram");
    reveal_strlit("Summary");
    assert forall|a: MetricType, b: MetricType| a.name_of() == b.name_of() implies a == b by {
        assert(a.name_of().len() == b.name_of().len());
        assert(a.name_of()[0] == b.name_of()[0]);
    }
}

/// The words that tell the partitions of a metric in its documentation.
pub open spec fn partition_words<E>(ty: MetricType, partitions: Partitions<E>, shown: Seq<char>) -> Seq<
    char,
> {
    match ty {
        MetricType::Counter | MetricType::Gauge => Seq::empty(),
        MetricType::Histogram => if partitions is Buckets {
            "\n* Buckets: "@ + shown
        } else {
            "\n* Buckets: [`::prometheus::DEFAULT_BUCKETS`]"@
        },
        MetricType::Summary => if partitions is Quantiles {
            "\n* Quantiles: "@ + shown
        } else {
            "\n* Buckets: [`::prometric::summary::DEFAULT_QUANTILES`]"@
        },
    }
}

/// The documentation of the accessor of a metric.
pub open spec fn accessor_doc_of<E>(
    help: Seq<char>,
    ty: MetricType,
    labels: Seq<String>,
    partitions: Partitions<E>,
    shown: Seq<char>,
) -> Seq<char> {
    let head = help + "\n* Metric type: [`::prometric::"@ + ty.name_of() + "`]"@;
    let labelled = if labels.len() == 0 {
        head
    } else {
        head + "\n* Labels: "@ + joined(labels, ", "@) + "\n"@
    };
    labelled + partition_words(ty, partitions, shown)
}

/// The documentation of the accessor of a metric: its help, its type, its
/// labels if it has any, and its partitions. `shown` is the text of the
/// expression that the partitions hold, if they hold one.
pub fn accessor_doc<E>(
    help: &str,
    ty: MetricType,
    labels: &Vec<String>,
    partitions: &Partitions<E>,
    shown: &str,
) -> (doc: String)
    ensures
        doc@ == accessor_doc_of(help@, ty, labels@, *partitions, shown@),
{
    let mut doc = help.to_owned();
    doc.append("\n* Metric type: [`::prometric::");
    doc.append(ty.name());
    doc.append("`]");
    if labels.len() > 0 {
        doc.append("\n* Labels: ");
        let listed = join(labels, ", ");
        doc.append(listed.as_str());
        doc.append("\n");
    }
    match ty {
        MetricType::Counter | MetricType::Gauge => {
            proof {
                assert(doc@ + Seq::<char>::empty() == doc@);
            }
        },
        MetricType::Histogram => {
            match partitions {
                Partitions::Buckets(_) => {
                    doc.append("\n* Buckets: ");
                    doc.append(shown);
                },
                _ => {
                    doc.append("\n* Buckets: [`::prometheus::DEFAULT_BUCKETS`]");
                },
            }
        },
        MetricType::Summary => {
            match partitions {
                Partitions::Quantiles(_) => {
                    doc.append("\n* Quantiles: ");
                    doc.append(shown);
                },
                _ => {
                    doc.append("\n* Buckets: [`::prometric::summary::DEFAULT_QUANTILES`]");
                },
            }
        },
    }
    doc
}

} // verus!
