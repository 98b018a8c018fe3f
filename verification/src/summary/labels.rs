//! The label pairs of one metric.
//!
//! A metric carries constant labels, fixed when it is described, and variable
//! labels, whose names are fixed and whose values are given when the metric is
//! made. Together they are the metric's label pairs, in the order of their names.

use vstd::prelude::*;

verus! {

/// A label: its name and its value.
#[derive(Clone, Debug, PartialEq, Eq)]
pub struct LabelPair {
    pub name: String,
    pub value: String,
}

/// What a metric's description says of its labels.
#[derive(Clone, Debug)]
pub struct Description {
    /// The names of the labels whose values are given with each metric.
    pub variable_labels: Vec<String>,
    /// The constant labels, in the order of their names.
    pub const_label_pairs: Vec<LabelPair>,
}

/// Why label values do not fit a description.
#[derive(Clone, Copy, Debug, PartialEq, Eq, Structural)]
pub enum LabelError {
    /// There are `got` label values for `expect` variable labels.
    InconsistentCardinality { expect: usize, got: usize },
}

/// The order of strings: text `a` comes before text `b`, or is `b`.
///
/// Texts are compared character by character, each character by its position
/// in the code charts; a text comes before every longer text that starts with it.
pub open spec fn text_le(a: Seq<char>, b: Seq<char>) -> bool
    decreases a.len(),
{
    if a.len() == 0 {
        true
    } else if b.len() == 0 {
        false
    } else if a[0] != b[0] {
        (a[0] as int) < (b[0] as int)
    } else {
        text_le(a.drop_first(), b.drop_first())
    }
}

/// The order of strings is total.
pub proof fn lemma_text_le_total(a: Seq<char>, b: Seq<char>)
    ensures
        text_le(a, b) || text_le(b, a),
    decreases a.len(),
{
    if a.len() > 0 && b.len() > 0 {
        if a[0] == b[0] {
            lemma_text_le_total(a.drop_first(), b.drop_first());
        } else {
            assert(a[0] as int != b[0] as int);
        }
    }
}

/// The order of strings is transitive.
pub proof fn lemma_text_le_transitive(a: Seq<char>, b: Seq<char>, c: Seq<char>)
    requires
        text_le(a, b),
        text_le(b, c),
    ensures
        text_le(a, c),
    decreases a.len(),
{
    if a.len() > 0 && b.len() > 0 && c.len() > 0 && a[0] == b[0] && b[0] == c[0] {
        lemma_text_le_transitive(a.drop_first(), b.drop_first(), c.drop_first());
    }
}

/// Compares two strings with the order of `String`, which is the order of
/// their bytes and so, as the standard library documents, the order of their
/// characters' positions in the code charts.
#[verifier::external_body]
fn name_le(a: &String, b: &String) -> (le: bool)
    ensures
        le == text_le(a@, b@),
{
    a <= b
}

/// The pairs `sorted` with `pair` put in behind the last pair whose name is
/// not after its own.
pub open spec fn insert_by_name(sorted: Seq<LabelPair>, pair: LabelPair) -> Seq<LabelPair>
    decreases sorted.len(),
{
    if sorted.len() == 0 || text_le(sorted.last().name@, pair.name@) {
        sorted.push(pair)
    } else {
        insert_by_name(sorted.drop_last(), pair).push(sorted.last())
    }
}

/// The pairs in the order of their names; pairs of one name stay in the order
/// in which they came.
pub open spec fn sorted_by_name(pairs: Seq<LabelPair>) -> Seq<LabelPair>
    decreases pairs.len(),
{
    if pairs.len() == 0 {
        Seq::empty()
    } else {
        insert_by_name(sorted_by_name(pairs.drop_last()), pairs.last())
    }
}

/// Whether the names of the pairs never go down.
pub open spec fn names_ascend(pairs: Seq<LabelPair>) -> bool {
    forall|i: int, j: int|
        0 <= i < j < pairs.len() ==> text_le(#[trigger] pairs[i].name@, #[trigger] pairs[j].name@)
}

/// Putting a pair into ascending pairs keeps them ascending, adds the pair
/// and changes nothing else.
pub proof fn lemma_insert_by_name(sorted: Seq<LabelPair>, pair: LabelPair)
    requires
        names_ascend(sorted),
    ensures
        names_ascend(insert_by_name(sorted, pair)),
        insert_by_name(sorted, pair).to_multiset() == sorted.to_multiset().insert(pair),
        insert_by_name(sorted, pair).len() == sorted.len() + 1,
    decreases sorted.len(),
{
    broadcast use vstd::seq_lib::group_to_multiset_ensures;

    let out = insert_by_name(sorted, pair);
    if sorted.len() == 0 || text_le(sorted.last().name@, pair.name@) {
        assert forall|i: int, j: int| 0 <= i < j < out.len() implies text_le(
            #[trigger] out[i].name@,
            #[trigger] out[j].name@,
        ) by {
            if j == sorted.len() {
                if i < sorted.len() - 1 {
                    lemma_text_le_transitive(sorted[i].name@, sorted.last().name@, pair.name@);
                }
            }
        }
    } else {
        let front = sorted.drop_last();
        let last = sorted.last();
        assert(names_ascend(front));
        lemma_insert_by_name(front, pair);
        let inner = insert_by_name(front, pair);
        lemma_text_le_total(last.name@, pair.name@);
        assert(front.push(last) == sorted);
        assert forall|k: int| 0 <= k < inner.len() implies text_le(
            #[trigger] inner[k].name@,
            last.name@,
        ) by {
            inner.to_multiset_ensures();
            front.to_multiset_ensures();
            assert(inner.to_multiset().count(inner[k]) > 0);
            if inner[k] == pair {
            } else {
                assert(front.to_multiset().count(inner[k]) > 0);
                assert(front.contains(inner[k]));
                let m = choose|m: int| 0 <= m < front.len() && front[m] == inner[k];
                assert(sorted[m] == inner[k]);
                assert(text_le(sorted[m].name@, sorted[sorted.len() - 1].name@));
            }
        }
        assert forall|i: int, j: int| 0 <= i < j < out.len() implies text_le(
            #[trigger] out[i].name@,
            #[trigger] out[j].name@,
        ) by {
            if j < inner.len() {
                assert(text_le(inner[i].name@, inner[j].name@));
            }
        }
        assert(out.to_multiset() == sorted.to_multiset().insert(pair)) by {
            assert(out.to_multiset() =~= inner.to_multiset().insert(last));
            assert(sorted.to_multiset() =~= front.to_multiset().insert(last));
            assert(inner.to_multiset().insert(last) =~= front.to_multiset().insert(last).insert(
                pair,
            ));
        }
    }
}

/// Sorting by name gives the same pairs, each as often as before, with names
/// that never go down.
pub proof fn lemma_sorted_by_name(pairs: Seq<LabelPair>)
    ensures
        names_ascend(sorted_by_name(pairs)),
        sorted_by_name(pairs).to_multiset() == pairs.to_multiset(),
        sorted_by_name(pairs).len() == pairs.len(),
    decreases pairs.len(),
{
    broadcast use vstd::seq_lib::group_to_multiset_ensures;

    if pairs.len() == 0 {
        assert(pairs =~= Seq::<LabelPair>::empty());
    } else {
        lemma_sorted_by_name(pairs.drop_last());
        lemma_insert_by_name(sorted_by_name(pairs.drop_last()), pairs.last());
        assert(pairs.drop_last().push(pairs.last()) == pairs);
    }
}

/// Puts the pair into the sorted pairs, behind the last pair whose name is not
/// after its own.
fn insert_pair(sorted: &mut Vec<LabelPair>, pair: LabelPair)
    ensures
        final(sorted)@ == insert_by_name(old(sorted)@, pair),
{
    let mut j: usize = sorted.len();
    proof {
        assert(sorted@.take(j as int) == sorted@);
        assert(sorted@.skip(j as int) == Seq::<LabelPair>::empty());
        assert(insert_by_name(sorted@, pair) + Seq::<LabelPair>::empty() == insert_by_name(
            sorted@,
            pair,
        ));
    }
    while j > 0 && !name_le(&sorted[j - 1].name, &pair.name)
        invariant
            j <= sorted.len(),
            sorted@ == old(sorted)@,
            insert_by_name(sorted@, pair) == insert_by_name(sorted@.take(j as int), pair)
                + sorted@.skip(j as int),
        decreases j,
    {
        proof {
            let head = sorted@.take(j as int);
            assert(head.last() == sorted@[j - 1]);
            assert(head.drop_last() == sorted@.take(j - 1));
            assert(insert_by_name(head, pair) == insert_by_name(sorted@.take(j - 1), pair).push(
                sorted@[j - 1],
            ));
            assert(seq![sorted@[j - 1]] + sorted@.skip(j as int) == sorted@.skip(j - 1));
            assert(insert_by_name(sorted@.take(j - 1), pair).push(sorted@[j - 1]) + sorted@.skip(
                j as int,
            ) == insert_by_name(sorted@.take(j - 1), pair) + (seq![sorted@[j - 1]] + sorted@.skip(
                j as int,
            )));
        }
        j -= 1;
    }
    proof {
        let head = sorted@.take(j as int);
        if j > 0 {
            assert(head.last() == sorted@[j - 1]);
        }
        assert(insert_by_name(head, pair) == head.push(pair));
        assert(head.push(pair) + sorted@.skip(j as int) == sorted@.insert(j as int, pair));
    }
    sorted.insert(j, pair);
}

/// The pairs of the variable labels: each name with the value at its position.
pub open spec fn variable_pairs(names: Seq<String>, values: Seq<String>) -> Seq<LabelPair> {
    Seq::new(names.len(), |i: int| LabelPair { name: names[i], value: values[i] })
}

/// The label pairs of a metric with the given values for its variable labels.
///
/// Without variable labels they are the constant pairs as the description
/// holds them. Otherwise they are the variable pairs and the constant pairs
/// together, sorted by name.
pub open spec fn label_pairs_of(desc: Description, label_values: Seq<String>) -> Seq<LabelPair> {
    if desc.variable_labels@.len() == 0 {
        desc.const_label_pairs@
    } else {
        sorted_by_name(
            variable_pairs(desc.variable_labels@, label_values) + desc.const_label_pairs@,
        )
    }
}

/// The label pairs of a metric with the given values for its variable labels,
/// or the error that says that there is not one value for each variable label.
pub fn make_label_pairs(desc: &Description, label_values: &Vec<String>) -> (made: Result<
    Vec<LabelPair>,
    LabelError,
>)
    ensures
        match made {
            Ok(pairs) => desc.variable_labels@.len() == label_values@.len() && pairs@
                == label_pairs_of(*desc, label_values@),
            Err(e) => desc.variable_labels@.len() != label_values@.len() && e
                == (LabelError::InconsistentCardinality {
                expect: desc.variable_labels.len(),
                got: label_values.len(),
            }),
        },
{
    if desc.variable_labels.len() != label_values.len() {
        return Err(
            LabelError::InconsistentCardinality {
                expect: desc.variable_labels.len(),
                got: label_values.len(),
            },
        );
    }
    let ghost unsorted = variable_pairs(desc.variable_labels@, label_values@)
        + desc.const_label_pairs@;
    let mut label_pairs: Vec<LabelPair> = Vec::new();
    if desc.variable_labels.len() == 0 {
        let mut k: usize = 0;
        while k < desc.const_label_pairs.len()
            invariant
                k <= desc.const_label_pairs.len(),
                label_pairs@ == desc.const_label_pairs@.take(k as int),
            decreases desc.const_label_pairs.len() - k,
        {
            let pair = &desc.const_label_pairs[k];
            label_pairs.push(LabelPair { name: pair.name.clone(), value: pair.value.clone() });
            proof {
                assert(desc.const_label_pairs@.take(k + 1) == desc.const_label_pairs@.take(
                    k as int,
                ).push(desc.const_label_pairs@[k as int]));
            }
            k += 1;
        }
        proof {
            assert(desc.const_label_pairs@.take(k as int) == desc.const_label_pairs@);
        }
        return Ok(label_pairs);
    }
    let mut i: usize = 0;
    while i < desc.variable_labels.len()
        invariant
            i <= desc.variable_labels.len(),
            desc.variable_labels.len() == label_values.len(),
            unsorted == variable_pairs(desc.variable_labels@, label_values@)
                + desc.const_label_pairs@,
            label_pairs@ == sorted_by_name(unsorted.take(i as int)),
        decreases desc.variable_labels.len() - i,
    {
        let pair = LabelPair {
            name: desc.variable_labels[i].clone(),
            value: label_values[i].clone(),
        };
        proof {
            assert(unsorted.take(i + 1).drop_last() == unsorted.take(i as int));
            assert(unsorted.take(i + 1).last() == pair);
        }
        insert_pair(&mut label_pairs, pair);
        i += 1;
    }
    let mut k: usize = 0;
    while k < desc.const_label_pairs.len()
        invariant
            k <= desc.const_label_pairs.len(),
            i == desc.variable_labels.len(),
            unsorted == variable_pairs(desc.variable_labels@, label_values@)
                + desc.const_label_pairs@,
            label_pairs@ == sorted_by_name(unsorted.take(i + k)),
        decreases desc.const_label_pairs.len() - k,
    {
        let source = &desc.const_label_pairs[k];
        let pair = LabelPair { name: source.name.clone(), value: source.value.clone() };
        proof {
            assert(unsorted.take(i + k + 1).drop_last() == unsorted.take(i + k));
            assert(unsorted.take(i + k + 1).last() == pair);
        }
        insert_pair(&mut label_pairs, pair);
        k += 1;
    }
    proof {
        assert(unsorted.take(i + k) == unsorted);
    }
    Ok(label_pairs)
}

} // verus!
