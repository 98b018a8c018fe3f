//! Registering a metric, and taking the place of one that is registered already.
//!
//! A metric is registered with the registry. If the registry already holds a
//! metric of that description, the old one is unregistered and the new one is
//! registered in its place. Every other failure is final. The calls on the
//! registry are the caller's; which call comes next, and when all is done or
//! lost, is decided here.

use vstd::prelude::*;
use vstd::string::*;

verus! {

/// The call on the registry that is due.
#[derive(Clone, Copy, Debug, PartialEq, Eq, Structural)]
pub enum Stage {
    /// Register the metric.
    Register,
    /// Unregister the metric that is in the way.
    Unregister,
    /// Register the metric in the place of the one that was in the way.
    Overwrite,
}

/// What the registry said to a call.
#[derive(Clone, Copy, Debug, PartialEq, Eq, Structural)]
pub enum Outcome {
    /// The call succeeded.
    Accepted,
    /// A metric of this description is registered already.
    AlreadyRegistered,
    /// The call failed for another reason.
    Refused,
}

/// What follows a call on the registry.
#[derive(Clone, Copy, Debug, PartialEq, Eq, Structural)]
pub enum Progress {
    /// The metric is registered.
    Done,
    /// Another call is due.
    Next(Stage),
    /// The call of this stage failed for good.
    Failed(Stage),
}

/// What follows the call of `stage`, given what the registry said to it.
pub open spec fn progress(stage: Stage, outcome: Outcome) -> Progress {
    match (stage, outcome) {
        (_, Outcome::Accepted) => match stage {
            Stage::Register => Progress::Done,
            Stage::Unregister => Progress::Next(Stage::Overwrite),
            Stage::Overwrite => Progress::Done,
        },
        (Stage::Register, Outcome::AlreadyRegistered) => Progress::Next(Stage::Unregister),
        _ => Progress::Failed(stage),
    }
}

/// What follows the call of `stage`, given what the registry said to it.
pub fn advance(stage: Stage, outcome: Outcome) -> (next: Progress)
    ensures
        next == progress(stage, outcome),
{
    match outcome {
        Outcome::Accepted => match stage {
            Stage::Register => Progress::Done,
            Stage::Unregister => Progress::Next(Stage::Overwrite),
            Stage::Overwrite => Progress::Done,
        },
        Outcome::AlreadyRegistered => match stage {
            Stage::Register => Progress::Next(Stage::Unregister),
            _ => Progress::Failed(stage),
        },
        Outcome::Refused => Progress::Failed(stage),
    }
}

/// The stages come in one order, so that no registration takes more than three
/// calls: after the first call only the second can be due, after the second
/// only the third, and after the third none.
pub proof fn lemma_registration_ends(stage: Stage, outcome: Outcome)
    ensures
        progress(stage, outcome) matches Progress::Next(next) ==> (stage == Stage::Register && next
            == Stage::Unregister) || (stage == Stage::Unregister && next == Stage::Overwrite),
{
}

/// The parts with the separator between each two of them.
pub open spec fn joined(parts: Seq<String>, separator: Seq<char>) -> Seq<char>
    decreases parts.len(),
{
    if parts.len() == 0 {
        Seq::empty()
    } else if parts.len() == 1 {
        parts[0]@
    } else {
        joined(parts.drop_last(), separator) + separator + parts.last()@
    }
}

/// The parts with the separator between each two of them.
pub fn join(parts: &Vec<String>, separator: &str) -> (text: String)
    ensures
        text@ == joined(parts@, separator@),
{
    let mut text = String::new();
    let mut i: usize = 0;
    proof {
        assert(parts@.take(0) == Seq::<String>::empty());
    }
    while i < parts.len()
        invariant
            i <= parts.len(),
            text@ == joined(parts@.take(i as int), separator@),
        decreases parts.len() - i,
    {
        proof {
            assert(parts@.take(i + 1).drop_last() == parts@.take(i as int));
            assert(parts@.take(i + 1).last() == parts@[i as int]);
            if i == 0 {
                assert(Seq::<char>::empty() + parts@[0]@ == parts@[0]@);
                assert(parts@.take(1)[0] == parts@[0]);
            }
        }
        if i > 0 {
            text.append(separator);
        }
        text.append(parts[i].as_str());
        i += 1;
    }
    proof {
        assert(parts@.take(i as int) == parts@);
    }
    text
}

/// How a metric is named in a message: its name and its labels.
pub open spec fn metric_id_of(name: Seq<char>, labels: Seq<String>) -> Seq<char> {
    name + ", Labels: "@ + joined(labels, ", "@)
}

/// How a metric is named in a message: its name and its labels.
pub fn metric_id(name: &str, labels: &Vec<String>) -> (id: String)
    ensures
        id@ == metric_id_of(name@, labels@),
{
    let mut id = name.to_owned();
    id.append(", Labels: ");
    let labels = join(labels, ", ");
    id.append(labels.as_str());
    id
}

/// The words that a failure at the stage begins with.
pub open spec fn failure_words(stage: Stage) -> Seq<char> {
    match stage {
        Stage::Register => "Failed to register metric "@,
        Stage::Unregister => "Failed to unregister metric "@,
        Stage::Overwrite => "Failed to overwrite metric "@,
    }
}

/// The message of a failure at the stage, for the metric of the given id.
pub fn failure_message(stage: Stage, id: &str) -> (message: String)
    ensures
        message@ == failure_words(stage) + id@,
{
    let mut message = match stage {
        Stage::Register => "Failed to register metric ".to_owned(),
        Stage::Unregister => "Failed to unregister metric ".to_owned(),
        Stage::Overwrite => "Failed to overwrite metric ".to_owned(),
    };
    message.append(id);
    message
}

} // verus!
