use prometric::registration::{
    advance, failure_message, join, metric_id, Outcome, Progress, Stage,
};

#[test]
fn a_metric_that_is_accepted_is_registered() {
    assert_eq!(advance(Stage::Register, Outcome::Accepted), Progress::Done);
}

#[test]
fn a_metric_that_is_already_registered_is_overwritten() {
    assert_eq!(
        advance(Stage::Register, Outcome::AlreadyRegistered),
        Progress::Next(Stage::Unregister)
    );
    assert_eq!(advance(Stage::Unregister, Outcome::Accepted), Progress::Next(Stage::Overwrite));
    assert_eq!(advance(Stage::Overwrite, Outcome::Accepted), Progress::Done);
}

#[test]
fn every_other_failure_is_final() {
    assert_eq!(advance(Stage::Register, Outcome::Refused), Progress::Failed(Stage::Register));
    assert_eq!(advance(Stage::Unregister, Outcome::Refused), Progress::Failed(Stage::Unregister));
    assert_eq!(
        advance(Stage::Unregister, Outcome::AlreadyRegistered),
        Progress::Failed(Stage::Unregister)
    );
    assert_eq!(advance(Stage::Overwrite, Outcome::Refused), Progress::Failed(Stage::Overwrite));
    assert_eq!(
        advance(Stage::Overwrite, Outcome::AlreadyRegistered),
        Progress::Failed(Stage::Overwrite)
    );
}

#[test]
fn a_registration_ends_after_three_calls_at_most() {
    for outcomes in [
        [Outcome::AlreadyRegistered, Outcome::Accepted, Outcome::Accepted],
        [Outcome::AlreadyRegistered, Outcome::Accepted, Outcome::AlreadyRegistered],
        [Outcome::AlreadyRegistered, Outcome::AlreadyRegistered, Outcome::Accepted],
    ] {
        let mut stage = Stage::Register;
        let mut calls = 0;
        for outcome in outcomes {
            calls += 1;
            match advance(stage, outcome) {
                Progress::Next(next) => stage = next,
                Progress::Done | Progress::Failed(_) => break,
            }
        }
        assert!(calls <= 3);
        assert!(!matches!(advance(stage, outcomes[calls - 1]), Progress::Next(_)) || calls < 3);
    }
}

#[test]
fn labels_are_joined_with_the_separator_between_them() {
    assert_eq!(join(&vec![], ", "), "");
    assert_eq!(join(&vec!["host".to_owned()], ", "), "host");
    assert_eq!(join(&vec!["host".to_owned(), "port".to_owned()], ", "), "host, port");
    assert_eq!(join(&vec!["a".to_owned(), "".to_owned(), "c".to_owned()], "-"), "a--c");
    let parts = vec!["x".to_owned(), "y".to_owned(), "z".to_owned()];
    assert_eq!(join(&parts, ", "), parts.join(", "));
}

#[test]
fn a_metric_is_named_by_its_name_and_its_labels() {
    let labels = vec!["host".to_owned(), "port".to_owned()];
    assert_eq!(metric_id("requests", &labels), "requests, Labels: host, port");
    assert_eq!(metric_id("requests", &vec![]), "requests, Labels: ");
    assert_eq!(
        metric_id("requests", &labels),
        format!("{}, Labels: {}", "requests", labels.join(", "))
    );
}

#[test]
fn a_failure_names_the_stage_and_the_metric() {
    assert_eq!(failure_message(Stage::Register, "m, Labels: a"), "Failed to register metric m, Labels: a");
    assert_eq!(failure_message(Stage::Unregister, "m"), "Failed to unregister metric m");
    assert_eq!(failure_message(Stage::Overwrite, "m"), "Failed to overwrite metric m");
}
