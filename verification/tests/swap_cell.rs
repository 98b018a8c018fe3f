use std::sync::Arc;

use prometric::swap_cell::{take_within, Holder, Ledger, Slot, Step};

fn within_one_of_the_guards(ledger: &Ledger) -> bool {
    (0..ledger.len()).all(|i| {
        let slot = ledger.slot(i).unwrap();
        slot.strong <= 1 + slot.guards
    })
}

#[test]
fn a_new_cell_is_the_only_owner_of_its_payload() {
    let ledger = Ledger::new();
    assert_eq!(ledger.len(), 1);
    assert_eq!(ledger.slot(0), Some(Slot { holder: Holder::Cell, strong: 1, guards: 0 }));
    assert_eq!(ledger.slot(1), None);
}

#[test]
fn a_guard_counts_as_one_reference_while_it_lives() {
    let mut ledger = Ledger::new();
    assert!(ledger.apply(Step::Load));
    assert!(ledger.apply(Step::Exchange));
    // The old payload: the writer's reference and the guard.
    assert_eq!(ledger.slot(0), Some(Slot { holder: Holder::Swapper, strong: 2, guards: 1 }));
    assert_eq!(ledger.slot(1), Some(Slot { holder: Holder::Cell, strong: 1, guards: 0 }));
    assert!(within_one_of_the_guards(&ledger));
}

#[test]
fn a_load_after_an_exchange_borrows_the_new_payload() {
    let mut ledger = Ledger::new();
    assert!(ledger.apply(Step::Load));
    assert!(ledger.apply(Step::Exchange));
    assert!(ledger.apply(Step::Load));
    assert_eq!(ledger.slot(0).unwrap().guards, 1);
    assert_eq!(ledger.slot(1).unwrap().guards, 1);
    assert_eq!(ledger.slot(1).unwrap().strong, 2);
}

#[test]
fn a_writer_cannot_take_the_payload_before_the_borrow_is_released() {
    let mut ledger = Ledger::new();
    assert!(ledger.apply(Step::Load));
    assert!(ledger.apply(Step::Exchange));

    assert!(!ledger.can(Step::Take { slot: 0 }));
    assert!(!ledger.apply(Step::Take { slot: 0 }));
    assert_eq!(ledger.slot(0), Some(Slot { holder: Holder::Swapper, strong: 2, guards: 1 }));

    assert!(ledger.apply(Step::Release { slot: 0 }));
    assert!(ledger.can(Step::Take { slot: 0 }));
    assert!(ledger.apply(Step::Take { slot: 0 }));
    assert_eq!(ledger.slot(0), Some(Slot { holder: Holder::Nobody, strong: 0, guards: 0 }));
}

#[test]
fn a_writer_takes_the_payload_at_once_when_nobody_borrows_it() {
    let mut ledger = Ledger::new();
    assert!(ledger.apply(Step::Exchange));
    assert!(ledger.apply(Step::Take { slot: 0 }));
    assert!(!ledger.can(Step::CopyOut { slot: 0 }));
}

#[test]
fn a_writer_that_may_not_wait_copies_the_payload_and_lets_go() {
    let mut ledger = Ledger::new();
    assert!(ledger.apply(Step::Load));
    assert!(ledger.apply(Step::Exchange));
    assert!(ledger.apply(Step::CopyOut { slot: 0 }));
    // The guard is the last reference to the old payload.
    assert_eq!(ledger.slot(0), Some(Slot { holder: Holder::Nobody, strong: 1, guards: 1 }));
    assert!(ledger.apply(Step::Release { slot: 0 }));
    assert_eq!(ledger.slot(0), Some(Slot { holder: Holder::Nobody, strong: 0, guards: 0 }));
    assert!(within_one_of_the_guards(&ledger));
}

#[test]
fn steps_that_cannot_be_taken_change_nothing() {
    let mut ledger = Ledger::new();
    assert!(!ledger.apply(Step::Release { slot: 0 }));
    assert!(!ledger.apply(Step::Release { slot: 5 }));
    assert!(!ledger.apply(Step::Take { slot: 0 }));
    assert!(!ledger.apply(Step::Take { slot: 1 }));
    assert!(!ledger.apply(Step::CopyOut { slot: 0 }));
    assert_eq!(ledger.len(), 1);
    assert_eq!(ledger.slot(0), Some(Slot { holder: Holder::Cell, strong: 1, guards: 0 }));
}

#[test]
fn the_count_stays_within_one_of_the_guards_through_a_long_run() {
    let mut ledger = Ledger::new();
    let mut seed: u64 = 0x9E37_79B9_7F4A_7C15;
    for _ in 0..5_000 {
        seed = seed.wrapping_mul(6364136223846793005).wrapping_add(1442695040888963407);
        let slot = ((seed >> 40) as usize) % ledger.len();
        let step = match (seed >> 33) % 5 {
            0 => Step::Load,
            1 => Step::Release { slot },
            2 => Step::Exchange,
            3 => Step::Take { slot },
            _ => Step::CopyOut { slot },
        };
        ledger.apply(step);
        assert!(within_one_of_the_guards(&ledger));
    }
    assert!(ledger.len() > 1);
}

#[test]
fn the_last_reference_gives_its_payload() {
    let arc = Arc::new(vec![1, 2, 3]);
    assert_eq!(take_within(arc, 1), Ok(vec![1, 2, 3]));
}

#[test]
fn a_shared_reference_comes_back_as_it_was() {
    let arc = Arc::new(41);
    let other = arc.clone();
    let back = take_within(arc, 16).unwrap_err();
    assert!(Arc::ptr_eq(&back, &other));
    assert_eq!(Arc::strong_count(&back), 2);
    drop(other);
    assert_eq!(take_within(back, 16), Ok(41));
}

#[test]
fn no_attempt_gives_no_payload() {
    let arc = Arc::new(7);
    let back = take_within(arc, 0).unwrap_err();
    assert_eq!(*back, 7);
    assert_eq!(Arc::strong_count(&back), 1);
}
