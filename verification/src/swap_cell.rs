//! The ownership protocol of the swap cell.
//!
//! A swap cell holds one payload behind a counted reference and lets readers
//! borrow it while a writer exchanges it. The cell never hands the counted
//! reference itself to a reader: a reader gets a guard, which counts as one
//! reference for as long as it lives. A writer that exchanges the payload gets
//! the old reference, and can take the old payload out by value only once that
//! reference is the last one, which is once every guard on the old payload is
//! gone. Where it may not wait it takes a copy and drops its reference.
//!
//! The steps of that protocol are defined here over the reference counts alone,
//! with the proof that the count of a payload never exceeds one plus the number
//! of its guards, and a ledger that keeps the counts of a run.

use vstd::prelude::*;
use std::sync::Arc;

verus! {

/// One attempt to turn a counted reference into its payload:
/// `std::sync::Arc::try_unwrap`.
///
/// The payload comes out if the reference is the last one. Otherwise the same
/// reference comes back. Either way nothing is changed in what it holds.
#[verifier::external_body]
fn try_unwrap<T>(arc: Arc<T>) -> (result: Result<T, Arc<T>>)
    ensures
        match result {
            Ok(payload) => payload == arc,
            Err(same) => same == arc,
        },
{
    Arc::try_unwrap(arc)
}

/// Tries up to `attempts` times to take the payload out of an exchanged
/// reference, and hands the reference back if other references were left each
/// time.
///
/// A writer that must have the payload calls this until it succeeds; it never
/// succeeds while the caller itself keeps a guard on the payload.
pub fn take_within<T>(arc: Arc<T>, attempts: usize) -> (result: Result<T, Arc<T>>)
    ensures
        match result {
            Ok(payload) => payload == arc && attempts > 0,
            Err(same) => same == arc,
        },
{
    let mut current = arc;
    let mut left = attempts;
    while left > 0
        invariant
            current == arc,
            left <= attempts,
        decreases left,
    {
        match try_unwrap(current) {
            Ok(payload) => {
                return Ok(payload);
            },
            Err(same) => {
                current = same;
            },
        }
        left -= 1;
    }
    Err(current)
}

/// Who holds the one reference to a payload that is not a guard's.
#[derive(Clone, Copy, Debug, PartialEq, Eq, Structural)]
pub enum Holder {
    /// The cell: the payload is the installed one.
    Cell,
    /// A writer that has exchanged the payload and not yet taken it out.
    Swapper,
    /// Nobody: the payload was taken out by value, or the writer let go of it.
    Nobody,
}

/// The references to one payload.
#[derive(Clone, Copy, Debug, PartialEq, Eq, Structural)]
pub struct Slot {
    /// Who holds the reference that is not a guard's.
    pub holder: Holder,
    /// The count of strong references.
    pub strong: usize,
    /// The number of guards that are alive.
    pub guards: usize,
}

/// One step of the protocol.
#[derive(Clone, Copy, Debug, PartialEq, Eq, Structural)]
pub enum Step {
    /// A reader borrows the installed payload and gets a guard on it.
    Load,
    /// A guard on the payload of the given slot is dropped.
    Release { slot: usize },
    /// A writer installs a new payload and gets the reference to the old one.
    Exchange,
    /// The writer that holds the payload of the slot takes it out by value.
    Take { slot: usize },
    /// The writer that holds the payload of the slot copies it and lets go.
    CopyOut { slot: usize },
}

/// The slots of all the payloads that a cell has held, in the order in which
/// they were installed. The last one is the installed payload.
pub struct CellState {
    pub slots: Seq<Slot>,
}

impl CellState {
    /// A new cell: one payload, held by the cell alone.
    pub open spec fn init() -> CellState {
        CellState { slots: seq![Slot { holder: Holder::Cell, strong: 1, guards: 0 }] }
    }

    /// The slot of the installed payload.
    pub open spec fn installed(self) -> int {
        self.slots.len() - 1
    }

    /// Whether the step can be taken.
    ///
    /// A guard can only be dropped where one is alive. A payload can only be
    /// taken out by the writer that holds it, and only when the writer's
    /// reference is the last; it can only be copied out by that writer while
    /// other references are left.
    pub open spec fn enabled(self, step: Step) -> bool {
        match step {
            Step::Load => self.slots.len() > 0 && self.slots[self.installed()].strong < usize::MAX
                && self.slots[self.installed()].guards < usize::MAX,
            Step::Release { slot } => slot < self.slots.len() && self.slots[slot as int].guards > 0
                && self.slots[slot as int].strong > 0,
            Step::Exchange => self.slots.len() > 0,
            Step::Take { slot } => slot < self.slots.len() && self.slots[slot as int].holder
                == Holder::Swapper && self.slots[slot as int].strong == 1,
            Step::CopyOut { slot } => slot < self.slots.len() && self.slots[slot as int].holder
                == Holder::Swapper && self.slots[slot as int].strong > 1,
        }
    }

    /// The state after the step.
    pub open spec fn next(self, step: Step) -> CellState {
        match step {
            Step::Load => {
                let old = self.slots[self.installed()];
                CellState {
                    slots: self.slots.update(
                        self.installed(),
                        Slot {
                            holder: old.holder,
                            strong: (old.strong + 1) as usize,
                            guards: (old.guards + 1) as usize,
                        },
                    ),
                }
            },
            Step::Release { slot } => {
                let old = self.slots[slot as int];
                CellState {
                    slots: self.slots.update(
                        slot as int,
                        Slot {
                            holder: old.holder,
                            strong: (old.strong - 1) as usize,
                            guards: (old.guards - 1) as usize,
                        },
                    ),
                }
            },
            Step::Exchange => {
                let old = self.slots[self.installed()];
                CellState {
                    slots: self.slots.update(
                        self.installed(),
                        Slot { holder: Holder::Swapper, strong: old.strong, guards: old.guards },
                    ).push(Slot { holder: Holder::Cell, strong: 1, guards: 0 }),
                }
            },
            Step::Take { slot } => {
                let old = self.slots[slot as int];
                CellState {
                    slots: self.slots.update(
                        slot as int,
                        Slot { holder: Holder::Nobody, strong: 0, guards: old.guards },
                    ),
                }
            },
            Step::CopyOut { slot } => {
                let old = self.slots[slot as int];
                CellState {
                    slots: self.slots.update(
                        slot as int,
                        Slot {
                            holder: Holder::Nobody,
                            strong: (old.strong - 1) as usize,
                            guards: old.guards,
                        },
                    ),
                }
            },
        }
    }

    /// The state after the steps, if each of them can be taken in its turn.
    pub open spec fn run(self, steps: Seq<Step>) -> Option<CellState>
        decreases steps.len(),
    {
        if steps.len() == 0 {
            Some(self)
        } else {
            match self.run(steps.drop_last()) {
                Some(before) => if before.enabled(steps.last()) {
                    Some(before.next(steps.last()))
                } else {
                    None
                },
                None => None,
            }
        }
    }

    /// Whether the counts add up: the strong count of every payload is the
    /// number of its guards, and one more while the cell or a writer holds it;
    /// and the cell holds the installed payload and no other.
    pub open spec fn consistent(self) -> bool {
        &&& self.slots.len() > 0
        &&& forall|i: int|
            0 <= i < self.slots.len() ==> (#[trigger] self.slots[i]).strong == self.slots[i].guards
                + (if self.slots[i].holder == Holder::Nobody {
                0int
            } else {
                1int
            })
        &&& forall|i: int|
            0 <= i < self.slots.len() ==> ((#[trigger] self.slots[i]).holder == Holder::Cell <==> i
                == self.installed())
    }
}

/// A new cell is consistent, and every step that can be taken keeps the cell
/// consistent.
pub proof fn lemma_step_consistent(state: CellState, step: Step)
    requires
        state.consistent(),
        state.enabled(step),
    ensures
        CellState::init().consistent(),
        state.next(step).consistent(),
{
    let after = state.next(step);
    assert forall|i: int| 0 <= i < after.slots.len() implies (#[trigger] after.slots[i]).strong
        == after.slots[i].guards + (if after.slots[i].holder == Holder::Nobody {
        0int
    } else {
        1int
    }) by {
        if i < state.slots.len() {
            assert(state.slots[i].strong == state.slots[i].guards + (if state.slots[i].holder
                == Holder::Nobody {
                0int
            } else {
                1int
            }));
        }
    }
    assert forall|i: int| 0 <= i < after.slots.len() implies ((#[trigger] after.slots[i]).holder
        == Holder::Cell <==> i == after.installed()) by {
        if i < state.slots.len() {
            assert(state.slots[i].holder == Holder::Cell <==> i == state.installed());
        }
    }
}

/// The single-owner invariant: after any steps from a new cell, the strong
/// count of each payload is at most one plus the number of guards that are
/// alive on it.
pub proof fn lemma_single_owner(steps: Seq<Step>)
    requires
        CellState::init().run(steps) is Some,
    ensures
        CellState::init().run(steps)->Some_0.consistent(),
        forall|i: int|
            0 <= i < CellState::init().run(steps)->Some_0.slots.len() ==> (
            #[trigger] CellState::init().run(steps)->Some_0.slots[i]).strong <= 1
                + CellState::init().run(steps)->Some_0.slots[i].guards,
    decreases steps.len(),
{
    if steps.len() > 0 {
        lemma_single_owner(steps.drop_last());
        let before = CellState::init().run(steps.drop_last())->Some_0;
        lemma_step_consistent(before, steps.last());
    } else {
        lemma_step_consistent(CellState::init(), Step::Exchange);
    }
}

/// A writer waits for the borrows: in a consistent cell, the writer that holds
/// an exchanged payload can take it out exactly when no guard on it is alive,
/// and can copy it out exactly when one is.
pub proof fn lemma_take_waits(state: CellState, slot: usize)
    requires
        state.consistent(),
        slot < state.slots.len(),
        state.slots[slot as int].holder == Holder::Swapper,
    ensures
        state.enabled(Step::Take { slot }) <==> state.slots[slot as int].guards == 0,
        state.enabled(Step::CopyOut { slot }) <==> state.slots[slot as int].guards > 0,
{
}

/// An exchange is seen at once: a reader that loads before it borrows the old
/// payload, a reader that loads after it borrows the new one, and the guards
/// on the old payload stay what they were.
pub proof fn lemma_exchange_is_seen(state: CellState)
    requires
        state.consistent(),
        state.enabled(Step::Load),
        state.next(Step::Exchange).enabled(Step::Load),
    ensures
        state.next(Step::Exchange).installed() == state.installed() + 1,
        state.next(Step::Load).slots[state.installed()].guards == state.slots[state.installed()].guards
            + 1,
        state.next(Step::Exchange).slots[state.installed()].guards
            == state.slots[state.installed()].guards,
        state.next(Step::Exchange).next(Step::Load).slots[state.installed()].guards
            == state.slots[state.installed()].guards,
        state.next(Step::Exchange).next(Step::Load).slots[state.installed() + 1].guards == 1,
{
}

/// The counts of a cell through a run of steps.
pub struct Ledger {
    slots: Vec<Slot>,
}

impl View for Ledger {
    type V = CellState;

    closed spec fn view(&self) -> CellState {
        CellState { slots: self.slots@ }
    }
}

impl Ledger {
    /// The ledger of a new cell.
    pub fn new() -> (ledger: Ledger)
        ensures
            ledger@ == CellState::init(),
    {
        let mut slots: Vec<Slot> = Vec::new();
        slots.push(Slot { holder: Holder::Cell, strong: 1, guards: 0 });
        assert(slots@ =~= CellState::init().slots);
        Ledger { slots }
    }

    /// The number of payloads that the cell has held.
    pub fn len(&self) -> (n: usize)
        ensures
            n == self@.slots.len(),
    {
        self.slots.len()
    }

    /// The counts of the payload of the given slot, if there is such a slot.
    pub fn slot(&self, slot: usize) -> (counts: Option<Slot>)
        ensures
            counts == if slot < self@.slots.len() {
                Some(self@.slots[slot as int])
            } else {
                None
            },
    {
        if slot < self.slots.len() {
            Some(self.slots[slot])
        } else {
            None
        }
    }

    /// Whether the step can be taken.
    pub fn can(&self, step: Step) -> (enabled: bool)
        ensures
            enabled == self@.enabled(step),
    {
        let n = self.slots.len();
        match step {
            Step::Load => n > 0 && self.slots[n - 1].strong < usize::MAX && self.slots[n
                - 1].guards < usize::MAX,
            Step::Release { slot } => slot < n && self.slots[slot].guards > 0
                && self.slots[slot].strong > 0,
            Step::Exchange => n > 0,
            Step::Take { slot } => slot < n && self.slots[slot].holder == Holder::Swapper
                && self.slots[slot].strong == 1,
            Step::CopyOut { slot } => slot < n && self.slots[slot].holder == Holder::Swapper
                && self.slots[slot].strong > 1,
        }
    }

    /// Takes the step if it can be taken, and says whether it was.
    pub fn apply(&mut self, step: Step) -> (taken: bool)
        ensures
            taken == old(self)@.enabled(step),
            final(self)@ == if taken {
                old(self)@.next(step)
            } else {
                old(self)@
            },
            old(self)@.consistent() ==> final(self)@.consistent(),
    {
        if !self.can(step) {
            return false;
        }
        proof {
            if self@.consistent() {
                lemma_step_consistent(self@, step);
            }
        }
        let n = self.slots.len();
        match step {
            Step::Load => {
                let old = self.slots[n - 1];
                self.slots.set(
                    n - 1,
                    Slot { holder: old.holder, strong: old.strong + 1, guards: old.guards + 1 },
                );
            },
            Step::Release { slot } => {
                let old = self.slots[slot];
                self.slots.set(
                    slot,
                    Slot { holder: old.holder, strong: old.strong - 1, guards: old.guards - 1 },
                );
            },
            Step::Exchange => {
                let old = self.slots[n - 1];
                self.slots.set(
                    n - 1,
                    Slot { holder: Holder::Swapper, strong: old.strong, guards: old.guards },
                );
                self.slots.push(Slot { holder: Holder::Cell, strong: 1, guards: 0 });
            },
            Step::Take { slot } => {
                let old = self.slots[slot];
                self.slots.set(slot, Slot { holder: Holder::Nobody, strong: 0, guards: old.guards });
            },
            Step::CopyOut { slot } => {
                let old = self.slots[slot];
                self.slots.set(
                    slot,
                    Slot { holder: Holder::Nobody, strong: old.strong - 1, guards: old.guards },
                );
            },
        }
        assert(self@.slots =~= old(self)@.next(step).slots);
        true
    }
}

} // verus!
