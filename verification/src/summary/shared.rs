//! The batch under many producers at once.
//!
//! When many threads observe at the same time, the batch lives in a swap cell.
//! A producer borrows the installed batch, appends its sample and lets go. A
//! committer exchanges the installed batch for an empty one, waits until no
//! producer holds the batch that it took, and drains that batch whole into the
//! inner provider. The steps of the threads interleave in any order.
//!
//! The steps are defined here over what the batches hold, with the proof that
//! no interleaving loses a sample or hands one on twice: at every moment the
//! samples that have been appended are those that the inner provider was given
//! and those that wait in a batch, each once.

use vstd::prelude::*;
use vstd::multiset::Multiset;
use crate::sample::Sample;
use crate::swap_cell::Holder;

verus! {

/// One batch: who holds it, how many producers have borrowed it, and the
/// samples that were appended to it.
pub struct BatchSlot {
    pub holder: Holder,
    pub guards: usize,
    pub items: Seq<Sample>,
}

impl BatchSlot {
    /// The samples of the batch that are still to be drained: all of them until
    /// the batch is drained, none after.
    pub open spec fn waiting(self) -> Multiset<Sample> {
        if self.holder == Holder::Nobody {
            Multiset::empty()
        } else {
            self.items.to_multiset()
        }
    }
}

/// One step of one thread.
#[derive(Clone, Copy, Debug, PartialEq, Eq, Structural)]
pub enum SharedStep {
    /// A producer borrows the installed batch.
    Load,
    /// A producer appends a sample to the batch of the slot, which it has borrowed.
    Push { slot: usize, sample: Sample },
    /// A producer lets go of the batch of the slot.
    Release { slot: usize },
    /// A committer installs an empty batch and takes the one that was installed.
    Exchange,
    /// A committer drains the batch that it took into the inner provider.
    Drain { slot: usize },
}

/// The batches that a batched provider has had, the last of them installed;
/// the samples that its inner provider was given, in the order in which they
/// were given; and the samples that producers have appended, in the order in
/// which they were appended.
pub struct SharedState {
    pub slots: Seq<BatchSlot>,
    pub given: Seq<Sample>,
    pub appended: Seq<Sample>,
}

/// The samples that wait in the batches.
pub open spec fn waiting(slots: Seq<BatchSlot>) -> Multiset<Sample>
    decreases slots.len(),
{
    if slots.len() == 0 {
        Multiset::empty()
    } else {
        waiting(slots.drop_last()).add(slots.last().waiting())
    }
}

impl SharedState {
    /// A new batched provider: one empty batch, nothing appended, nothing given.
    pub open spec fn init() -> SharedState {
        SharedState {
            slots: seq![BatchSlot { holder: Holder::Cell, guards: 0, items: Seq::empty() }],
            given: Seq::empty(),
            appended: Seq::empty(),
        }
    }

    /// The slot of the installed batch.
    pub open spec fn installed(self) -> int {
        self.slots.len() - 1
    }

    /// Whether the step can be taken.
    ///
    /// A producer appends only to a batch that is borrowed, and lets go only of
    /// one that is. A committer drains only a batch that it took, and only once
    /// no producer holds it.
    pub open spec fn enabled(self, step: SharedStep) -> bool {
        match step {
            SharedStep::Load => self.slots.len() > 0 && self.slots[self.installed()].guards
                < usize::MAX,
            SharedStep::Push { slot, sample } => slot < self.slots.len() && self.slots[slot as int].guards
                > 0,
            SharedStep::Release { slot } => slot < self.slots.len() && self.slots[slot as int].guards
                > 0,
            SharedStep::Exchange => self.slots.len() > 0,
            SharedStep::Drain { slot } => slot < self.slots.len() && self.slots[slot as int].holder
                == Holder::Swapper && self.slots[slot as int].guards == 0,
        }
    }

    /// The state after the step.
    pub open spec fn next(self, step: SharedStep) -> SharedState {
        match step {
            SharedStep::Load => {
                let old = self.slots[self.installed()];
                SharedState {
                    slots: self.slots.update(
                        self.installed(),
                        BatchSlot {
                            holder: old.holder,
                            guards: (old.guards + 1) as usize,
                            items: old.items,
                        },
                    ),
                    given: self.given,
                    appended: self.appended,
                }
            },
            SharedStep::Push { slot, sample } => {
                let old = self.slots[slot as int];
                SharedState {
                    slots: self.slots.update(
                        slot as int,
                        BatchSlot {
                            holder: old.holder,
                            guards: old.guards,
                            items: old.items.push(sample),
                        },
                    ),
                    given: self.given,
                    appended: self.appended.push(sample),
                }
            },
            SharedStep::Release { slot } => {
                let old = self.slots[slot as int];
                SharedState {
                    slots: self.slots.update(
                        slot as int,
                        BatchSlot {
                            holder: old.holder,
                            guards: (old.guards - 1) as usize,
                            items: old.items,
                        },
                    ),
                    given: self.given,
                    appended: self.appended,
                }
            },
            SharedStep::Exchange => {
                let old = self.slots[self.installed()];
                SharedState {
                    slots: self.slots.update(
                        self.installed(),
                        BatchSlot { holder: Holder::Swapper, guards: old.guards, items: old.items },
                    ).push(BatchSlot { holder: Holder::Cell, guards: 0, items: Seq::empty() }),
                    given: self.given,
                    appended: self.appended,
                }
            },
            SharedStep::Drain { slot } => {
                let old = self.slots[slot as int];
                SharedState {
                    slots: self.slots.update(
                        slot as int,
                        BatchSlot { holder: Holder::Nobody, guards: old.guards, items: old.items },
                    ),
                    given: self.given + old.items,
                    appended: self.appended,
                }
            },
        }
    }

    /// The state after the steps, if each of them can be taken in its turn.
    pub open spec fn run(self, steps: Seq<SharedStep>) -> Option<SharedState>
        decreases steps.len(),
    {
        if steps.len() == 0 {
            Some(self)
        } else {
            match self.run(steps.drop_last()) {
                Some(before) => if before.enabled(steps.last()) {
                    Some(before.next(steps.last()))
                } else {
                    None
                },
                None => None,
            }
        }
    }

    /// Whether every sample is accounted for: the samples that were appended
    /// are those that the inner provider was given together with those that
    /// wait in a batch. Besides, the cell holds the installed batch and no
    /// other, and nobody has borrowed a batch that is drained.
    pub open spec fn conserved(self) -> bool {
        &&& self.slots.len() > 0
        &&& self.given.to_multiset().add(waiting(self.slots)) == self.appended.to_multiset()
        &&& forall|i: int|
            0 <= i < self.slots.len() ==> ((#[trigger] self.slots[i]).holder == Holder::Cell <==> i
                == self.installed())
        &&& forall|i: int|
            0 <= i < self.slots.len() ==> ((#[trigger] self.slots[i]).holder == Holder::Nobody
                ==> self.slots[i].guards == 0)
    }

    /// Whether all is quiet: every batch but the installed one is drained, and
    /// the installed one is empty, as after a last commit.
    pub open spec fn quiescent(self) -> bool {
        &&& self.slots.len() > 0
        &&& self.slots[self.installed()].items.len() == 0
        &&& forall|i: int|
            0 <= i < self.installed() ==> (#[trigger] self.slots[i]).holder == Holder::Nobody
    }
}

/// With one batch changed, the waiting samples change by what that batch
/// had waiting and what it has now.
pub proof fn lemma_waiting_update(slots: Seq<BatchSlot>, i: int, slot: BatchSlot)
    requires
        0 <= i < slots.len(),
    ensures
        waiting(slots.update(i, slot)).add(slots[i].waiting()) == waiting(slots).add(
            slot.waiting(),
        ),
    decreases slots.len(),
{
    let changed = slots.update(i, slot);
    if i == slots.len() - 1 {
        assert(changed.drop_last() == slots.drop_last());
        assert(waiting(changed).add(slots[i].waiting()) =~= waiting(slots).add(slot.waiting()));
    } else {
        assert(changed.drop_last() == slots.drop_last().update(i, slot));
        assert(changed.last() == slots.last());
        lemma_waiting_update(slots.drop_last(), i, slot);
        assert(slots.drop_last()[i] == slots[i]);
        assert(waiting(changed).add(slots[i].waiting()) =~= waiting(
            slots.drop_last().update(i, slot),
        ).add(slots[i].waiting()).add(slots.last().waiting()));
        assert(waiting(changed).add(slots[i].waiting()) =~= waiting(slots).add(slot.waiting()));
    }
}

/// A batch that changes without a change of what it has waiting leaves the
/// waiting samples as they are.
pub proof fn lemma_waiting_same(slots: Seq<BatchSlot>, i: int, slot: BatchSlot)
    requires
        0 <= i < slots.len(),
        slot.waiting() == slots[i].waiting(),
    ensures
        waiting(slots.update(i, slot)) == waiting(slots),
{
    lemma_waiting_update(slots, i, slot);
    assert(waiting(slots.update(i, slot)) =~= waiting(slots.update(i, slot)).add(
        slots[i].waiting(),
    ).sub(slots[i].waiting()));
    assert(waiting(slots) =~= waiting(slots).add(slot.waiting()).sub(slot.waiting()));
}

/// A new provider accounts for every sample: there is none.
pub proof fn lemma_init_conserves()
    ensures
        SharedState::init().conserved(),
{
    broadcast use vstd::seq_lib::group_to_multiset_ensures;

    let init = SharedState::init();
    assert(init.slots.drop_last() == Seq::<BatchSlot>::empty());
    assert(waiting(init.slots.drop_last()) == Multiset::<Sample>::empty());
    assert(init.slots.last().waiting() =~= Multiset::<Sample>::empty());
    assert(waiting(init.slots) =~= Multiset::<Sample>::empty());
    assert(init.given.to_multiset().add(waiting(init.slots)) =~= init.appended.to_multiset());
}

/// Every step that can be taken keeps every sample accounted for.
pub proof fn lemma_step_conserves(state: SharedState, step: SharedStep)
    requires
        state.conserved(),
        state.enabled(step),
    ensures
        state.next(step).conserved(),
{
    broadcast use vstd::seq_lib::group_to_multiset_ensures;

    let after = state.next(step);
    match step {
        SharedStep::Load => {
            lemma_waiting_same(state.slots, state.installed(), after.slots[state.installed()]);
        },
        SharedStep::Push { slot, sample } => {
            let old = state.slots[slot as int];
            let new = after.slots[slot as int];
            assert(old.holder != Holder::Nobody);
            lemma_waiting_update(state.slots, slot as int, new);
            assert(new.waiting() =~= old.waiting().insert(sample));
            assert(waiting(after.slots) =~= waiting(state.slots).insert(sample)) by {
                assert(waiting(after.slots) =~= waiting(after.slots).add(old.waiting()).sub(
                    old.waiting(),
                ));
            }
            assert(after.given.to_multiset().add(waiting(after.slots))
                =~= after.appended.to_multiset());
        },
        SharedStep::Release { slot } => {
            lemma_waiting_same(state.slots, slot as int, after.slots[slot as int]);
        },
        SharedStep::Exchange => {
            let taken = state.slots.update(
                state.installed(),
                BatchSlot {
                    holder: Holder::Swapper,
                    guards: state.slots[state.installed()].guards,
                    items: state.slots[state.installed()].items,
                },
            );
            lemma_waiting_same(state.slots, state.installed(), taken[state.installed()]);
            assert(after.slots.drop_last() == taken);
            assert(after.slots.last().waiting() =~= Multiset::<Sample>::empty());
            assert(waiting(after.slots) =~= waiting(state.slots));
        },
        SharedStep::Drain { slot } => {
            let old = state.slots[slot as int];
            let new = after.slots[slot as int];
            lemma_waiting_update(state.slots, slot as int, new);
            assert(new.waiting() =~= Multiset::<Sample>::empty());
            assert(waiting(after.slots).add(old.items.to_multiset()) =~= waiting(state.slots));
            vstd::seq_lib::lemma_multiset_commutative(state.given, old.items);
            assert(after.given.to_multiset().add(waiting(after.slots)) =~= state.given.to_multiset().add(
                waiting(state.slots),
            ));
        },
    }
    assert forall|i: int| 0 <= i < after.slots.len() implies ((#[trigger] after.slots[i]).holder
        == Holder::Cell <==> i == after.installed()) by {
        if i < state.slots.len() {
            assert(state.slots[i].holder == Holder::Cell <==> i == state.installed());
        }
    }
    assert forall|i: int| 0 <= i < after.slots.len() implies ((#[trigger] after.slots[i]).holder
        == Holder::Nobody ==> after.slots[i].guards == 0) by {
        if i < state.slots.len() {
            assert(state.slots[i].holder == Holder::Nobody ==> state.slots[i].guards == 0);
        }
    }
}

/// Conservation under any interleaving: whatever steps the threads have taken
/// since the provider was built, the samples that were appended are those that
/// the inner provider was given and those that wait in a batch, each as often
/// as it was appended.
pub proof fn lemma_shared_conservation(steps: Seq<SharedStep>)
    requires
        SharedState::init().run(steps) is Some,
    ensures
        SharedState::init().run(steps)->Some_0.conserved(),
    decreases steps.len(),
{
    if steps.len() > 0 {
        lemma_shared_conservation(steps.drop_last());
        let before = SharedState::init().run(steps.drop_last())->Some_0;
        lemma_step_conserves(before, steps.last());
    } else {
        lemma_init_conserves();
    }
}

/// Nothing waits where no batch has anything waiting.
pub proof fn lemma_nothing_waits(slots: Seq<BatchSlot>)
    requires
        forall|i: int| 0 <= i < slots.len() ==> (#[trigger] slots[i]).waiting() == Multiset::<
            Sample,
        >::empty(),
    ensures
        waiting(slots) == Multiset::<Sample>::empty(),
    decreases slots.len(),
{
    if slots.len() > 0 {
        let front = slots.drop_last();
        assert forall|i: int| 0 <= i < front.len() implies (#[trigger] front[i]).waiting()
            == Multiset::<Sample>::empty() by {
            assert(front[i] == slots[i]);
        }
        lemma_nothing_waits(front);
        assert(slots.last() == slots[slots.len() - 1]);
        assert(waiting(slots) =~= Multiset::<Sample>::empty());
    }
}

/// The count after the last commit: once every producer has let go and every
/// batch that was taken is drained, the inner provider has been given exactly
/// the samples that were appended, each once, and so as many.
pub proof fn lemma_quiescent_count(steps: Seq<SharedStep>)
    requires
        SharedState::init().run(steps) is Some,
        SharedState::init().run(steps)->Some_0.quiescent(),
    ensures
        SharedState::init().run(steps)->Some_0.given.to_multiset() == SharedState::init().run(
            steps,
        )->Some_0.appended.to_multiset(),
        SharedState::init().run(steps)->Some_0.given.len() == SharedState::init().run(
            steps,
        )->Some_0.appended.len(),
{
    broadcast use vstd::seq_lib::group_to_multiset_ensures;

    let state = SharedState::init().run(steps)->Some_0;
    lemma_shared_conservation(steps);
    assert forall|i: int| 0 <= i < state.slots.len() implies (#[trigger] state.slots[i]).waiting()
        == Multiset::<Sample>::empty() by {
        if i == state.installed() {
            assert(state.slots[i].items =~= Seq::<Sample>::empty());
            assert(state.slots[i].waiting() =~= Multiset::<Sample>::empty());
        }
    }
    lemma_nothing_waits(state.slots);
    assert(state.given.to_multiset() =~= state.given.to_multiset().add(waiting(state.slots)));
    assert(state.given.to_multiset().len() == state.appended.to_multiset().len());
}

/// A committer waits for the producers: a batch that was taken can be drained
/// exactly when no producer holds it, and a batch that is drained is never
/// appended to again.
pub proof fn lemma_drain_waits(state: SharedState, slot: usize, sample: Sample)
    requires
        state.conserved(),
        slot < state.slots.len(),
    ensures
        state.slots[slot as int].holder == Holder::Swapper ==> (state.enabled(
            SharedStep::Drain { slot },
        ) <==> state.slots[slot as int].guards == 0),
        state.slots[slot as int].holder == Holder::Nobody ==> !state.enabled(
            SharedStep::Push { slot, sample },
        ),
{
}

/// One batch of a run.
pub struct Batch {
    holder: Holder,
    guards: usize,
    items: Vec<Sample>,
}

impl View for Batch {
    type V = BatchSlot;

    closed spec fn view(&self) -> BatchSlot {
        BatchSlot { holder: self.holder, guards: self.guards, items: self.items@ }
    }
}

/// The batches of a run of steps, the samples that were appended and the
/// samples that the inner provider was given.
pub struct SharedLedger {
    slots: Vec<Batch>,
    given: Vec<Sample>,
    appended: Vec<Sample>,
}

impl View for SharedLedger {
    type V = SharedState;

    closed spec fn view(&self) -> SharedState {
        SharedState {
            slots: Seq::new(self.slots@.len(), |i: int| self.slots@[i]@),
            given: self.given@,
            appended: self.appended@,
        }
    }
}

impl SharedLedger {
    /// The ledger of a new batched provider.
    pub fn new() -> (ledger: SharedLedger)
        ensures
            ledger@ == SharedState::init(),
    {
        let mut slots: Vec<Batch> = Vec::new();
        slots.push(Batch { holder: Holder::Cell, guards: 0, items: Vec::new() });
        let ledger = SharedLedger { slots, given: Vec::new(), appended: Vec::new() };
        assert(ledger@.slots =~= SharedState::init().slots);
        ledger
    }

    /// The number of batches that the provider has had. The last is installed.
    pub fn len(&self) -> (n: usize)
        ensures
            n == self@.slots.len(),
    {
        self.slots.len()
    }

    /// The number of samples in the batch of the slot, if there is such a slot.
    pub fn batch_len(&self, slot: usize) -> (len: Option<usize>)
        ensures
            len == if slot < self@.slots.len() {
                Some(self@.slots[slot as int].items.len() as usize)
            } else {
                None
            },
    {
        if slot < self.slots.len() {
            Some(self.slots[slot].items.len())
        } else {
            None
        }
    }

    /// The samples that the inner provider was given, in the order in which it
    /// was given them.
    pub fn given(&self) -> (given: &Vec<Sample>)
        ensures
            given@ == self@.given,
    {
        &self.given
    }

    /// The samples that were appended, in the order in which they were.
    pub fn appended(&self) -> (appended: &Vec<Sample>)
        ensures
            appended@ == self@.appended,
    {
        &self.appended
    }

    /// Whether the step can be taken.
    pub fn can(&self, step: SharedStep) -> (enabled: bool)
        ensures
            enabled == self@.enabled(step),
    {
        let n = self.slots.len();
        match step {
            SharedStep::Load => n > 0 && self.slots[n - 1].guards < usize::MAX,
            SharedStep::Push { slot, sample } => slot < n && self.slots[slot].guards > 0,
            SharedStep::Release { slot } => slot < n && self.slots[slot].guards > 0,
            SharedStep::Exchange => n > 0,
            SharedStep::Drain { slot } => slot < n && self.slots[slot].holder == Holder::Swapper
                && self.slots[slot].guards == 0,
        }
    }

    /// Takes the step if it can be taken, and says whether it was.
    pub fn apply(&mut self, step: SharedStep) -> (taken: bool)
        ensures
            taken == old(self)@.enabled(step),
            final(self)@ == if taken {
                old(self)@.next(step)
            } else {
                old(self)@
            },
            old(self)@.conserved() ==> final(self)@.conserved(),
    {
        if !self.can(step) {
            return false;
        }
        proof {
            if self@.conserved() {
                lemma_step_conserves(self@, step);
            }
        }
        let n = self.slots.len();
        let ghost before = self@;
        match step {
            SharedStep::Load => {
                self.slots[n - 1].guards += 1;
                assert(self@.slots =~= before.next(step).slots);
            },
            SharedStep::Push { slot, sample } => {
                self.slots[slot].items.push(sample);
                self.appended.push(sample);
                assert(self@.slots =~= before.next(step).slots);
            },
            SharedStep::Release { slot } => {
                self.slots[slot].guards -= 1;
                assert(self@.slots =~= before.next(step).slots);
            },
            SharedStep::Exchange => {
                self.slots[n - 1].holder = Holder::Swapper;
                self.slots.push(Batch { holder: Holder::Cell, guards: 0, items: Vec::new() });
                assert(self@.slots =~= before.next(step).slots);
            },
            SharedStep::Drain { slot } => {
                self.slots[slot].holder = Holder::Nobody;
                assert(self@.slots =~= before.next(step).slots);
                let ghost slots = self.slots@;
                let mut i: usize = 0;
                while i < self.slots[slot].items.len()
                    invariant
                        slot < self.slots.len(),
                        self.slots@ == slots,
                        self.appended@ == before.appended,
                        i <= self.slots[slot as int].items.len(),
                        self.given@ == before.given + self.slots[slot as int].items@.take(i as int),
                    decreases self.slots[slot as int].items.len() - i,
                {
                    let sample = self.slots[slot].items[i];
                    self.given.push(sample);
                    proof {
                        let items = self.slots[slot as int].items@;
                        assert(items.take(i + 1) == items.take(i as int).push(sample));
                    }
                    i += 1;
                }
                proof {
                    let items = self.slots[slot as int].items@;
                    assert(items.take(i as int) == items);
                }
            },
        }
        assert(self@.given =~= before.next(step).given);
        assert(self@.appended =~= before.next(step).appended);
        true
    }
}

} // verus!
