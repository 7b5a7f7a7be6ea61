//! Why two publications of one repository never run at the same time, and why
//! publications of different repositories do not wait for each other.
//!
//! The statements are about every batch that shares one lock registry, taken
//! together with that registry.

use vstd::prelude::*;
use crate::locks::LockTable;
use crate::publicate::{
    lemma_failure_is_isolated,
    lemma_started_is_wf,
    BatchView,
    OutcomeView,
    Step,
};

verus! {

/// What happens to the batches that share one lock registry.
pub enum Event {
    /// A request was accepted and its batch laid out.
    Enter(BatchView),
    /// The batch at this place asked what to do next.
    Start(int),
    /// The batch at this place reported how its running publication ended.
    Complete(int, OutcomeView),
}

/// The batches that share one lock registry, and the locks of that registry.
pub struct Publications {
    pub locks: LockTable,
    pub batches: Seq<BatchView>,
}

impl Publications {
    /// Before the first request: no lock, no batch.
    pub open spec fn initial() -> Publications {
        Publications { locks: LockTable::empty(), batches: Seq::empty() }
    }

    /// Whether some batch is publishing the repository of this name.
    pub open spec fn is_publishing(self, name: Seq<char>) -> bool {
        exists|i: int|
            0 <= i < self.batches.len() && (#[trigger] self.batches[i]).is_publishing(name)
    }

    /// Whether no two batches publish a repository of the same name at the
    /// same time.
    pub open spec fn one_at_a_time(self) -> bool {
        forall|i: int, j: int|
            0 <= i < self.batches.len() && 0 <= j < self.batches.len() && i != j
                && (#[trigger] self.batches[i]).running && (#[trigger] self.batches[j]).running
                ==> self.batches[i].current_name() != self.batches[j].current_name()
    }

    /// Whether the publications are serialized by repository name: a lock is
    /// held exactly while a batch publishes the repository of its name, and no
    /// two batches publish a repository of the same name at the same time.
    pub open spec fn exclusive(self) -> bool {
        &&& forall|i: int| 0 <= i < self.batches.len() ==> (#[trigger] self.batches[i]).wf()
        &&& forall|name: Seq<char>| #[trigger]
            self.locks.held.contains(name) <==> self.is_publishing(name)
        &&& self.one_at_a_time()
    }

    /// The state after a request was accepted and its batch laid out.
    pub open spec fn enter(self, batch: BatchView) -> Publications {
        Publications { batches: self.batches.push(batch), ..self }
    }

    /// The state after batch `k` asked what to do next.
    pub open spec fn start(self, k: int) -> Publications {
        Publications {
            locks: self.batches[k].locks_after_start(self.locks),
            batches: self.batches.update(k, self.batches[k].started(self.locks)),
        }
    }

    /// The state after batch `k` reported how its running publication ended.
    pub open spec fn complete(self, k: int, outcome: OutcomeView) -> Publications {
        Publications {
            locks: self.batches[k].locks_after_complete(self.locks),
            batches: self.batches.update(k, self.batches[k].completed(outcome)),
        }
    }

    /// Whether the event can happen in this state: a batch that enters has
    /// nothing running, and a batch that asks or reports is there.
    pub open spec fn admits(self, event: Event) -> bool {
        match event {
            Event::Enter(batch) => batch.wf() && !batch.running,
            Event::Start(k) => 0 <= k < self.batches.len(),
            Event::Complete(k, outcome) => 0 <= k < self.batches.len() && outcome.is_final(),
        }
    }

    /// The state after the event.
    pub open spec fn after(self, event: Event) -> Publications {
        match event {
            Event::Enter(batch) => self.enter(batch),
            Event::Start(k) => self.start(k),
            Event::Complete(k, outcome) => self.complete(k, outcome),
        }
    }

    /// The state after the events, in their order.
    pub open spec fn after_all(self, events: Seq<Event>) -> Publications
        decreases events.len(),
    {
        if events.len() == 0 {
            self
        } else {
            self.after_all(events.drop_last()).after(events.last())
        }
    }

    /// Whether the events can happen one after the other, from this state on.
    pub open spec fn admits_all(self, events: Seq<Event>) -> bool
        decreases events.len(),
    {
        events.len() == 0 || (self.admits_all(events.drop_last()) && self.after_all(
            events.drop_last(),
        ).admits(events.last()))
    }
}

/// Before the first request the publications are serialized.
pub proof fn lemma_initial_is_exclusive()
    ensures
        Publications::initial().exclusive(),
{
}

/// Accepting a request keeps the publications serialized.
pub proof fn lemma_enter_keeps_exclusive(state: Publications, batch: BatchView)
    requires
        state.exclusive(),
        batch.wf(),
        !batch.running,
    ensures
        state.enter(batch).exclusive(),
{
    let next = state.enter(batch);
    assert forall|name: Seq<char>| #[trigger]
        next.locks.held.contains(name) <==> next.is_publishing(name) by {
        if state.is_publishing(name) {
            let i = choose|i: int|
                0 <= i < state.batches.len() && (#[trigger] state.batches[i]).is_publishing(name);
            assert(next.batches[i].is_publishing(name));
        }
        if next.is_publishing(name) {
            let i = choose|i: int|
                0 <= i < next.batches.len() && (#[trigger] next.batches[i]).is_publishing(name);
            assert(state.batches[i].is_publishing(name));
        }
    }
}

/// A batch that asks what to do next keeps the publications serialized,
/// whatever it is told.
pub proof fn lemma_start_keeps_exclusive(state: Publications, k: int)
    requires
        state.exclusive(),
        0 <= k < state.batches.len(),
    ensures
        state.start(k).exclusive(),
{
    let next = state.start(k);
    let batch = state.batches[k];
    assert(batch.wf());
    if batch.step(state.locks) is Publish {
        let taken = batch.current_name();
        assert(!state.is_publishing(taken));
        assert(next.batches[k].current_name() == taken);
        lemma_started_is_wf(batch, state.locks);
        assert forall|i: int| 0 <= i < next.batches.len() implies (
        #[trigger] next.batches[i]).wf() by {
            if i != k {
                assert(state.batches[i].wf());
            }
        }
        assert forall|name: Seq<char>| #[trigger]
            next.locks.held.contains(name) <==> next.is_publishing(name) by {
            if next.locks.held.contains(name) {
                if name == taken {
                    assert(next.batches[k].is_publishing(name));
                } else {
                    let i = choose|i: int|
                        0 <= i < state.batches.len() && (#[trigger] state.batches[i]).is_publishing(
                            name,
                        );
                    assert(next.batches[i].is_publishing(name));
                }
            }
            if next.is_publishing(name) {
                let i = choose|i: int|
                    0 <= i < next.batches.len() && (#[trigger] next.batches[i]).is_publishing(name);
                if i != k {
                    assert(state.batches[i].is_publishing(name));
                }
            }
        }
        assert forall|i: int, j: int|
            0 <= i < next.batches.len() && 0 <= j < next.batches.len() && i != j
                && (#[trigger] next.batches[i]).running
                && (#[trigger] next.batches[j]).running implies next.batches[i].current_name()
            != next.batches[j].current_name() by {
            if i == k {
                assert(state.batches[j].is_publishing(state.batches[j].current_name()));
            } else if j == k {
                assert(state.batches[i].is_publishing(state.batches[i].current_name()));
            } else {
                assert(state.batches[i].running && state.batches[j].running);
            }
        }
    } else {
        assert(next.batches =~= state.batches);
    }
}

/// A batch that reports how its publication ended keeps the publications
/// serialized, whether the publication failed or not.
pub proof fn lemma_complete_keeps_exclusive(state: Publications, k: int, outcome: OutcomeView)
    requires
        state.exclusive(),
        0 <= k < state.batches.len(),
        outcome.is_final(),
    ensures
        state.complete(k, outcome).exclusive(),
{
    let next = state.complete(k, outcome);
    let batch = state.batches[k];
    assert(batch.wf());
    if batch.running {
        lemma_failure_is_isolated(batch, outcome);
        assert forall|i: int| 0 <= i < next.batches.len() implies (
        #[trigger] next.batches[i]).wf() by {
            if i != k {
                assert(state.batches[i].wf());
            }
        }
        assert forall|name: Seq<char>| #[trigger]
            next.locks.held.contains(name) <==> next.is_publishing(name) by {
            if next.locks.held.contains(name) {
                let i = choose|i: int|
                    0 <= i < state.batches.len() && (#[trigger] state.batches[i]).is_publishing(
                        name,
                    );
                assert(i != k);
                assert(next.batches[i].is_publishing(name));
            }
            if next.is_publishing(name) {
                let i = choose|i: int|
                    0 <= i < next.batches.len() && (#[trigger] next.batches[i]).is_publishing(name);
                assert(i != k);
                assert(state.batches[i].is_publishing(name));
                assert(state.batches[i].running && state.batches[k].running);
            }
        }
        assert forall|i: int, j: int|
            0 <= i < next.batches.len() && 0 <= j < next.batches.len() && i != j
                && (#[trigger] next.batches[i]).running
                && (#[trigger] next.batches[j]).running implies next.batches[i].current_name()
            != next.batches[j].current_name() by {
            assert(state.batches[i].running && state.batches[j].running);
        }
    } else {
        assert(next.batches =~= state.batches);
    }
}

/// Whatever happens, in whatever order, the publications stay serialized: at
/// no time do two batches publish a repository of the same name.
pub proof fn lemma_every_state_is_exclusive(events: Seq<Event>)
    requires
        Publications::initial().admits_all(events),
    ensures
        Publications::initial().after_all(events).exclusive(),
        Publications::initial().after_all(events).one_at_a_time(),
    decreases events.len(),
{
    if events.len() == 0 {
        lemma_initial_is_exclusive();
    } else {
        lemma_every_state_is_exclusive(events.drop_last());
        let state = Publications::initial().after_all(events.drop_last());
        match events.last() {
            Event::Enter(batch) => lemma_enter_keeps_exclusive(state, batch),
            Event::Start(k) => lemma_start_keeps_exclusive(state, k),
            Event::Complete(k, outcome) => lemma_complete_keeps_exclusive(state, k, outcome),
        }
    }
}

/// While one batch publishes a repository, another batch whose turn is a
/// repository of the same name is told that it is blocked and starts nothing.
pub proof fn lemma_same_repository_waits(state: Publications, i: int, j: int)
    requires
        state.exclusive(),
        0 <= i < state.batches.len(),
        0 <= j < state.batches.len(),
        i != j,
        state.batches[i].running,
        !state.batches[j].finished(),
        state.batches[j].current_name() == state.batches[i].current_name(),
    ensures
        state.batches[j].step(state.locks) == Step::Blocked(state.batches[j].cursor as usize),
        state.start(j) == state,
{
    let name = state.batches[i].current_name();
    assert(state.batches[i].is_publishing(name));
    assert(state.is_publishing(name));
    assert(state.locks.held.contains(name));
    assert(!state.batches[j].running);
    assert(state.start(j).batches =~= state.batches);
}

/// Locks are per repository name: a batch whose turn is a repository that no
/// batch is publishing starts it at once, however many repositories of other
/// names are being published, and those go on running.
pub proof fn lemma_other_repository_starts(state: Publications, j: int)
    requires
        state.exclusive(),
        0 <= j < state.batches.len(),
        !state.batches[j].finished(),
        !state.batches[j].running,
        !state.is_publishing(state.batches[j].current_name()),
    ensures
        state.batches[j].step(state.locks) == Step::Publish(state.batches[j].cursor as usize),
        state.start(j).batches[j].is_publishing(state.batches[j].current_name()),
        forall|i: int|
            0 <= i < state.batches.len() && i != j && (#[trigger] state.batches[i]).running
                ==> state.start(j).batches[i] == state.batches[i],
{
    let name = state.batches[j].current_name();
    assert(!state.locks.held.contains(name));
}

} // verus!
