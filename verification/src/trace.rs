//! Runs of the executor, and what holds of every run.
//!
//! A run is a sequence of events, each one a call of a method of the
//! executor. The theorems here speak of the order in which a run hands
//! tasks out to be advanced.

use crate::delay::DelayState;
use crate::executor::{lemma_stale_entries, Schedule};
use crate::task::{Poll, Task, WakeSignal};
use vstd::prelude::*;

verus! {

/// One call on the executor.
pub enum Event<F> {
    /// `spawn` with this computation.
    Spawn(F),
    /// `wake` with a signal bound to the task of this number.
    Wake(usize),
    /// `take_next`.
    Take,
    /// `settle` with this computation and outcome.
    Settle(F, Poll),
}

impl<F> Schedule<F> {
    /// Whether the call behind `event` is allowed in this state.
    pub open spec fn enabled(self, event: Event<F>) -> bool {
        match event {
            // A task number has to fit in a machine word.
            Event::Spawn(_) => self.tasks.len() < usize::MAX,
            Event::Wake(task) => task < self.tasks.len(),
            Event::Take => self.running is None,
            Event::Settle(_, _) => self.running is Some,
        }
    }

    /// The state after the call behind `event`.
    pub open spec fn after(self, event: Event<F>) -> Self {
        match event {
            Event::Spawn(computation) => self.spawned(computation),
            Event::Wake(task) => self.woken(task),
            Event::Take => self.taken(),
            Event::Settle(computation, outcome) => self.settled(computation, outcome),
        }
    }

    /// The task that the call behind `event` hands out to be advanced.
    pub open spec fn advances(self, event: Event<F>) -> Option<usize> {
        match event {
            Event::Take => self.next(),
            _ => None,
        }
    }

    /// Whether every call of `run`, made in turn from this state, is allowed.
    pub open spec fn admits(self, run: Seq<Event<F>>) -> bool
        decreases run.len(),
    {
        run.len() > 0 ==> self.enabled(run[0]) && self.after(run[0]).admits(run.skip(1))
    }

    /// The tasks that `run` hands out to be advanced, in the order of the run.
    pub open spec fn advanced(self, run: Seq<Event<F>>) -> Seq<usize>
        decreases run.len(),
    {
        if run.len() == 0 {
            Seq::empty()
        } else {
            let rest = self.after(run[0]).advanced(run.skip(1));
            match self.advances(run[0]) {
                Some(task) => seq![task] + rest,
                None => rest,
            }
        }
    }
}

/// How many calls of `take_next` a run makes.
pub open spec fn takes<F>(run: Seq<Event<F>>) -> nat
    decreases run.len(),
{
    if run.len() == 0 {
        0
    } else if run[0] is Take {
        1 + takes(run.skip(1))
    } else {
        takes(run.skip(1))
    }
}

/// Whether every occurrence of `later` in `order` has an occurrence of
/// `earlier` in front of it.
pub open spec fn precedes(order: Seq<usize>, earlier: usize, later: usize) -> bool {
    forall|j: int|
        0 <= j < order.len() && #[trigger] order[j] == later ==> exists|i: int|
            0 <= i < j && #[trigger] order[i] == earlier
}

/// Every allowed call keeps the executor well formed.
pub proof fn lemma_step_keeps_wf<F>(s: Schedule<F>, event: Event<F>)
    requires
        s.wf(),
        s.enabled(event),
    ensures
        s.after(event).wf(),
{
    if event is Take {
        lemma_stale_entries(s.ready, s.tasks);
    }
}

/// A task handed out by `take_next` was idle: it holds its computation and
/// has an entry in the queue.
pub proof fn lemma_next_is_idle<F>(s: Schedule<F>)
    requires
        s.wf(),
        s.running is None,
        s.next() is Some,
    ensures
        s.next()->0 < s.tasks.len(),
        s.tasks[s.next()->0 as int] is Idle,
        s.ready.contains(s.next()->0),
{
    lemma_stale_entries(s.ready, s.tasks);
    assert(s.ready[s.stale()] == s.next()->0);
}

/// An idle task that is queued in front of every entry for `later` is
/// handed out before `later` is, whatever the run does.
pub proof fn lemma_queued_ahead_is_advanced_first<F>(
    s: Schedule<F>,
    earlier: usize,
    later: usize,
    at: int,
    run: Seq<Event<F>>,
)
    requires
        s.wf(),
        earlier != later,
        earlier < s.tasks.len(),
        s.tasks[earlier as int] is Idle,
        0 <= at < s.ready.len(),
        s.ready[at] == earlier,
        forall|j: int| 0 <= j <= at ==> #[trigger] s.ready[j] != later,
        s.admits(run),
    ensures
        precedes(s.advanced(run), earlier, later),
    decreases run.len(),
{
    if run.len() > 0 {
        let event = run[0];
        let rest = run.skip(1);
        let t = s.after(event);
        lemma_step_keeps_wf(s, event);
        match event {
            Event::Take => {
                lemma_stale_entries(s.ready, s.tasks);
                let k = s.stale();
                if at < k {
                    assert(s.tasks[s.ready[at] as int] is Complete);
                }
                let first = s.ready[k];
                let tail = t.advanced(rest);
                let order = s.advanced(run);
                assert(order == seq![first] + tail);
                if first == earlier {
                    assert forall|j: int| 0 <= j < order.len() && #[trigger] order[j] == later implies exists|
                        i: int,
                    |
                        0 <= i < j && #[trigger] order[i] == earlier by {
                        assert(order[0] == earlier);
                    }
                } else {
                    assert(t.ready[at - k - 1] == earlier);
                    assert forall|j: int| 0 <= j <= at - k - 1 implies #[trigger] t.ready[j]
                        != later by {
                        assert(t.ready[j] == s.ready[j + k + 1]);
                    }
                    lemma_queued_ahead_is_advanced_first(t, earlier, later, at - k - 1, rest);
                    assert forall|j: int| 0 <= j < order.len() && #[trigger] order[j] == later implies exists|
                        i: int,
                    |
                        0 <= i < j && #[trigger] order[i] == earlier by {
                        assert(tail[j - 1] == later);
                        let i = choose|i: int| 0 <= i < j - 1 && #[trigger] tail[i] == earlier;
                        assert(order[i + 1] == earlier);
                    }
                }
            },
            _ => {
                assert(t.ready[at] == earlier);
                assert forall|j: int| 0 <= j <= at implies #[trigger] t.ready[j] != later by {
                    assert(t.ready[j] == s.ready[j]);
                }
                lemma_queued_ahead_is_advanced_first(t, earlier, later, at, rest);
            },
        }
    }
}

/// Delivery is first in, first out: a task is handed out to be advanced
/// before any task that is spawned after it, whatever else the run does.
///
/// `later` is any task number above the one that `computation` gets, so any
/// task that a later `spawn` creates.
pub proof fn lemma_fifo_delivery<F>(
    s: Schedule<F>,
    computation: F,
    later: usize,
    run: Seq<Event<F>>,
)
    requires
        s.wf(),
        s.tasks.len() < usize::MAX,
        later > s.next_id(),
        s.spawned(computation).admits(run),
    ensures
        precedes(s.spawned(computation).advanced(run), s.next_id(), later),
{
    let t = s.spawned(computation);
    lemma_step_keeps_wf(s, Event::Spawn(computation));
    let at = s.ready.len() as int;
    assert forall|j: int| 0 <= j <= at implies #[trigger] t.ready[j] != later by {
        if j < at {
            assert(t.ready[j] == s.ready[j]);
        }
    }
    lemma_queued_ahead_is_advanced_first(t, s.next_id(), later, at, run);
}

/// Completion is final: a task whose computation has reported `Ready` is
/// never handed out again, however many signals for it fire afterwards.
pub proof fn lemma_complete_is_never_advanced<F>(s: Schedule<F>, task: usize, run: Seq<Event<F>>)
    requires
        s.wf(),
        task < s.tasks.len(),
        s.tasks[task as int] is Complete,
        s.admits(run),
    ensures
        !s.advanced(run).contains(task),
    decreases run.len(),
{
    if run.len() > 0 {
        let event = run[0];
        let rest = run.skip(1);
        let t = s.after(event);
        lemma_step_keeps_wf(s, event);
        match event {
            Event::Take => {
                lemma_stale_entries(s.ready, s.tasks);
            },
            _ => {},
        }
        lemma_complete_is_never_advanced(t, task, rest);
        let tail = t.advanced(rest);
        let order = s.advanced(run);
        if order.contains(task) {
            let i = choose|i: int| 0 <= i < order.len() && order[i] == task;
            if s.advances(event) is Some {
                if i > 0 {
                    assert(tail[i - 1] == task);
                }
            } else {
                assert(tail[i] == task);
            }
        }
    }
}

/// Once the advance of the running task has ended with `Ready`, no run
/// hands that task out again.
pub proof fn lemma_ready_is_final<F>(s: Schedule<F>, computation: F, run: Seq<Event<F>>)
    requires
        s.wf(),
        s.running is Some,
        s.settled(computation, Poll::Ready).admits(run),
    ensures
        !s.settled(computation, Poll::Ready).advanced(run).contains(s.running->0),
{
    lemma_step_keeps_wf(s, Event::Settle(computation, Poll::Ready));
    lemma_complete_is_never_advanced(s.settled(computation, Poll::Ready), s.running->0, run);
}

/// No task waits for ever: an idle task with `at` entries in front of its
/// own is handed out by the time `take_next` has been called `at + 1` times.
pub proof fn lemma_queued_task_is_advanced<F>(
    s: Schedule<F>,
    task: usize,
    at: int,
    run: Seq<Event<F>>,
)
    requires
        s.wf(),
        task < s.tasks.len(),
        s.tasks[task as int] is Idle,
        0 <= at < s.ready.len(),
        s.ready[at] == task,
        s.admits(run),
        takes(run) > at,
    ensures
        s.advanced(run).contains(task),
    decreases run.len(),
{
    let event = run[0];
    let rest = run.skip(1);
    let t = s.after(event);
    lemma_step_keeps_wf(s, event);
    let tail = t.advanced(rest);
    let order = s.advanced(run);
    match event {
        Event::Take => {
            lemma_stale_entries(s.ready, s.tasks);
            let k = s.stale();
            if at < k {
                assert(s.tasks[s.ready[at] as int] is Complete);
            }
            let first = s.ready[k];
            assert(order == seq![first] + tail);
            if first == task {
                assert(order[0] == task);
            } else {
                assert(t.ready[at - k - 1] == task);
                lemma_queued_task_is_advanced(t, task, at - k - 1, rest);
                let i = choose|i: int| 0 <= i < tail.len() && tail[i] == task;
                assert(order[i + 1] == task);
            }
        },
        _ => {
            assert(t.ready[at] == task);
            lemma_queued_task_is_advanced(t, task, at, rest);
        },
    }
}

/// A computation spawned while another one is being advanced runs too: the
/// new task is handed out once `take_next` has been called more often than
/// there were entries in the queue when it was spawned.
pub proof fn lemma_spawned_task_is_advanced<F>(s: Schedule<F>, computation: F, run: Seq<Event<F>>)
    requires
        s.wf(),
        s.tasks.len() < usize::MAX,
        s.spawned(computation).admits(run),
        takes(run) > s.ready.len(),
    ensures
        s.spawned(computation).advanced(run).contains(s.next_id()),
{
    lemma_step_keeps_wf(s, Event::Spawn(computation));
    lemma_queued_task_is_advanced(
        s.spawned(computation),
        s.next_id(),
        s.ready.len() as int,
        run,
    );
}

/// A wake re-enqueues exactly the right task. Let the run loop advance a
/// task, let the task poll a delay with the signal it was given and report
/// `Pending`. Then the signal that the delay holds is that task's, and
/// firing it adds one entry, for that task, to the back of the queue and
/// changes nothing else; the task holds its computation and can run again.
pub proof fn lemma_wake_requeues_its_task<F>(s: Schedule<F>, delay: DelayState, computation: F)
    requires
        s.wf(),
        s.running is None,
        s.next() is Some,
    ensures
        ({
            let task = s.next()->0;
            let signal = WakeSignal { task };
            let held = delay.polled(signal).waker;
            let parked = s.taken().settled(computation, Poll::Pending);
            let woken = parked.woken(held->0.task);
            &&& held == Some(signal)
            &&& woken.ready == parked.ready.push(task)
            &&& woken.tasks == parked.tasks
            &&& woken.tasks[task as int] == Task::Idle(computation)
            &&& woken.running is None
            &&& woken.wf()
        }),
{
    let task = s.next()->0;
    lemma_next_is_idle(s);
    lemma_step_keeps_wf(s, Event::Take);
    lemma_step_keeps_wf(s.taken(), Event::Settle(computation, Poll::Pending));
    let parked = s.taken().settled(computation, Poll::Pending);
    lemma_step_keeps_wf(parked, Event::Wake(task));
}

} // verus!
