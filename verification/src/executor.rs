//! The executor: a ready queue, a table of tasks, and the decisions of the run loop.

use crate::queue::ReadyQueue;
use crate::task::{Poll, Task, WakeSignal};
use vstd::prelude::*;

verus! {

/// What an executor holds, as mathematics.
pub struct Schedule<F> {
    /// The ready queue, oldest entry first. An entry is a task number.
    pub ready: Seq<usize>,
    /// Every task spawned so far; a task's number is its index.
    pub tasks: Seq<Task<F>>,
    /// The task that is being advanced, if one is.
    pub running: Option<usize>,
}

/// How many entries at the head of `ready` name a task that is complete.
pub open spec fn stale_entries<F>(ready: Seq<usize>, tasks: Seq<Task<F>>) -> nat
    decreases ready.len(),
{
    if ready.len() > 0 && tasks[ready[0] as int] is Complete {
        1 + stale_entries(ready.skip(1), tasks)
    } else {
        0
    }
}

impl<F> Schedule<F> {
    /// Queue entries name spawned tasks, and `running` names the one task
    /// whose computation is handed out.
    pub open spec fn wf(self) -> bool {
        &&& forall|i: int| 0 <= i < self.ready.len() ==> (#[trigger] self.ready[i]) < self.tasks.len()
        &&& forall|t: int|
            0 <= t < self.tasks.len() ==> ((#[trigger] self.tasks[t]) is Running <==> (
            self.running matches Some(r) && r == t))
        &&& self.running matches Some(r) ==> r < self.tasks.len()
    }

    /// An executor that has spawned nothing.
    pub open spec fn empty() -> Self {
        Schedule { ready: Seq::empty(), tasks: Seq::empty(), running: None }
    }

    /// The number that the next spawned task gets.
    pub open spec fn next_id(self) -> usize {
        self.tasks.len() as usize
    }

    /// After wrapping `computation` in a new task and queueing it.
    pub open spec fn spawned(self, computation: F) -> Self {
        Schedule {
            ready: self.ready.push(self.next_id()),
            tasks: self.tasks.push(Task::Idle(computation)),
            running: self.running,
        }
    }

    /// After firing a wake signal bound to `task`.
    pub open spec fn woken(self, task: usize) -> Self {
        Schedule { ready: self.ready.push(task), tasks: self.tasks, running: self.running }
    }

    /// How many entries at the head of the queue are stale.
    pub open spec fn stale(self) -> int {
        stale_entries(self.ready, self.tasks) as int
    }

    /// The task that the run loop advances next: the oldest queue entry
    /// whose task is not complete.
    pub open spec fn next(self) -> Option<usize> {
        let k = self.stale();
        if k < self.ready.len() {
            Some(self.ready[k])
        } else {
            None
        }
    }

    /// After the run loop has taken `next()` out of the queue, together with
    /// the stale entries in front of it.
    pub open spec fn taken(self) -> Self {
        let k = self.stale();
        match self.next() {
            Some(task) => Schedule {
                ready: self.ready.skip(k + 1),
                tasks: self.tasks.update(task as int, Task::Running),
                running: Some(task),
            },
            None => Schedule { ready: Seq::empty(), tasks: self.tasks, running: None },
        }
    }

    /// After the advance of the running task ended with `outcome` and
    /// `computation` was handed back.
    pub open spec fn settled(self, computation: F, outcome: Poll) -> Self {
        let task = self.running->0 as int;
        Schedule {
            ready: self.ready,
            tasks: self.tasks.update(
                task,
                match outcome {
                    Poll::Ready => Task::Complete,
                    Poll::Pending => Task::Idle(computation),
                },
            ),
            running: None,
        }
    }
}

/// Entries known to be stale can be skipped before counting the rest.
pub proof fn lemma_stale_prefix<F>(ready: Seq<usize>, tasks: Seq<Task<F>>, n: int)
    requires
        0 <= n <= ready.len(),
        forall|j: int| 0 <= j < n ==> tasks[(#[trigger] ready[j]) as int] is Complete,
    ensures
        stale_entries(ready, tasks) == n + stale_entries(ready.skip(n), tasks),
    decreases n,
{
    if n == 0 {
        assert(ready.skip(0) =~= ready);
    } else {
        assert(tasks[ready[0] as int] is Complete);
        let rest = ready.skip(1);
        assert forall|j: int| 0 <= j < n - 1 implies tasks[(#[trigger] rest[j]) as int] is Complete by {
            assert(rest[j] == ready[j + 1]);
        }
        lemma_stale_prefix(rest, tasks, n - 1);
        assert(rest.skip(n - 1) =~= ready.skip(n));
    }
}

/// The stale entries at the head of the queue are all complete, and the
/// entry behind them, if there is one, is not.
pub proof fn lemma_stale_entries<F>(ready: Seq<usize>, tasks: Seq<Task<F>>)
    ensures
        stale_entries(ready, tasks) <= ready.len(),
        forall|j: int|
            0 <= j < stale_entries(ready, tasks) ==> tasks[(#[trigger] ready[j]) as int] is Complete,
        stale_entries(ready, tasks) < ready.len() ==> !(tasks[ready[stale_entries(
            ready,
            tasks,
        ) as int] as int] is Complete),
    decreases ready.len(),
{
    if ready.len() > 0 && tasks[ready[0] as int] is Complete {
        let rest = ready.skip(1);
        lemma_stale_entries(rest, tasks);
        let k = stale_entries(rest, tasks) as int;
        assert forall|j: int| 0 <= j < k + 1 implies tasks[(#[trigger] ready[j]) as int] is Complete by {
            if j > 0 {
                assert(ready[j] == rest[j - 1]);
            }
        }
        if k + 1 < ready.len() {
            assert(ready[k + 1] == rest[k]);
        }
    }
}

/// A small executor for computations of type `F`.
///
/// Tasks are scheduled by sending their numbers into a channel; the run loop
/// receives from it. The executor owns both halves.
pub struct MiniTokio<F> {
    scheduled: ReadyQueue,
    tasks: Vec<Task<F>>,
    running: Option<usize>,
}

impl<F> View for MiniTokio<F> {
    type V = Schedule<F>;

    closed spec fn view(&self) -> Schedule<F> {
        Schedule { ready: self.scheduled.items(), tasks: self.tasks@, running: self.running }
    }
}

impl<F> MiniTokio<F> {
    /// The two halves of the channel belong together.
    pub closed spec fn linked(&self) -> bool {
        self.scheduled.wf()
    }

    /// The invariant that every method keeps.
    pub open spec fn wf(&self) -> bool {
        self.linked() && self@.wf()
    }

    /// An executor with an empty ready queue and no task.
    pub fn new() -> (executor: MiniTokio<F>)
        ensures
            executor.wf(),
            executor@ == Schedule::<F>::empty(),
    {
        MiniTokio { scheduled: ReadyQueue::new(), tasks: Vec::new(), running: None }
    }

    /// How many tasks have been spawned so far. Tasks are numbered from
    /// zero in the order of their spawning.
    pub fn task_count(&self) -> (count: usize)
        ensures
            count == self@.tasks.len(),
    {
        self.tasks.len()
    }

    /// The signal of the task that is being advanced, if one is.
    pub fn running(&self) -> (running: Option<WakeSignal>)
        ensures
            running is Some <==> self@.running is Some,
            running matches Some(signal) ==> self@.running == Some(signal.task),
    {
        match self.running {
            Some(task) => Some(WakeSignal { task }),
            None => None,
        }
    }

    /// Whether `task` has been spawned and its computation has reported `Ready`.
    pub fn is_complete(&self, task: usize) -> (complete: bool)
        ensures
            complete == (task < self@.tasks.len() && self@.tasks[task as int] is Complete),
    {
        task < self.tasks.len() && self.tasks[task].is_complete()
    }

    /// Wraps `future` in a new task and puts the task at the back of the ready queue.
    pub fn spawn(&mut self, future: F)
        requires
            old(self).wf(),
        ensures
            final(self).wf(),
            final(self)@ == old(self)@.spawned(future),
    {
        let task = self.tasks.len();
        self.tasks.push(Task::Idle(future));
        self.scheduled.push(task);
    }

    /// Fires `signal`: its task goes to the back of the ready queue, whether
    /// or not it is queued already and whether or not it is complete.
    pub fn wake(&mut self, signal: WakeSignal)
        requires
            old(self).wf(),
            signal.task < old(self)@.tasks.len(),
        ensures
            final(self).wf(),
            final(self)@ == old(self)@.woken(signal.task),
    {
        self.scheduled.push(signal.task);
    }

    /// Takes the next task to advance off the ready queue.
    ///
    /// Entries for complete tasks are dropped on the way: advancing a
    /// complete task does nothing. The task found is marked as running and
    /// its computation is handed out with the wake signal bound to the task;
    /// `settle` hands the computation back. `None` means the queue is empty:
    /// nothing can run until a signal fires.
    pub fn take_next(&mut self) -> (next: Option<(WakeSignal, F)>)
        requires
            old(self).wf(),
            old(self)@.running is None,
        ensures
            final(self).wf(),
            final(self)@ == old(self)@.taken(),
            next is Some <==> old(self)@.next() is Some,
            next matches Some((signal, future)) ==> old(self)@.next() == Some(signal.task) && old(
                self,
            )@.tasks[signal.task as int] == Task::Idle(future),
    {
        loop
            invariant
                self.wf(),
                self@.running is None,
                self@.tasks == old(self)@.tasks,
                self@.ready.len() <= old(self)@.ready.len(),
                self@.ready == old(self)@.ready.skip(old(self)@.ready.len() - self@.ready.len()),
                forall|j: int|
                    0 <= j < old(self)@.ready.len() - self@.ready.len() ==> old(
                        self,
                    )@.tasks[(#[trigger] old(self)@.ready[j]) as int] is Complete,
            decreases self@.ready.len(),
        {
            let ghost before = self@;
            let ghost dropped = old(self)@.ready.len() - before.ready.len();
            proof {
                lemma_stale_prefix(old(self)@.ready, old(self)@.tasks, dropped);
            }
            match self.scheduled.pop() {
                None => {
                    assert(self@.ready =~= Seq::<usize>::empty());
                    return None;
                },
                Some(task) => {
                    assert(task == old(self)@.ready[dropped]);
                    assert(self@.ready =~= old(self)@.ready.skip(dropped + 1));
                    let mut slot = Task::Running;
                    core::mem::swap(&mut self.tasks[task], &mut slot);
                    match slot {
                        Task::Idle(future) => {
                            self.running = Some(task);
                            return Some((WakeSignal { task }, future));
                        },
                        stale => {
                            self.tasks.set(task, stale);
                            assert(self.tasks@ =~= old(self)@.tasks);
                        },
                    }
                },
            }
        }
    }

    /// Ends the advance that `take_next` began: hands `future` back and says
    /// how the step ended. After `Ready` the task is complete and its
    /// computation is dropped; after `Pending` the task owns it again and
    /// waits for a signal.
    pub fn settle(&mut self, future: F, outcome: Poll)
        requires
            old(self).wf(),
            old(self)@.running is Some,
        ensures
            final(self).wf(),
            final(self)@ == old(self)@.settled(future, outcome),
    {
        let task = self.running.unwrap();
        let state = match outcome {
            Poll::Ready => Task::Complete,
            Poll::Pending => Task::Idle(future),
        };
        self.tasks.set(task, state);
        self.running = None;
    }
}

/// Spawns `future` on the executor that is registered in `current`.
///
/// `current` is the slot through which a computation finds the executor it
/// runs under. Spawning while the slot is empty is a usage error.
pub fn spawn<F>(current: &mut Option<MiniTokio<F>>, future: F)
    requires
        *old(current) is Some,
        (*old(current))->0.wf(),
    ensures
        *final(current) is Some,
        (*final(current))->0.wf(),
        (*final(current))->0@ == (*old(current))->0@.spawned(future),
{
    if let Some(executor) = current {
        executor.spawn(future);
    }
}

} // verus!
