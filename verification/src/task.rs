//! Tasks, wake signals and the outcome of one advance.

use vstd::prelude::*;

verus! {

/// How one advance of a computation ended.
#[derive(Clone, Copy, Debug, PartialEq, Eq, Structural)]
pub enum Poll {
    /// The computation has finished for good.
    Ready,
    /// The computation is suspended and has arranged to be woken.
    Pending,
}

/// A handle that names the task to put back on the ready queue.
///
/// Two signals are the same signal exactly when they name the same task.
#[derive(Clone, Copy, Debug, PartialEq, Eq, Structural)]
pub struct WakeSignal {
    /// The number of the task that this signal re-enqueues.
    pub task: usize,
}

impl WakeSignal {
    /// Whether firing `self` and firing `other` wake the same task.
    pub fn will_wake(&self, other: &WakeSignal) -> (same: bool)
        ensures
            same == (*self == *other),
    {
        self.task == other.task
    }
}

/// One computation under the executor's care.
pub enum Task<F> {
    /// Not finished and not being advanced; the task owns its computation.
    Idle(F),
    /// Handed out to be advanced; the caller of the advance holds the computation.
    Running,
    /// The computation reported `Ready` and has been dropped.
    Complete,
}

impl<F> Task<F> {
    /// Whether the task holds its computation and can be advanced.
    pub fn is_idle(&self) -> (idle: bool)
        ensures
            idle == (*self is Idle),
    {
        match self {
            Task::Idle(_) => true,
            _ => false,
        }
    }

    /// Whether the task's computation has reported `Ready`.
    pub fn is_complete(&self) -> (complete: bool)
        ensures
            complete == (*self is Complete),
    {
        match self {
            Task::Complete => true,
            _ => false,
        }
    }
}

} // verus!
