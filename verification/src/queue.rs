//! The ready queue: an unbounded channel of task numbers.

use crossbeam::channel::{Receiver, Sender};
use vstd::prelude::*;

verus! {

/// `crossbeam::channel::Sender`, the producing half of a channel. Opaque.
#[verifier::external_type_specification]
#[verifier::external_body]
#[verifier::reject_recursive_types(T)]
pub struct ExSender<T>(Sender<T>);

/// `crossbeam::channel::Receiver`, the consuming half of a channel. Opaque.
#[verifier::external_type_specification]
#[verifier::external_body]
#[verifier::reject_recursive_types(T)]
pub struct ExReceiver<T>(Receiver<T>);

/// The task numbers waiting in the channel that `scheduled` consumes, oldest first.
pub uninterp spec fn queued(scheduled: Receiver<usize>) -> Seq<usize>;

/// Whether `sender` produces into the channel that `scheduled` consumes.
pub uninterp spec fn feeds(sender: Sender<usize>, scheduled: Receiver<usize>) -> bool;

/// Both halves of one unbounded channel.
///
/// The halves stay inside this crate, are never cloned and never leave this
/// value, so the channel has a single producer and a single consumer and
/// changes only through `&mut self`. That is what lets its contents be
/// spoken of as a sequence.
pub struct ReadyQueue {
    pub(crate) sender: Sender<usize>,
    pub(crate) scheduled: Receiver<usize>,
}

impl ReadyQueue {
    /// The task numbers in the queue, oldest first.
    pub open(crate) spec fn items(&self) -> Seq<usize> {
        queued(self.scheduled)
    }

    /// The two halves belong to the same channel.
    pub open(crate) spec fn wf(&self) -> bool {
        feeds(self.sender, self.scheduled)
    }

    /// Calls `crossbeam::channel::unbounded`. Trusted: the new channel holds
    /// no message, and the returned halves belong together.
    #[verifier::external_body]
    pub(crate) fn new() -> (queue: ReadyQueue)
        ensures
            feeds(queue.sender, queue.scheduled),
            queued(queue.scheduled) == Seq::<usize>::empty(),
    {
        let (sender, scheduled) = crossbeam::channel::unbounded();
        ReadyQueue { sender, scheduled }
    }

    /// Calls `Sender::send`. Trusted: on an unbounded channel whose receiver
    /// is alive the call returns at once and the message becomes the newest
    /// in the channel, behind all that were there.
    #[verifier::external_body]
    pub(crate) fn push(&mut self, task: usize)
        requires
            feeds(old(self).sender, old(self).scheduled),
        ensures
            feeds(final(self).sender, final(self).scheduled),
            queued(final(self).scheduled) == queued(old(self).scheduled).push(task),
    {
        let _ = self.sender.send(task);
    }

    /// Calls `Receiver::try_recv`. Trusted: the call never blocks; from an
    /// empty channel it takes nothing, and otherwise it takes the oldest
    /// message and leaves the others in their order. The sender is alive in
    /// the same value, so the only error that the call can return is the one
    /// for an empty channel.
    #[verifier::external_body]
    pub(crate) fn pop(&mut self) -> (task: Option<usize>)
        requires
            feeds(old(self).sender, old(self).scheduled),
        ensures
            feeds(final(self).sender, final(self).scheduled),
            queued(old(self).scheduled).len() == 0 ==> task is None && queued(
                final(self).scheduled,
            ) == queued(old(self).scheduled),
            queued(old(self).scheduled).len() > 0 ==> task == Some(queued(old(self).scheduled)[0])
                && queued(final(self).scheduled) == queued(old(self).scheduled).skip(1),
    {
        match self.scheduled.try_recv() {
            Ok(task) => Some(task),
            Err(_) => None,
        }
    }
}

} // verus!
