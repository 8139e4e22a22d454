//! The core of a small cooperative task executor with one resource, a timer.
//!
//! The executor keeps a first-in, first-out ready queue of tasks. Spawning a
//! computation wraps it in a task and queues it; the run loop takes the next
//! task, advances its computation by one step, and hands the computation back
//! together with how the step ended. A wake signal puts its task on the queue
//! again. A delay is the leaf resource: it reports ready once its deadline
//! has passed and says when a background waiter has to be started for it.
//!
//! Everything here is sequential. The host reads the clock, sleeps, runs the
//! computations and carries wake signals between threads; it calls into this
//! crate for every decision.

pub mod delay;
pub mod executor;
mod queue;
pub mod task;
pub mod trace;
