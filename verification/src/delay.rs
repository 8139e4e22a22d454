//! The delay: a leaf resource that becomes ready once its deadline has passed.
//!
//! Instants and durations are whole ticks of the host's monotonic clock,
//! counted from an origin that the host fixes.

use crate::task::{Poll, WakeSignal};
use vstd::prelude::*;

verus! {

/// What a delay is, as mathematics.
pub struct DelayState {
    /// The deadline.
    pub when: u64,
    /// The signal to fire at the deadline; `None` until the first poll.
    pub waker: Option<WakeSignal>,
}

impl DelayState {
    /// What a poll at `now` reports.
    pub open spec fn outcome(self, now: u64) -> Poll {
        if now >= self.when {
            Poll::Ready
        } else {
            Poll::Pending
        }
    }

    /// The waiter that a poll starts: one for the first poll, none afterwards.
    pub open spec fn started(self) -> Option<Waiter> {
        if self.waker is None {
            Some(Waiter { when: self.when })
        } else {
            None
        }
    }

    /// After a poll with `signal`: the most recent caller is the one to wake.
    pub open spec fn polled(self, signal: WakeSignal) -> DelayState {
        DelayState { when: self.when, waker: Some(signal) }
    }

    /// After one poll on behalf of each of `callers`, in their order.
    pub open spec fn polled_by(self, callers: Seq<WakeSignal>) -> DelayState
        decreases callers.len(),
    {
        if callers.len() == 0 {
            self
        } else {
            self.polled(callers[0]).polled_by(callers.skip(1))
        }
    }
}

/// The deadline alone decides: however often and by whomever a delay has
/// been polled, a poll before the deadline reports `Pending` and a poll at
/// or after it reports `Ready`.
pub proof fn lemma_deadline_decides(delay: DelayState, callers: Seq<WakeSignal>, now: u64)
    ensures
        delay.polled_by(callers).when == delay.when,
        now < delay.when ==> delay.polled_by(callers).outcome(now) == Poll::Pending,
        now >= delay.when ==> delay.polled_by(callers).outcome(now) == Poll::Ready,
    decreases callers.len(),
{
    if callers.len() > 0 {
        lemma_deadline_decides(delay.polled(callers[0]), callers.skip(1), now);
    }
}

/// A delay has one waiter, and the waiter serves the most recent caller:
/// once a delay has been polled, no further poll starts a waiter, and the
/// signal it holds is the one of the last poll.
pub proof fn lemma_one_waiter(delay: DelayState, callers: Seq<WakeSignal>)
    requires
        callers.len() > 0,
    ensures
        delay.polled_by(callers).started() is None,
        delay.polled_by(callers).waker == Some(callers.last()),
    decreases callers.len(),
{
    let rest = callers.skip(1);
    if rest.len() > 0 {
        lemma_one_waiter(delay.polled(callers[0]), rest);
        assert(rest.last() == callers.last());
    } else {
        assert(delay.polled(callers[0]).polled_by(rest) == delay.polled(callers[0]));
    }
}

/// A background waiter: it sleeps until `when` and then fires the signal
/// that its delay holds at that moment.
#[derive(Clone, Copy, Debug, PartialEq, Eq, Structural)]
pub struct Waiter {
    /// The instant until which the waiter sleeps.
    pub when: u64,
}

impl Waiter {
    /// How long a waiter that starts at `now` sleeps before it fires:
    /// `None` when the deadline has been reached already.
    pub fn sleep_for(&self, now: u64) -> (dur: Option<u64>)
        ensures
            dur is Some <==> now < self.when,
            dur matches Some(ticks) ==> ticks == self.when - now,
    {
        if now < self.when {
            Some(self.when - now)
        } else {
            None
        }
    }
}

/// What one poll of a delay yields.
#[derive(Clone, Copy, Debug, PartialEq, Eq, Structural)]
pub struct Polled {
    /// Whether the deadline has been reached.
    pub outcome: Poll,
    /// The waiter that the caller has to start now, if any.
    pub waiter: Option<Waiter>,
}

/// A computation that is ready at a deadline and pending before it.
pub struct Delay {
    when: u64,
    waker: Option<WakeSignal>,
}

impl View for Delay {
    type V = DelayState;

    closed spec fn view(&self) -> DelayState {
        DelayState { when: self.when, waker: self.waker }
    }
}

impl Delay {
    /// A delay with the deadline `when` that has not been polled yet.
    pub fn new(when: u64) -> (delay: Delay)
        ensures
            delay@ == (DelayState { when, waker: None }),
    {
        Delay { when, waker: None }
    }

    /// The deadline.
    pub fn when(&self) -> (deadline: u64)
        ensures
            deadline == self@.when,
    {
        self.when
    }

    /// The signal that the waiter fires: the one of the most recent poll.
    pub fn waker(&self) -> (waker: Option<WakeSignal>)
        ensures
            waker == self@.waker,
    {
        self.waker
    }

    /// Advances the delay at the instant `now` on behalf of the task behind `signal`.
    ///
    /// The first poll captures `signal` and asks for the one waiter of this
    /// delay. A later poll replaces the stored signal when the caller has
    /// changed. Either way the delay is ready exactly when `now` has reached
    /// the deadline.
    pub fn poll(&mut self, now: u64, signal: WakeSignal) -> (polled: Polled)
        ensures
            final(self)@ == old(self)@.polled(signal),
            polled.outcome == old(self)@.outcome(now),
            polled.waiter == old(self)@.started(),
    {
        let waiter = match self.waker {
            Some(stored) => {
                if !stored.will_wake(&signal) {
                    self.waker = Some(signal);
                }
                None
            },
            None => {
                self.waker = Some(signal);
                Some(Waiter { when: self.when })
            },
        };
        let outcome = if now >= self.when {
            Poll::Ready
        } else {
            Poll::Pending
        };
        Polled { outcome, waiter }
    }
}

/// A delay that becomes ready `dur` ticks after `now`.
pub fn delay(now: u64, dur: u64) -> (delay: Delay)
    requires
        now + dur <= u64::MAX,
    ensures
        delay@ == (DelayState { when: (now + dur) as u64, waker: None }),
{
    Delay::new(now + dur)
}

} // verus!
