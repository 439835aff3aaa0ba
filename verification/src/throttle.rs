//! The throttle timer.
//!
//! The expensive simulation pass is not started more often than once per
//! period. The timer counts the time that the ticks report until the period
//! has elapsed, and then stays finished until it is reset, so that a start
//! which has to wait for the worker is not forgotten.

use vstd::prelude::*;

verus! {

/// The mathematical state of a throttle timer, in nanoseconds.
pub struct TimerState {
    /// The time between two starts.
    pub period: nat,
    /// The time counted since the last reset, never more than the period.
    pub elapsed: nat,
    /// Whether the period has elapsed.
    pub finished: bool,
}

impl TimerState {
    /// The state is consistent: no more than the period has been counted,
    /// and a finished timer has counted all of it.
    pub open spec fn wf(self) -> bool {
        &&& self.elapsed <= self.period
        &&& self.finished ==> self.elapsed == self.period
    }

    /// A timer that has counted nothing yet.
    pub open spec fn fresh(period: nat) -> Self {
        TimerState { period, elapsed: 0, finished: false }
    }

    /// The timer after a tick of `delta` nanoseconds: a finished timer stays
    /// as it is, a running one counts on and finishes when it reaches the
    /// period.
    pub open spec fn ticked(self, delta: nat) -> Self {
        if self.finished {
            self
        } else if self.elapsed + delta >= self.period {
            TimerState { elapsed: self.period, finished: true, ..self }
        } else {
            TimerState { elapsed: self.elapsed + delta, ..self }
        }
    }

    /// The timer after a reset.
    pub open spec fn rewound(self) -> Self {
        TimerState { elapsed: 0, finished: false, ..self }
    }
}

/// A one-shot timer over nanoseconds.
#[derive(Clone, Copy, Debug, PartialEq, Eq, Structural)]
pub struct ThrottleTimer {
    period: u128,
    elapsed: u128,
    finished: bool,
}

impl View for ThrottleTimer {
    type V = TimerState;

    closed spec fn view(&self) -> TimerState {
        TimerState { period: self.period as nat, elapsed: self.elapsed as nat, finished: self.finished }
    }
}

impl ThrottleTimer {
    /// Every timer that this module hands out is consistent.
    pub closed spec fn wf(&self) -> bool {
        self@.wf()
    }

    /// A timer of `period` nanoseconds that has counted nothing yet.
    pub fn new(period: u128) -> (timer: Self)
        ensures
            timer.wf(),
            timer@ == TimerState::fresh(period as nat),
    {
        ThrottleTimer { period, elapsed: 0, finished: false }
    }

    /// Counts `delta` nanoseconds.
    pub fn tick(&mut self, delta: u128)
        requires
            old(self).wf(),
        ensures
            final(self).wf(),
            final(self)@ == old(self)@.ticked(delta as nat),
    {
        if self.finished {
            return ;
        }
        if delta >= self.period - self.elapsed {
            self.elapsed = self.period;
            self.finished = true;
        } else {
            self.elapsed = self.elapsed + delta;
        }
    }

    /// Whether the period has elapsed since the last reset.
    pub fn is_finished(&self) -> (finished: bool)
        ensures
            finished == self@.finished,
    {
        self.finished
    }

    /// Starts counting from zero again.
    pub fn reset(&mut self)
        requires
            old(self).wf(),
        ensures
            final(self).wf(),
            final(self)@ == old(self)@.rewound(),
    {
        self.elapsed = 0;
        self.finished = false;
    }

    /// The period in nanoseconds.
    pub fn period(&self) -> (period: u128)
        ensures
            period == self@.period,
    {
        self.period
    }

    /// The nanoseconds counted since the last reset.
    pub fn elapsed(&self) -> (elapsed: u128)
        ensures
            elapsed == self@.elapsed,
    {
        self.elapsed
    }
}

/// A finished timer stays finished, whatever is ticked, until it is reset.
pub proof fn lemma_finished_stays(timer: TimerState, delta: nat)
    requires
        timer.finished,
    ensures
        timer.ticked(delta) == timer,
{
}

/// A timer finishes at the first tick at which the time counted since the
/// reset reaches the period, and not before.
pub proof fn lemma_finishes_on_time(timer: TimerState, delta: nat)
    requires
        timer.wf(),
        !timer.finished,
    ensures
        timer.ticked(delta).finished <==> timer.elapsed + delta >= timer.period,
        timer.ticked(delta).wf(),
{
}

} // verus!
