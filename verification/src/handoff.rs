//! The hand-over between the scheduler and the worker, as a state machine.
//!
//! [`Scheduler`](crate::simulation::Scheduler) and
//! [`Worker`](crate::simulation::Worker) run on two threads and meet in a
//! flag and a channel. What each of them does is small; what matters is that
//! every interleaving of their steps is in order. This module writes the
//! steps down as transitions of one state, with the scheduler's part given by
//! the same functions that specify the code, and proves what holds in every
//! state that any sequence of steps can reach.

use crate::scene::commit_plan;
use crate::simulation::{phase_after_pass, wait_outcome, SchedulerState, WorkerPhase};
use crate::throttle::TimerState;
use vstd::prelude::*;

verus! {

/// The scheduler, the worker and what lies between them.
pub struct Handoff<E> {
    /// The completion flag.
    pub flag: bool,
    /// Wake signals that were sent and not taken yet.
    pub wakes: nat,
    /// What the worker is doing.
    pub worker: WorkerPhase,
    /// The scheduler's own state.
    pub scheduler: SchedulerState<E>,
    /// The scheduler has lowered the flag and not sent the wake signal yet.
    pub sending: bool,
    /// The scheduler is gone, and the sending side of the channel with it.
    pub closed: bool,
    /// The scene edits that the engine can see.
    pub committed: Seq<E>,
    /// The scene edits that the engine could see when the flag last went
    /// down.
    pub in_pass: Seq<E>,
    /// Passes that the scheduler started.
    pub started: nat,
    /// Passes that the worker completed.
    pub completed: nat,
    /// Nanoseconds counted since the scheduler last started a pass.
    pub counted: nat,
    /// Nanoseconds counted in all.
    pub total: nat,
}

/// One step of one of the two sides.
pub enum Step<E> {
    /// Somebody queues a scene edit.
    Enqueue(E),
    /// The scheduler starts a tick: it reads the flag and commits if it is
    /// up.
    BeginTick,
    /// The scheduler counts the time of a tick.
    Poll { delta: nat },
    /// The scheduler tries to start a pass: where the period has elapsed and
    /// the flag is up, it lowers the flag and rewinds the timer.
    Dispatch,
    /// The scheduler sends the wake signal for the pass it has started.
    SendWake,
    /// The scheduler is dropped, which closes the channel.
    Close,
    /// The worker completes its pass and raises the flag.
    WorkerFinish,
    /// The worker's wait ends: it takes a wake signal and begins a pass, or
    /// it finds the channel empty and closed and ends.
    WorkerWake,
}

/// 1 where `condition` holds, and 0 where it does not.
pub open spec fn one_if(condition: bool) -> nat {
    if condition {
        1
    } else {
        0
    }
}

impl<E> Handoff<E> {
    /// The state in which a scheduler and its worker are made: the worker
    /// runs its first pass, the flag is down, nothing has been counted.
    pub open spec fn initial(enabled: bool, period: Option<nat>) -> Self {
        Handoff {
            flag: false,
            wakes: 0,
            worker: WorkerPhase::Computing,
            scheduler: SchedulerState {
                enabled,
                timer: match period {
                    Some(period) => Some(TimerState::fresh(period)),
                    None => None,
                },
                pending: Seq::empty(),
            },
            sending: false,
            closed: false,
            committed: Seq::empty(),
            in_pass: Seq::empty(),
            started: 0,
            completed: 0,
            counted: 0,
            total: 0,
        }
    }

    /// Passes that run or are about to: the worker computes, a wake signal
    /// is on its way, or the scheduler is about to send one.
    pub open spec fn in_flight(self) -> nat {
        one_if(self.worker is Computing) + self.wakes + one_if(self.sending)
    }

    /// The state after `step`. A step that cannot be taken changes nothing.
    pub open spec fn step(self, step: Step<E>) -> Self {
        match step {
            Step::Enqueue(edit) => Handoff {
                scheduler: SchedulerState { pending: self.scheduler.pending.push(edit), ..self.scheduler },
                ..self
            },
            Step::BeginTick => if self.scheduler.enabled && !self.closed {
                Handoff {
                    scheduler: self.scheduler.begun(self.flag),
                    committed: self.committed + commit_plan(self.scheduler.pending, self.flag).0,
                    ..self
                }
            } else {
                self
            },
            Step::Poll { delta } => if self.scheduler.enabled && !self.closed {
                Handoff {
                    scheduler: self.scheduler.polled(delta),
                    counted: self.counted + delta,
                    total: self.total + delta,
                    ..self
                }
            } else {
                self
            },
            Step::Dispatch => if self.scheduler.due() && self.flag && !self.sending && !self.closed {
                Handoff {
                    flag: false,
                    sending: true,
                    scheduler: self.scheduler.dispatched(),
                    in_pass: self.committed,
                    started: self.started + 1,
                    counted: 0,
                    ..self
                }
            } else {
                self
            },
            Step::SendWake => if self.sending && !self.closed {
                Handoff { sending: false, wakes: self.wakes + 1, ..self }
            } else {
                self
            },
            Step::Close => Handoff { closed: true, ..self },
            Step::WorkerFinish => if self.worker is Computing {
                Handoff {
                    worker: phase_after_pass(self.worker),
                    flag: true,
                    completed: self.completed + 1,
                    ..self
                }
            } else {
                self
            },
            Step::WorkerWake => if self.worker is Waiting && self.wakes > 0 {
                Handoff {
                    worker: wait_outcome(self.worker, true).0,
                    wakes: (self.wakes - 1) as nat,
                    ..self
                }
            } else if self.worker is Waiting && self.closed {
                Handoff { worker: wait_outcome(self.worker, false).0, ..self }
            } else {
                self
            },
        }
    }

    /// The state after all of `steps`.
    pub open spec fn run(self, steps: Seq<Step<E>>) -> Self
        decreases steps.len(),
    {
        if steps.len() == 0 {
            self
        } else {
            self.run(steps.drop_last()).step(steps.last())
        }
    }

    /// What holds in every state that can be reached.
    pub open spec fn inv(self) -> bool {
        &&& one_if(self.flag) + self.in_flight() == 1
        &&& !self.flag ==> self.committed == self.in_pass
        &&& self.completed == self.started + one_if(self.flag)
        &&& self.scheduler.wf()
        &&& self.scheduler.timer matches Some(timer) ==> {
            &&& timer.elapsed <= self.counted
            &&& self.started * timer.period + self.counted <= self.total
        }
        &&& self.scheduler.timer is None ==> self.started == 0
    }
}

/// The first state is in order.
pub proof fn lemma_initial_inv<E>(enabled: bool, period: Option<nat>)
    ensures
        Handoff::<E>::initial(enabled, period).inv(),
{
    let state = Handoff::<E>::initial(enabled, period);
    if let Some(timer) = state.scheduler.timer {
        assert(state.started * timer.period == 0) by (nonlinear_arith)
            requires
                state.started == 0,
        ;
    }
}

/// No step brings a state out of order.
pub proof fn lemma_step_inv<E>(state: Handoff<E>, step: Step<E>)
    requires
        state.inv(),
    ensures
        state.step(step).inv(),
{
    let next = state.step(step);
    match step {
        Step::Dispatch => {
            if state.scheduler.due() && state.flag && !state.sending {
                let timer = state.scheduler.timer->0;
                assert((state.started + 1) * timer.period == state.started * timer.period + timer.period)
                    by (nonlinear_arith);
            }
        },
        Step::Poll { delta } => {
            if state.scheduler.enabled && !state.closed {
                if let Some(timer) = state.scheduler.timer {
                    assert(next.scheduler.timer == Some(timer.ticked(delta)));
                }
            }
        },
        _ => {},
    }
}

/// Every state that a sequence of steps reaches is in order.
pub proof fn lemma_run_inv<E>(start: Handoff<E>, steps: Seq<Step<E>>)
    requires
        start.inv(),
    ensures
        start.run(steps).inv(),
    decreases steps.len(),
{
    if steps.len() > 0 {
        lemma_run_inv(start, steps.drop_last());
        lemma_step_inv(start.run(steps.drop_last()), steps.last());
    }
}

/// At most one pass in flight: whatever the two sides do and in whatever
/// order, never more than one pass runs or is on its way, no pass is on its
/// way while the flag is up, and the scheduler has never started more passes
/// than the worker has completed.
pub proof fn lemma_at_most_one_in_flight<E>(enabled: bool, period: Option<nat>, steps: Seq<Step<E>>)
    ensures
        Handoff::<E>::initial(enabled, period).run(steps).in_flight() <= 1,
        Handoff::<E>::initial(enabled, period).run(steps).flag ==> Handoff::<E>::initial(
            enabled,
            period,
        ).run(steps).in_flight() == 0,
        Handoff::<E>::initial(enabled, period).run(steps).started <= Handoff::<E>::initial(
            enabled,
            period,
        ).run(steps).completed,
{
    lemma_initial_inv::<E>(enabled, period);
    lemma_run_inv(Handoff::<E>::initial(enabled, period), steps);
}

/// A pass is only started on a completed one: the step that starts a pass
/// finds the flag up, and with it every earlier pass completed and no wake
/// signal left.
pub proof fn lemma_start_needs_completion<E>(state: Handoff<E>)
    requires
        state.inv(),
        state.step(Step::Dispatch).started == state.started + 1,
    ensures
        state.flag,
        state.in_flight() == 0,
        state.completed == state.started + 1,
        !state.step(Step::Dispatch).flag,
{
}

/// Commit ordering: while the flag is down the engine sees exactly the edits
/// that it saw when the flag went down, whatever has been queued since.
pub proof fn lemma_commit_ordering<E>(enabled: bool, period: Option<nat>, steps: Seq<Step<E>>)
    ensures
        !Handoff::<E>::initial(enabled, period).run(steps).flag ==> Handoff::<E>::initial(
            enabled,
            period,
        ).run(steps).committed == Handoff::<E>::initial(enabled, period).run(steps).in_pass,
{
    lemma_initial_inv::<E>(enabled, period);
    lemma_run_inv(Handoff::<E>::initial(enabled, period), steps);
}

/// An edit that is queued while the flag is down changes nothing that the
/// engine sees, and neither does any step before the flag is up again.
pub proof fn lemma_edit_waits<E>(state: Handoff<E>, step: Step<E>)
    requires
        state.inv(),
        !state.flag,
        !(step is WorkerFinish),
    ensures
        state.step(step).committed == state.committed,
        !state.step(step).flag,
        step matches Step::Enqueue(edit) ==> state.step(step).scheduler.pending == state.scheduler.pending.push(
            edit,
        ),
{
    assert(state.committed + Seq::<E>::empty() =~= state.committed);
}

/// Throttle: the passes started, times the period, fit into the time that
/// was counted. So no two passes start within one period.
pub proof fn lemma_throttle<E>(enabled: bool, period: nat, steps: Seq<Step<E>>)
    ensures
        Handoff::<E>::initial(enabled, Some(period)).run(steps).started * period <= Handoff::<E>::initial(
            enabled,
            Some(period),
        ).run(steps).total,
{
    let start = Handoff::<E>::initial(enabled, Some(period));
    lemma_initial_inv::<E>(enabled, Some(period));
    lemma_run_inv(start, steps);
    lemma_period_stays(start, steps);
}

/// No step changes the period.
pub proof fn lemma_period_stays<E>(start: Handoff<E>, steps: Seq<Step<E>>)
    ensures
        start.run(steps).scheduler.timer is Some == start.scheduler.timer is Some,
        start.scheduler.timer matches Some(timer) ==> start.run(steps).scheduler.timer->0.period
            == timer.period,
    decreases steps.len(),
{
    if steps.len() > 0 {
        lemma_period_stays(start, steps.drop_last());
    }
}

/// A pass that is due stays due while the worker is busy: counting more time
/// and trying to start it change nothing about that.
pub proof fn lemma_deferred_stays_due<E>(state: Handoff<E>, step: Step<E>)
    requires
        state.inv(),
        state.scheduler.due(),
        step is Poll || (step is Dispatch && !state.flag) || step is WorkerFinish || step is WorkerWake
            || step is SendWake || step is Close,
    ensures
        state.step(step).scheduler.due(),
        state.step(step).started == state.started,
{
}

/// A pass that is due starts as soon as the worker is free, and starts once:
/// the try that finds the flag up starts it, and a second try right after
/// starts nothing.
pub proof fn lemma_deferred_starts_once<E>(state: Handoff<E>)
    requires
        state.inv(),
        state.scheduler.due(),
        state.flag,
        !state.closed,
    ensures
        state.step(Step::Dispatch).started == state.started + 1,
        state.step(Step::Dispatch).step(Step::Dispatch) == state.step(Step::Dispatch),
        !state.step(Step::Dispatch).scheduler.due(),
{
}

} // verus!
