//! The dual-rate scheduler and its worker.
//!
//! Once per tick the control thread runs the cheap direct pass itself. The
//! expensive pass runs on a worker, at most once per throttle period and never
//! twice at a time. The two sides share one flag, which the worker raises when
//! a pass is complete and the scheduler lowers when it starts the next, and
//! one channel, over which the scheduler wakes the worker.
//!
//! The simulation engine itself is not in this module. A tick therefore comes
//! in steps, between which the caller does the engine's work:
//! [`Scheduler::begin_tick`], then the direct pass, then [`Scheduler::poll`],
//! and where that says [`Dispatch::Due`], the hand-over of inputs and outputs
//! and then [`Scheduler::dispatch`].

use crate::scene::{commit_plan, SceneMutationGate};
use crate::throttle::{ThrottleTimer, TimerState};
use std::sync::atomic::AtomicBool;
use std::sync::atomic::Ordering;
use std::sync::Arc;
use vstd::prelude::*;

verus! {

/// The sending side of a `crossbeam_channel` channel. Nothing is known of
/// what it holds.
#[verifier::external_type_specification]
#[verifier::external_body]
#[verifier::reject_recursive_types(T)]
pub struct ExSender<T>(crossbeam_channel::Sender<T>);

/// The receiving side of a `crossbeam_channel` channel. Nothing is known of
/// what it holds.
#[verifier::external_type_specification]
#[verifier::external_body]
#[verifier::reject_recursive_types(T)]
pub struct ExReceiver<T>(crossbeam_channel::Receiver<T>);

/// The error of `crossbeam_channel::Sender::send`: the message that could
/// not be sent.
#[verifier::external_type_specification]
#[verifier::external_body]
#[verifier::reject_recursive_types(T)]
pub struct ExSendError<T>(crossbeam_channel::SendError<T>);

/// Calls `crossbeam_channel::unbounded`, which makes a channel that holds
/// any number of messages. Nothing is claimed of the two ends.
#[verifier::external_body]
fn open_wake_channel() -> (ends: (crossbeam_channel::Sender<()>, crossbeam_channel::Receiver<()>)) {
    crossbeam_channel::unbounded()
}

/// Calls `crossbeam_channel::Sender::send` with the empty message. Whether
/// the message is taken depends on whether a receiver is left, so nothing is
/// claimed of the result.
#[verifier::external_body]
fn send_wake(wake: &crossbeam_channel::Sender<()>) -> (sent: Result<
    (),
    crossbeam_channel::SendError<()>,
>) {
    wake.send(())
}

/// Reads the completion flag.
fn is_raised(flag: &Arc<AtomicBool>) -> bool {
    flag.load(Ordering::SeqCst)
}

/// Lowers the completion flag: a pass is on its way.
fn lower(flag: &Arc<AtomicBool>) {
    flag.store(false, Ordering::SeqCst);
}

/// Raises the completion flag: the pass is complete.
fn raise(flag: &Arc<AtomicBool>) {
    flag.store(true, Ordering::Relaxed);
}

/// What can go wrong in a tick.
#[derive(Clone, Copy, Debug, PartialEq, Eq, Structural)]
pub enum SimulationError {
    /// The engine was locked although the worker was idle.
    LockContended,
    /// The worker is gone: nobody listens for the wake signal.
    WorkerGone,
    /// A pass was to be started although none was due.
    NotDue,
}

/// How a tick starts.
pub enum TickStart<E> {
    /// The simulation is switched off: the tick does nothing.
    Skip,
    /// The tick goes on. With `commit` set the worker is idle: the caller
    /// applies `edits` and commits the scene and the engine before the
    /// direct pass. Without it there are no edits and nothing is committed.
    Run { commit: bool, edits: Vec<E> },
}

/// What a tick does about the expensive pass.
#[derive(Clone, Copy, Debug, PartialEq, Eq, Structural)]
pub enum Dispatch {
    /// No expensive pass is wanted.
    Off,
    /// The throttle period has not elapsed.
    NotDue,
    /// The period has elapsed but the worker is busy: the pass waits, and
    /// the timer stays elapsed.
    Deferred,
    /// The period has elapsed and the worker is idle.
    Due,
}

/// What the worker does after its wait.
#[derive(Clone, Copy, Debug, PartialEq, Eq, Structural)]
pub enum WorkerStep {
    /// A wake signal came: the worker runs a pass.
    RunPass,
    /// The channel is closed: the worker ends.
    Exit,
}

/// What the worker is doing.
#[derive(Clone, Copy, Debug, PartialEq, Eq, Structural)]
pub enum WorkerPhase {
    /// An expensive pass is running.
    Computing,
    /// The pass is complete; the worker waits for a wake signal.
    Waiting,
    /// The worker has ended.
    Exited,
}

/// The phase after the worker has said that its pass is complete. Only a
/// worker that computes has a pass to complete.
pub open spec fn phase_after_pass(phase: WorkerPhase) -> WorkerPhase {
    if phase is Computing {
        WorkerPhase::Waiting
    } else {
        phase
    }
}

/// The phase after a wait that ended with a wake signal or with the channel
/// closed, and what the worker does next. A worker that did not wait goes on
/// with what it was doing.
pub open spec fn wait_outcome(phase: WorkerPhase, woken: bool) -> (WorkerPhase, WorkerStep) {
    match phase {
        WorkerPhase::Computing => (WorkerPhase::Computing, WorkerStep::RunPass),
        WorkerPhase::Waiting => if woken {
            (WorkerPhase::Computing, WorkerStep::RunPass)
        } else {
            (WorkerPhase::Exited, WorkerStep::Exit)
        },
        WorkerPhase::Exited => (WorkerPhase::Exited, WorkerStep::Exit),
    }
}

/// The mathematical state of a scheduler.
pub struct SchedulerState<E> {
    /// Whether the simulation is switched on.
    pub enabled: bool,
    /// The throttle timer; none where no expensive pass is wanted.
    pub timer: Option<TimerState>,
    /// The scene edits that wait for the next commit.
    pub pending: Seq<E>,
}

impl<E> SchedulerState<E> {
    /// The state is consistent: its timer is, where it has one.
    pub open spec fn wf(self) -> bool {
        self.timer matches Some(timer) ==> timer.wf()
    }

    /// Whether the throttle period has elapsed.
    pub open spec fn due(self) -> bool {
        self.enabled && (self.timer matches Some(timer) && timer.finished)
    }

    /// The state after the start of a tick that found the worker idle or
    /// not: a commit lets the waiting edits through.
    pub open spec fn begun(self, worker_idle: bool) -> Self {
        if self.enabled {
            SchedulerState { pending: commit_plan(self.pending, worker_idle).1, ..self }
        } else {
            self
        }
    }

    /// The state after `delta` nanoseconds were counted.
    pub open spec fn polled(self, delta: nat) -> Self {
        if self.enabled {
            SchedulerState {
                timer: match self.timer {
                    Some(timer) => Some(timer.ticked(delta)),
                    None => None,
                },
                ..self
            }
        } else {
            self
        }
    }

    /// The state after a pass was started.
    pub open spec fn dispatched(self) -> Self {
        SchedulerState {
            timer: match self.timer {
                Some(timer) => Some(timer.rewound()),
                None => None,
            },
            ..self
        }
    }
}

/// Whether a pass is started, for a timer that has just been ticked.
pub open spec fn dispatch_decision(enabled: bool, timer: Option<TimerState>, worker_idle: bool) -> Dispatch {
    match timer {
        Some(timer) if enabled => if !timer.finished {
            Dispatch::NotDue
        } else if worker_idle {
            Dispatch::Due
        } else {
            Dispatch::Deferred
        },
        _ => Dispatch::Off,
    }
}

/// How the start of a pass ends: it is refused unless the period has
/// elapsed and the worker is idle, and it fails when the wake signal finds
/// no worker.
pub open spec fn dispatch_result(due: bool, worker_idle: bool, delivered: bool) -> Result<
    (),
    SimulationError,
> {
    if !due || !worker_idle {
        Err(SimulationError::NotDue)
    } else if delivered {
        Ok(())
    } else {
        Err(SimulationError::WorkerGone)
    }
}

/// Decides whether a pass is started, for a timer that has just been ticked
/// and a worker that was found idle or not.
pub fn decide_dispatch(enabled: bool, timer: &Option<ThrottleTimer>, worker_idle: bool) -> (decision:
    Dispatch)
    ensures
        decision == dispatch_decision(
            enabled,
            match *timer {
                Some(timer) => Some(timer@),
                None => None,
            },
            worker_idle,
        ),
{
    if !enabled {
        return Dispatch::Off;
    }
    match timer {
        None => Dispatch::Off,
        Some(timer) => {
            if !timer.is_finished() {
                Dispatch::NotDue
            } else if worker_idle {
                Dispatch::Due
            } else {
                Dispatch::Deferred
            }
        },
    }
}

/// Says how the start of a pass ended.
pub fn settle_dispatch(due: bool, worker_idle: bool, delivered: bool) -> (result: Result<
    (),
    SimulationError,
>)
    ensures
        result == dispatch_result(due, worker_idle, delivered),
{
    if !due || !worker_idle {
        Err(SimulationError::NotDue)
    } else if delivered {
        Ok(())
    } else {
        Err(SimulationError::WorkerGone)
    }
}

/// Says what taking the engine's lock at a moment when the worker is idle
/// came to: finding it taken is a defect, and is reported.
pub fn settle_lock(acquired: bool) -> (result: Result<(), SimulationError>)
    ensures
        result == if acquired {
            Ok::<(), SimulationError>(())
        } else {
            Err(SimulationError::LockContended)
        },
{
    if acquired {
        Ok(())
    } else {
        Err(SimulationError::LockContended)
    }
}

/// The control thread's side of the simulation.
pub struct Scheduler<E> {
    enabled: bool,
    timer: Option<ThrottleTimer>,
    gate: SceneMutationGate<E>,
    complete: Arc<AtomicBool>,
    wake: crossbeam_channel::Sender<()>,
}

/// The worker's side of the simulation.
pub struct Worker {
    complete: Arc<AtomicBool>,
    wake: crossbeam_channel::Receiver<()>,
    phase: WorkerPhase,
}

impl<E> View for Scheduler<E> {
    type V = SchedulerState<E>;

    closed spec fn view(&self) -> SchedulerState<E> {
        SchedulerState {
            enabled: self.enabled,
            timer: match self.timer {
                Some(timer) => Some(timer@),
                None => None,
            },
            pending: self.gate@,
        }
    }
}

impl<E> Scheduler<E> {
    /// Every scheduler that this module hands out is consistent.
    pub closed spec fn wf(&self) -> bool {
        &&& self@.wf()
        &&& self.timer matches Some(timer) ==> timer.wf()
    }

    /// A scheduler and the worker's side that belongs to it. The flag is
    /// down: the worker is taken to run its first pass at once. With a
    /// `period`, in nanoseconds, the expensive pass is started at most once
    /// per period; without one it is never started.
    pub fn new(enabled: bool, period: Option<u128>) -> (pair: (Self, Worker))
        ensures
            pair.0.wf(),
            pair.1.phase() is Computing,
            pair.0@ == (SchedulerState::<E> {
                enabled,
                timer: match period {
                    Some(period) => Some(TimerState::fresh(period as nat)),
                    None => None,
                },
                pending: Seq::empty(),
            }),
    {
        let timer = match period {
            Some(period) => Some(ThrottleTimer::new(period)),
            None => None,
        };
        let complete = Arc::new(AtomicBool::new(false));
        let (sender, receiver) = open_wake_channel();
        let worker = Worker { complete: complete.clone(), wake: receiver, phase: WorkerPhase::Computing };
        let scheduler = Scheduler { enabled, timer, gate: SceneMutationGate::new(), complete, wake: sender };
        (scheduler, worker)
    }

    /// Whether the simulation is switched on.
    pub fn enabled(&self) -> (enabled: bool)
        ensures
            enabled == self@.enabled,
    {
        self.enabled
    }

    /// Switches the simulation on or off.
    pub fn set_enabled(&mut self, enabled: bool)
        requires
            old(self).wf(),
        ensures
            final(self).wf(),
            final(self)@ == (SchedulerState { enabled, ..old(self)@ }),
    {
        self.enabled = enabled;
    }

    /// The throttle period in nanoseconds; none where no expensive pass is
    /// wanted.
    pub fn period(&self) -> (period: Option<u128>)
        ensures
            match period {
                Some(period) => self@.timer is Some && self@.timer->0.period == period,
                None => self@.timer is None,
            },
    {
        match &self.timer {
            Some(timer) => Some(timer.period()),
            None => None,
        }
    }

    /// Sets the throttle period, in nanoseconds, and starts counting from
    /// zero; without a period no expensive pass is started any more.
    pub fn set_period(&mut self, period: Option<u128>)
        requires
            old(self).wf(),
        ensures
            final(self).wf(),
            final(self)@ == (SchedulerState {
                timer: match period {
                    Some(period) => Some(TimerState::fresh(period as nat)),
                    None => None,
                },
                ..old(self)@
            }),
    {
        self.timer = match period {
            Some(period) => Some(ThrottleTimer::new(period)),
            None => None,
        };
    }

    /// Whether the worker has completed its pass and waits for the next.
    /// The answer is what the flag held when it was read.
    pub fn worker_idle(&self) -> bool {
        is_raised(&self.complete)
    }

    /// How many scene edits wait for the next commit.
    pub fn pending_edits(&self) -> (len: usize)
        ensures
            len == self@.pending.len(),
    {
        self.gate.len()
    }

    /// Queues a scene edit. It stays out of the simulation's sight until a
    /// tick starts with an idle worker.
    pub fn enqueue(&mut self, edit: E)
        requires
            old(self).wf(),
        ensures
            final(self).wf(),
            final(self)@ == (SchedulerState { pending: old(self)@.pending.push(edit), ..old(self)@ }),
    {
        self.gate.enqueue(edit);
    }

    /// Starts a tick. A scheduler that is switched off skips it. Otherwise
    /// the flag is read once: `commit` is what it held, and `edits` are the
    /// waiting scene edits if it was up, and nothing if it was down.
    pub fn begin_tick(&mut self) -> (start: TickStart<E>)
        requires
            old(self).wf(),
        ensures
            final(self).wf(),
            match start {
                TickStart::Skip => !old(self)@.enabled && final(self)@ == old(self)@,
                TickStart::Run { commit, edits } => {
                    &&& old(self)@.enabled
                    &&& final(self)@ == old(self)@.begun(commit)
                    &&& edits@ == commit_plan(old(self)@.pending, commit).0
                },
            },
    {
        if !self.enabled {
            return TickStart::Skip;
        }
        let commit = is_raised(&self.complete);
        let edits = self.gate.commit(commit);
        TickStart::Run { commit, edits }
    }

    /// Counts `delta` nanoseconds and says what the tick does about the
    /// expensive pass. Where the period has elapsed the flag is read once,
    /// and the answer is `Due` if it was up and `Deferred` if it was down.
    pub fn poll(&mut self, delta: u128) -> (decision: Dispatch)
        requires
            old(self).wf(),
        ensures
            final(self).wf(),
            final(self)@ == old(self)@.polled(delta as nat),
            decision == dispatch_decision(
                final(self)@.enabled,
                final(self)@.timer,
                decision == Dispatch::Due,
            ),
    {
        if !self.enabled {
            return Dispatch::Off;
        }
        match &mut self.timer {
            None => { return Dispatch::Off; },
            Some(timer) => {
                timer.tick(delta);
                if !timer.is_finished() {
                    return Dispatch::NotDue;
                }
            },
        }
        let worker_idle = is_raised(&self.complete);
        decide_dispatch(self.enabled, &self.timer, worker_idle)
    }

    /// Starts the expensive pass: lowers the flag, rewinds the timer and
    /// wakes the worker. It is refused, and nothing changes, unless the
    /// period has elapsed and the flag is up. A wake signal that finds no
    /// worker is an error; the flag is down and the timer rewound all the
    /// same.
    pub fn dispatch(&mut self) -> (result: Result<(), SimulationError>)
        requires
            old(self).wf(),
        ensures
            final(self).wf(),
            !old(self)@.due() ==> result == Err::<(), SimulationError>(SimulationError::NotDue),
            result == Err::<(), SimulationError>(SimulationError::NotDue) ==> final(self)@ == old(self)@,
            result != Err::<(), SimulationError>(SimulationError::NotDue) ==> {
                &&& final(self)@ == old(self)@.dispatched()
                &&& result == Ok::<(), SimulationError>(()) || result == Err::<(), SimulationError>(
                    SimulationError::WorkerGone,
                )
            },
    {
        let due = self.enabled && match &self.timer {
            Some(timer) => timer.is_finished(),
            None => false,
        };
        if !due {
            return settle_dispatch(false, false, false);
        }
        let worker_idle = is_raised(&self.complete);
        if !worker_idle {
            return settle_dispatch(true, false, false);
        }
        lower(&self.complete);
        match &mut self.timer {
            Some(timer) => { timer.reset(); },
            None => {},
        }
        let delivered = match send_wake(&self.wake) {
            Ok(_) => true,
            Err(_) => false,
        };
        settle_dispatch(true, true, delivered)
    }
}

impl Worker {
    /// What the worker is doing.
    pub closed spec fn phase(&self) -> WorkerPhase {
        self.phase
    }

    /// What the worker is doing.
    pub fn current_phase(&self) -> (phase: WorkerPhase)
        ensures
            phase == self.phase(),
    {
        self.phase
    }

    /// The pass is complete: its results may be read and the next pass may
    /// be started. A worker that computes raises the flag and goes over to
    /// waiting; any other worker has no pass to complete, and nothing
    /// happens.
    pub fn pass_finished(&mut self)
        ensures
            final(self).phase() == phase_after_pass(old(self).phase()),
            final(self).channel() == old(self).channel(),
    {
        match self.phase {
            WorkerPhase::Computing => {
                raise(&self.complete);
                self.phase = WorkerPhase::Waiting;
            },
            WorkerPhase::Waiting => {},
            WorkerPhase::Exited => {},
        }
    }

    /// The receiving end of the wake channel that this worker was made
    /// with.
    pub closed spec fn channel(&self) -> crossbeam_channel::Receiver<()> {
        self.wake
    }

    /// The channel on which the wake signals arrive: the worker's own
    /// receiving end. The worker waits on it between two passes.
    pub fn wake_signals(&self) -> (signals: &crossbeam_channel::Receiver<()>)
        ensures
            *signals == self.channel(),
    {
        &self.wake
    }

    /// What the worker does after its wait, which ended with a wake signal
    /// or with the channel closed: it runs the next pass, or it ends.
    pub fn after_wait(&mut self, woken: bool) -> (step: WorkerStep)
        ensures
            (final(self).phase(), step) == wait_outcome(old(self).phase(), woken),
            final(self).channel() == old(self).channel(),
    {
        match self.phase {
            WorkerPhase::Computing => WorkerStep::RunPass,
            WorkerPhase::Waiting => {
                if woken {
                    self.phase = WorkerPhase::Computing;
                    WorkerStep::RunPass
                } else {
                    self.phase = WorkerPhase::Exited;
                    WorkerStep::Exit
                }
            },
            WorkerPhase::Exited => WorkerStep::Exit,
        }
    }
}

} // verus!
