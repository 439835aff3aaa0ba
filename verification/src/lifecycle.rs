//! The life of the engine across stream and quality changes.
//!
//! The engine, its lock and its worker live as long as the audio stream and
//! its settings stay as they are. A new stream or new settings tear them down
//! and build them again. That is rare and may stop the world, but it must
//! not overlap: the new worker starts only when the old one is gone.

use vstd::prelude::*;

verus! {

/// Where the engine stands.
#[derive(Clone, Copy, Debug, PartialEq, Eq, Structural)]
pub enum StreamPhase {
    /// There is no engine and no worker.
    Idle,
    /// The wake channel of the old worker is closed; its last pass may
    /// still run.
    Draining,
    /// The old worker is gone; the new engine is being built.
    Rebuilding,
    /// Engine and worker are up.
    Running,
}

/// What happens to the engine.
#[derive(Clone, Copy, Debug, PartialEq, Eq, Structural)]
pub enum StreamEvent {
    /// The audio stream started, or started again with another sample rate.
    StreamStarted,
    /// The quality settings changed.
    SettingsChanged,
    /// The worker has ended.
    WorkerExited,
    /// The engine has been built.
    EngineBuilt,
    /// The engine could not be built.
    BuildFailed,
}

/// What the caller does next.
#[derive(Clone, Copy, Debug, PartialEq, Eq, Structural)]
pub enum StreamAction {
    /// Nothing.
    Nothing,
    /// Close the wake channel, so that the worker ends after its pass.
    CloseWakeChannel,
    /// Build the engine, carrying the sources and the geometry over.
    BuildEngine,
    /// Start the worker.
    StartWorker,
}

/// The phase after `event` and the action that goes with the change. An
/// event that does not fit the phase changes nothing. A failed build leaves
/// the stream without an engine; it is not tried again.
pub open spec fn stream_step(phase: StreamPhase, event: StreamEvent) -> (StreamPhase, StreamAction) {
    match (phase, event) {
        (StreamPhase::Idle, StreamEvent::StreamStarted) => (StreamPhase::Rebuilding, StreamAction::BuildEngine),
        (StreamPhase::Running, StreamEvent::StreamStarted) => (
            StreamPhase::Draining,
            StreamAction::CloseWakeChannel,
        ),
        (StreamPhase::Running, StreamEvent::SettingsChanged) => (
            StreamPhase::Draining,
            StreamAction::CloseWakeChannel,
        ),
        (StreamPhase::Draining, StreamEvent::WorkerExited) => (
            StreamPhase::Rebuilding,
            StreamAction::BuildEngine,
        ),
        (StreamPhase::Rebuilding, StreamEvent::EngineBuilt) => (
            StreamPhase::Running,
            StreamAction::StartWorker,
        ),
        (StreamPhase::Rebuilding, StreamEvent::BuildFailed) => (StreamPhase::Idle, StreamAction::Nothing),
        _ => (phase, StreamAction::Nothing),
    }
}

/// Takes the engine from one phase to the next.
pub fn advance(phase: StreamPhase, event: StreamEvent) -> (next: (StreamPhase, StreamAction))
    ensures
        next == stream_step(phase, event),
{
    match (phase, event) {
        (StreamPhase::Idle, StreamEvent::StreamStarted) => (StreamPhase::Rebuilding, StreamAction::BuildEngine),
        (StreamPhase::Running, StreamEvent::StreamStarted) => (
            StreamPhase::Draining,
            StreamAction::CloseWakeChannel,
        ),
        (StreamPhase::Running, StreamEvent::SettingsChanged) => (
            StreamPhase::Draining,
            StreamAction::CloseWakeChannel,
        ),
        (StreamPhase::Draining, StreamEvent::WorkerExited) => (
            StreamPhase::Rebuilding,
            StreamAction::BuildEngine,
        ),
        (StreamPhase::Rebuilding, StreamEvent::EngineBuilt) => (
            StreamPhase::Running,
            StreamAction::StartWorker,
        ),
        (StreamPhase::Rebuilding, StreamEvent::BuildFailed) => (StreamPhase::Idle, StreamAction::Nothing),
        _ => (phase, StreamAction::Nothing),
    }
}

/// Workers that are alive in `phase`.
pub open spec fn workers_alive(phase: StreamPhase) -> nat {
    match phase {
        StreamPhase::Idle => 0,
        StreamPhase::Rebuilding => 0,
        StreamPhase::Draining => 1,
        StreamPhase::Running => 1,
    }
}

/// Old and new worker never overlap: a worker is started only in a phase in
/// which none is alive, and that phase is left for one with a worker only
/// by starting it.
pub proof fn lemma_one_worker(phase: StreamPhase, event: StreamEvent)
    ensures
        stream_step(phase, event).1 is StartWorker ==> workers_alive(phase) == 0 && workers_alive(
            stream_step(phase, event).0,
        ) == 1,
        workers_alive(stream_step(phase, event).0) > workers_alive(phase) ==> stream_step(phase, event).1
            is StartWorker,
        workers_alive(stream_step(phase, event).0) < workers_alive(phase) ==> event is WorkerExited,
{
}

/// An engine is built only when no worker is alive.
pub proof fn lemma_build_after_drain(phase: StreamPhase, event: StreamEvent)
    ensures
        stream_step(phase, event).1 is BuildEngine ==> workers_alive(stream_step(phase, event).0) == 0
            && stream_step(phase, event).0 is Rebuilding,
{
}

} // verus!
