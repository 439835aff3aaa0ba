use bevy_steam_audio::cache::{OutputCache, SimulationOutputs};
use bevy_steam_audio::simulation::{
    decide_dispatch, settle_dispatch, settle_lock, Dispatch, Scheduler, SimulationError, TickStart,
    WorkerPhase, WorkerStep,
};
use bevy_steam_audio::sources::SimulationFlags;
use bevy_steam_audio::throttle::ThrottleTimer;

const MS: u128 = 1_000_000;

#[test]
fn timer_counts_up_to_its_period() {
    let mut timer = ThrottleTimer::new(500 * MS);
    assert_eq!(timer.period(), 500 * MS);
    assert_eq!(timer.elapsed(), 0);
    assert!(!timer.is_finished());
    timer.tick(200 * MS);
    assert_eq!(timer.elapsed(), 200 * MS);
    assert!(!timer.is_finished());
    timer.tick(299 * MS);
    assert_eq!(timer.elapsed(), 499 * MS);
    assert!(!timer.is_finished());
    timer.tick(2 * MS);
    assert!(timer.is_finished());
    assert_eq!(timer.elapsed(), 500 * MS);
}

#[test]
fn finished_timer_stays_finished_until_reset() {
    let mut timer = ThrottleTimer::new(10);
    timer.tick(u128::MAX);
    assert!(timer.is_finished());
    assert_eq!(timer.elapsed(), 10);
    timer.tick(7);
    assert!(timer.is_finished());
    assert_eq!(timer.elapsed(), 10);
    timer.reset();
    assert!(!timer.is_finished());
    assert_eq!(timer.elapsed(), 0);
    timer.tick(9);
    assert!(!timer.is_finished());
}

#[test]
fn timer_of_period_zero_finishes_at_its_first_tick() {
    let mut timer = ThrottleTimer::new(0);
    assert!(!timer.is_finished());
    timer.tick(0);
    assert!(timer.is_finished());
}

#[test]
fn dispatch_decisions() {
    let mut timer = ThrottleTimer::new(5);
    assert_eq!(decide_dispatch(true, &None, true), Dispatch::Off);
    assert_eq!(decide_dispatch(false, &Some(timer), true), Dispatch::Off);
    assert_eq!(decide_dispatch(true, &Some(timer), true), Dispatch::NotDue);
    assert_eq!(decide_dispatch(true, &Some(timer), false), Dispatch::NotDue);
    timer.tick(5);
    assert_eq!(decide_dispatch(true, &Some(timer), false), Dispatch::Deferred);
    assert_eq!(decide_dispatch(true, &Some(timer), true), Dispatch::Due);
}

#[test]
fn dispatch_and_lock_results() {
    assert_eq!(settle_dispatch(false, true, true), Err(SimulationError::NotDue));
    assert_eq!(settle_dispatch(true, false, true), Err(SimulationError::NotDue));
    assert_eq!(settle_dispatch(true, true, false), Err(SimulationError::WorkerGone));
    assert_eq!(settle_dispatch(true, true, true), Ok(()));
    assert_eq!(settle_lock(true), Ok(()));
    assert_eq!(settle_lock(false), Err(SimulationError::LockContended));
}

#[test]
fn worker_ends_when_the_channel_closes() {
    let (scheduler, mut worker) = Scheduler::<u32>::new(true, Some(1));
    assert_eq!(worker.current_phase(), WorkerPhase::Computing);
    // a worker that has not completed its pass has nothing to wait for
    assert_eq!(worker.after_wait(false), WorkerStep::RunPass);
    assert_eq!(worker.current_phase(), WorkerPhase::Computing);
    assert!(!scheduler.worker_idle());
    worker.pass_finished();
    assert_eq!(worker.current_phase(), WorkerPhase::Waiting);
    assert!(scheduler.worker_idle());
    assert_eq!(worker.after_wait(true), WorkerStep::RunPass);
    assert_eq!(worker.current_phase(), WorkerPhase::Computing);
    worker.pass_finished();
    drop(scheduler);
    let woken = worker.wake_signals().recv().is_ok();
    assert!(!woken);
    assert_eq!(worker.after_wait(woken), WorkerStep::Exit);
    assert_eq!(worker.current_phase(), WorkerPhase::Exited);
    assert_eq!(worker.after_wait(true), WorkerStep::Exit);
    worker.pass_finished();
    assert_eq!(worker.current_phase(), WorkerPhase::Exited);
}

#[test]
fn only_a_computing_worker_raises_the_flag() {
    let (mut scheduler, mut worker) = Scheduler::<u32>::new(true, Some(1));
    worker.pass_finished();
    assert_eq!(scheduler.poll(1), Dispatch::Due);
    assert_eq!(scheduler.dispatch(), Ok(()));
    assert!(!scheduler.worker_idle());
    // the worker still waits: it has no pass to complete
    worker.pass_finished();
    assert!(!scheduler.worker_idle());
    assert!(worker.wake_signals().try_recv().is_ok());
    assert_eq!(worker.after_wait(true), WorkerStep::RunPass);
    worker.pass_finished();
    assert!(scheduler.worker_idle());
}

#[test]
fn disabled_scheduler_skips_the_tick() {
    let (mut scheduler, mut worker) = Scheduler::<u32>::new(false, Some(5));
    worker.pass_finished();
    scheduler.enqueue(1);
    assert!(!scheduler.enabled());
    assert!(matches!(scheduler.begin_tick(), TickStart::Skip));
    assert_eq!(scheduler.poll(100), Dispatch::Off);
    assert_eq!(scheduler.dispatch(), Err(SimulationError::NotDue));
    assert_eq!(scheduler.pending_edits(), 1);
    scheduler.set_enabled(true);
    assert!(scheduler.enabled());
    assert_eq!(scheduler.poll(100), Dispatch::Due);
}

#[test]
fn a_new_period_starts_the_count_again() {
    let (mut scheduler, mut worker) = Scheduler::<u32>::new(true, Some(10));
    worker.pass_finished();
    assert_eq!(scheduler.period(), Some(10));
    assert_eq!(scheduler.poll(9), Dispatch::NotDue);
    scheduler.set_period(Some(5));
    assert_eq!(scheduler.period(), Some(5));
    assert_eq!(scheduler.poll(4), Dispatch::NotDue);
    assert_eq!(scheduler.poll(1), Dispatch::Due);
    scheduler.set_period(None);
    assert_eq!(scheduler.period(), None);
    assert_eq!(scheduler.poll(100), Dispatch::Off);
}

#[test]
fn scheduler_without_timer_never_dispatches() {
    let (mut scheduler, mut worker) = Scheduler::<u32>::new(true, None);
    worker.pass_finished();
    assert!(matches!(
        scheduler.begin_tick(),
        TickStart::Run { commit: true, .. }
    ));
    assert_eq!(scheduler.poll(u128::MAX), Dispatch::Off);
    assert_eq!(scheduler.dispatch(), Err(SimulationError::NotDue));
    assert!(worker.wake_signals().try_recv().is_err());
}

#[test]
fn edits_wait_until_the_worker_is_idle() {
    let (mut scheduler, mut worker) = Scheduler::<&'static str>::new(true, Some(5));
    scheduler.enqueue("add wall");
    scheduler.enqueue("move door");
    // the flag is down: the worker runs its first pass
    assert!(!scheduler.worker_idle());
    match scheduler.begin_tick() {
        TickStart::Run { commit, edits } => {
            assert!(!commit);
            assert!(edits.is_empty());
        }
        TickStart::Skip => panic!("an enabled scheduler does not skip"),
    }
    assert_eq!(scheduler.pending_edits(), 2);
    scheduler.enqueue("remove crate");
    worker.pass_finished();
    assert!(scheduler.worker_idle());
    match scheduler.begin_tick() {
        TickStart::Run { commit, edits } => {
            assert!(commit);
            assert_eq!(edits, vec!["add wall", "move door", "remove crate"]);
        }
        TickStart::Skip => panic!("an enabled scheduler does not skip"),
    }
    assert_eq!(scheduler.pending_edits(), 0);
}

#[test]
fn busy_worker_defers_the_pass_and_it_starts_once() {
    let (mut scheduler, mut worker) = Scheduler::<u32>::new(true, Some(30 * MS));
    assert_eq!(scheduler.poll(10 * MS), Dispatch::NotDue);
    assert_eq!(scheduler.poll(10 * MS), Dispatch::NotDue);
    // the period has elapsed, the first pass still runs
    assert_eq!(scheduler.poll(10 * MS), Dispatch::Deferred);
    assert_eq!(scheduler.dispatch(), Err(SimulationError::NotDue));
    assert_eq!(scheduler.poll(10 * MS), Dispatch::Deferred);
    assert!(worker.wake_signals().try_recv().is_err());
    // the worker completes: the very next tick starts the pass
    worker.pass_finished();
    assert_eq!(scheduler.poll(1), Dispatch::Due);
    assert_eq!(scheduler.dispatch(), Ok(()));
    assert!(!scheduler.worker_idle());
    assert!(worker.wake_signals().try_recv().is_ok());
    assert!(worker.wake_signals().try_recv().is_err());
    // and only that one: the timer starts over
    assert_eq!(scheduler.dispatch(), Err(SimulationError::NotDue));
    assert_eq!(scheduler.poll(29 * MS), Dispatch::NotDue);
    assert_eq!(scheduler.poll(MS), Dispatch::Deferred);
    assert!(worker.wake_signals().try_recv().is_err());
}

#[test]
fn a_pass_is_never_started_on_a_lowered_flag() {
    let (mut scheduler, mut worker) = Scheduler::<u32>::new(true, Some(1));
    worker.pass_finished();
    let mut wakes = 0;
    for _ in 0..50 {
        if scheduler.poll(1) == Dispatch::Due {
            assert_eq!(scheduler.dispatch(), Ok(()));
        }
        // a second try in the same tick finds the flag down
        assert_eq!(scheduler.dispatch(), Err(SimulationError::NotDue));
        while worker.wake_signals().try_recv().is_ok() {
            wakes += 1;
        }
    }
    // the worker never raised the flag again: one wake, not fifty
    assert_eq!(wakes, 1);
}

#[test]
fn a_lost_worker_is_reported() {
    let (mut scheduler, mut worker) = Scheduler::<u32>::new(true, Some(1));
    worker.pass_finished();
    drop(worker);
    assert_eq!(scheduler.poll(1), Dispatch::Due);
    assert_eq!(scheduler.dispatch(), Err(SimulationError::WorkerGone));
}

/// A source stands still, the listener comes closer over 100 ticks of 10 ms,
/// and the expensive pass is throttled to one per 500 ms.
#[test]
fn listener_approaching_over_a_hundred_ticks() {
    let (mut scheduler, mut worker) = Scheduler::<u32>::new(true, Some(500 * MS));
    let mut cache: OutputCache<u32, u32, u32> = OutputCache::new();
    let direct = SimulationFlags::from_bits_truncate(SimulationFlags::DIRECT);
    let background =
        SimulationFlags::from_bits_truncate(SimulationFlags::REFLECTIONS | SimulationFlags::PATHING);

    // the worker's first pass works on the inputs of tick 0 and completes early
    let mut pass_inputs = 0u32;
    let mut completed_pass = pass_inputs;
    worker.pass_finished();

    let mut direct_passes = 0;
    let mut dispatched_at = Vec::new();
    for tick in 1..=100u32 {
        let distance = 1000 - 10 * tick;
        match scheduler.begin_tick() {
            TickStart::Run { commit, edits } => {
                assert!(commit);
                assert!(edits.is_empty());
            }
            TickStart::Skip => panic!("an enabled scheduler does not skip"),
        }
        // the direct pass of this tick
        direct_passes += 1;
        cache.publish(
            direct,
            SimulationOutputs { direct: distance, reflections: 0, pathing: 0 },
        );
        assert_eq!(cache.direct_params(), Some(&distance));

        if scheduler.poll(10 * MS) == Dispatch::Due {
            // results of the pass that completed, then inputs for the next
            cache.publish(
                background,
                SimulationOutputs { direct: 0, reflections: completed_pass, pathing: completed_pass },
            );
            pass_inputs = distance;
            assert_eq!(scheduler.dispatch(), Ok(()));
            dispatched_at.push(tick);
            // the worker wakes, computes and completes before the next tick
            let woken = worker.wake_signals().try_recv().is_ok();
            assert_eq!(worker.after_wait(woken), WorkerStep::RunPass);
            completed_pass = pass_inputs;
            worker.pass_finished();
        }
        let expected_reflections = match dispatched_at.len() {
            0 => 0,
            1 => 0,
            _ => 500,
        };
        assert_eq!(cache.reflection_params(), Some(&expected_reflections));
        assert_eq!(cache.direct_params(), Some(&distance));
    }
    assert_eq!(direct_passes, 100);
    assert_eq!(dispatched_at, vec![50, 100]);
    assert_eq!(cache.reflection_params(), Some(&500));
    assert_eq!(completed_pass, 0);
}
