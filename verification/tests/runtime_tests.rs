use async_local::bridge::Settlement;
use async_local::bridge::converted_outcome;
use async_local::channel::Invocation;
use async_local::errors::ErrorKind;
use async_local::errors::Failure;
use async_local::executor::StepTask;
use async_local::notify::WaitOutcome;
use async_local::registry::RootObjectType;
use async_local::runtime::DispatchOutcome;
use async_local::runtime::Runtime;

fn fresh() -> Runtime<StepTask, u64> {
    Runtime::new(RootObjectType::Array)
}

/// Deliver every queued message, then keep simulating wake cycles — a
/// worker thread waking the notifier, the notifier queueing a dispatch —
/// until no task is left unfinished.
fn drive_to_idle(rt: &mut Runtime<StepTask, u64>) {
    loop {
        loop {
            match rt.dispatch() {
                DispatchOutcome::Idle => break,
                _ => {},
            }
        }
        if rt.pool.pending_count() == 0 {
            break;
        }
        rt.wake();
        assert_eq!(rt.notifier_step(), WaitOutcome::Woken);
    }
}

#[test]
fn spawn_arms_the_channel_and_queues_a_dispatch() {
    let mut rt = fresh();
    assert!(!rt.channel.armed);
    rt.spawn(StepTask { remaining: 0, outcome: Ok(1) }, None);
    assert!(rt.channel.armed);
    assert_eq!(rt.channel.queue, vec![Invocation::RunTasks]);
}

#[test]
fn idle_dispatch_does_nothing() {
    let mut rt = fresh();
    assert_eq!(rt.dispatch(), DispatchOutcome::Idle);
    assert!(!rt.channel.armed);
    assert_eq!(rt.bridge.log.len(), 0);
}

#[test]
fn zero_pending_disarms_the_channel() {
    let mut rt = fresh();
    rt.spawn(StepTask { remaining: 0, outcome: Ok(1) }, None);
    assert!(rt.channel.armed);
    assert_eq!(rt.dispatch(), DispatchOutcome::Ran(0));
    assert!(!rt.channel.armed); // the host process may exit
}

#[test]
fn channel_stays_armed_while_tasks_remain() {
    let mut rt = fresh();
    rt.spawn(StepTask { remaining: 3, outcome: Ok(1) }, None);
    assert_eq!(rt.dispatch(), DispatchOutcome::Ran(1));
    assert!(rt.channel.armed);
}

#[test]
fn timer_delay_order_settles_by_delay_not_spawn_order() {
    let mut rt = fresh();
    // three tasks resolving 1, 2, 3 after delays of 10, 5 and 1 wake cycles
    let (d1, _) = rt.spawn_promise(StepTask { remaining: 10, outcome: Ok(1) }, 0, 0);
    let (d2, _) = rt.spawn_promise(StepTask { remaining: 5, outcome: Ok(2) }, 0, 0);
    let (d3, _) = rt.spawn_promise(StepTask { remaining: 1, outcome: Ok(3) }, 0, 0);
    drive_to_idle(&mut rt);
    assert_eq!(
        rt.bridge.log,
        vec![
            (d3, Settlement::Resolved(3)),
            (d2, Settlement::Resolved(2)),
            (d1, Settlement::Resolved(1)),
        ]
    );
    assert!(!rt.channel.armed);
}

#[test]
fn racing_spawns_and_wakes_run_every_task_exactly_once() {
    let mut rt = fresh();
    // two tasks spawned by two workers at the same moment, wakes racing
    let (da, _) = rt.spawn_promise(StepTask { remaining: 2, outcome: Ok(10) }, 0, 0);
    let (db, _) = rt.spawn_promise(StepTask { remaining: 2, outcome: Ok(20) }, 0, 0);
    rt.wake();
    rt.wake(); // the second racing wake is a no-op
    assert_eq!(rt.notifier_step(), WaitOutcome::Woken);
    assert_eq!(rt.notifier_step(), WaitOutcome::Parked);
    drive_to_idle(&mut rt);
    assert_eq!(rt.bridge.log.len(), 2); // both ran to completion, neither twice
    assert!(rt.bridge.log.contains(&(da, Settlement::Resolved(10))));
    assert!(rt.bridge.log.contains(&(db, Settlement::Resolved(20))));
}

#[test]
fn promise_task_settles_exactly_once() {
    let mut rt = fresh();
    let (d, _) = rt.spawn_promise(StepTask { remaining: 0, outcome: Ok(7) }, 0, 0);
    drive_to_idle(&mut rt);
    assert_eq!(rt.bridge.log, vec![(d, Settlement::Resolved(7))]);
    // further cycles never settle it again
    rt.wake();
    rt.notifier_step();
    rt.dispatch();
    rt.dispatch();
    assert_eq!(rt.bridge.log, vec![(d, Settlement::Resolved(7))]);
}

#[test]
fn failed_conversion_rejects_and_releases_the_resolver() {
    let mut rt = fresh();
    // the task's value could not be represented in the host value model
    let outcome = converted_outcome(Ok(7), None);
    let (d, _) = rt.spawn_promise(StepTask { remaining: 0, outcome }, 0, 0);
    let resolver = rt.bridge.deferreds[d].resolver;
    let rejecter = rt.bridge.deferreds[d].rejecter;
    drive_to_idle(&mut rt);
    assert_eq!(
        rt.bridge.deferreds[d].settled,
        Some(Settlement::Rejected(Failure::Bridge(ErrorKind::ConversionFailed)))
    );
    assert_eq!(rt.store.count_of(resolver), Some(0)); // no leak
    assert_eq!(rt.store.count_of(rejecter), Some(0));
    assert!(rt.store.lookup(resolver).is_err());
}

#[test]
fn failed_task_rejects_its_deferred_with_its_error() {
    let mut rt = fresh();
    let (d, _) = rt.spawn_promise(
        StepTask { remaining: 1, outcome: Err(Failure::Body(42)) },
        0,
        0,
    );
    drive_to_idle(&mut rt);
    assert_eq!(rt.bridge.log, vec![(d, Settlement::Rejected(Failure::Body(42)))]);
}

#[test]
fn fire_and_forget_failure_is_reported_once() {
    let mut rt = fresh();
    rt.spawn(StepTask { remaining: 1, outcome: Err(Failure::Body(11)) }, None);
    drive_to_idle(&mut rt);
    assert_eq!(rt.diagnostics, vec![Failure::Body(11)]);
    // more cycles never report it again
    rt.wake();
    rt.notifier_step();
    rt.dispatch();
    assert_eq!(rt.diagnostics, vec![Failure::Body(11)]);
    assert_eq!(rt.bridge.log.len(), 0); // nothing to settle
}

#[test]
fn remote_release_is_marshaled_through_the_channel() {
    let mut rt = fresh();
    let h = rt.store.acquire(99);
    rt.release_remote(h);
    assert_eq!(rt.store.count_of(h), Some(1)); // nothing applied yet
    assert_eq!(rt.dispatch(), DispatchOutcome::Released { handle: h, was_live: true });
    assert_eq!(rt.store.count_of(h), Some(0));
}

#[test]
fn corrupt_remote_release_is_reported_and_abandoned() {
    let mut rt = fresh();
    let h = rt.store.acquire(99);
    rt.release_remote(h);
    rt.release_remote(h); // a double release of a single count
    rt.dispatch();
    assert_eq!(rt.dispatch(), DispatchOutcome::Released { handle: h, was_live: false });
    assert_eq!(rt.diagnostics, vec![Failure::Bridge(ErrorKind::HandleNotFound)]);
    assert_eq!(rt.store.count_of(h), Some(0)); // not driven below zero
}

#[test]
fn notifier_cycle_queues_a_dispatch_only_when_woken() {
    let mut rt = fresh();
    assert_eq!(rt.notifier_step(), WaitOutcome::Parked);
    assert_eq!(rt.channel.queue.len(), 0);
    rt.wake();
    assert_eq!(rt.notifier_step(), WaitOutcome::Woken);
    assert_eq!(rt.channel.queue, vec![Invocation::RunTasks]);
}

#[test]
fn reported_bridge_failures_land_in_the_diagnostics() {
    let mut rt = fresh();
    rt.report_failure(Failure::Bridge(ErrorKind::ChannelDispatchFailed));
    assert_eq!(rt.diagnostics, vec![Failure::Bridge(ErrorKind::ChannelDispatchFailed)]);
}

#[test]
fn channel_delivers_messages_in_issue_order() {
    let mut rt = fresh();
    let h1 = rt.store.acquire(1);
    let h2 = rt.store.acquire(2);
    rt.release_remote(h1);
    rt.release_remote(h2);
    assert_eq!(rt.dispatch(), DispatchOutcome::Released { handle: h1, was_live: true });
    assert_eq!(rt.dispatch(), DispatchOutcome::Released { handle: h2, was_live: true });
    assert_eq!(rt.dispatch(), DispatchOutcome::Idle);
}
