use async_local::errors::ErrorKind;
use async_local::errors::Failure;
use async_local::executor::Pool;
use async_local::executor::StepTask;
use async_local::executor::TaskState;

#[test]
fn empty_pool_has_nothing_pending() {
    let mut p: Pool<StepTask> = Pool::new();
    assert_eq!(p.run_until_stalled(), 0);
    assert_eq!(p.pending_count(), 0);
}

#[test]
fn immediate_task_completes_on_first_drive() {
    let mut p: Pool<StepTask> = Pool::new();
    let id = p.spawn(StepTask { remaining: 0, outcome: Ok(5) }, None);
    assert_eq!(id, 0);
    assert_eq!(p.slots[0].state, TaskState::Pending);
    assert_eq!(p.run_until_stalled(), 0);
    assert_eq!(p.slots[0].state, TaskState::Completed);
    assert_eq!(p.slots[0].outcome, Some(Ok(5)));
}

#[test]
fn suspending_task_stays_until_enough_drives() {
    let mut p: Pool<StepTask> = Pool::new();
    p.spawn(StepTask { remaining: 2, outcome: Ok(1) }, None);
    assert_eq!(p.run_until_stalled(), 1);
    assert_eq!(p.slots[0].state, TaskState::Running);
    assert_eq!(p.run_until_stalled(), 1);
    assert_eq!(p.run_until_stalled(), 0);
    assert_eq!(p.slots[0].state, TaskState::Completed);
}

#[test]
fn failing_task_records_its_error() {
    let mut p: Pool<StepTask> = Pool::new();
    p.spawn(StepTask { remaining: 0, outcome: Err(Failure::Bridge(ErrorKind::ConversionFailed)) }, None);
    assert_eq!(p.run_until_stalled(), 0);
    assert_eq!(p.slots[0].state, TaskState::Failed);
    assert_eq!(p.slots[0].outcome, Some(Err(Failure::Bridge(ErrorKind::ConversionFailed))));
}

#[test]
fn tasks_interleave_but_keep_identities() {
    let mut p: Pool<StepTask> = Pool::new();
    let a = p.spawn(StepTask { remaining: 0, outcome: Ok(10) }, None);
    let b = p.spawn(StepTask { remaining: 1, outcome: Ok(20) }, Some(4));
    assert_eq!((a, b), (0, 1));
    assert_eq!(p.run_until_stalled(), 1);
    assert_eq!(p.slots[a].state, TaskState::Completed);
    assert_eq!(p.slots[b].state, TaskState::Running);
    assert_eq!(p.slots[b].deferred, Some(4));
    assert_eq!(p.run_until_stalled(), 0);
    assert_eq!(p.slots[b].outcome, Some(Ok(20)));
    assert_eq!(p.slots[b].deferred, Some(4));
}

#[test]
fn finished_slots_are_never_touched_again() {
    let mut p: Pool<StepTask> = Pool::new();
    p.spawn(StepTask { remaining: 0, outcome: Ok(3) }, None);
    p.run_until_stalled();
    let state = p.slots[0].state;
    let outcome = p.slots[0].outcome;
    p.run_until_stalled();
    assert_eq!(p.slots[0].state, state);
    assert_eq!(p.slots[0].outcome, outcome);
}
