use async_local::notify::ThreadNotify;
use async_local::notify::WaitOutcome;

#[test]
fn wake_is_observed_by_next_wait() {
    let mut n = ThreadNotify::new();
    let unpark = n.wake();
    assert!(unpark);
    assert_eq!(n.wait_step(), WaitOutcome::Woken);
}

#[test]
fn wait_without_wake_parks() {
    let mut n = ThreadNotify::new();
    assert_eq!(n.wait_step(), WaitOutcome::Parked);
    assert!(n.parked);
}

#[test]
fn double_wake_is_observed_exactly_once() {
    let mut n = ThreadNotify::new();
    assert!(n.wake());
    assert!(!n.wake());
    assert_eq!(n.wait_step(), WaitOutcome::Woken);
    assert_eq!(n.wait_step(), WaitOutcome::Parked);
}

#[test]
fn wake_while_parked_asks_for_unpark() {
    let mut n = ThreadNotify::new();
    assert_eq!(n.wait_step(), WaitOutcome::Parked);
    assert!(n.wake());
    assert_eq!(n.wait_step(), WaitOutcome::Woken);
    assert!(!n.parked);
}

#[test]
fn wake_between_waits_is_not_lost() {
    let mut n = ThreadNotify::new();
    assert_eq!(n.wait_step(), WaitOutcome::Parked);
    n.wake();
    n.wake();
    n.wake();
    assert_eq!(n.wait_step(), WaitOutcome::Woken);
    assert_eq!(n.wait_step(), WaitOutcome::Parked);
}
