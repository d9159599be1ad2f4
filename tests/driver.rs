use std::sync::atomic::{AtomicUsize, Ordering};
use std::sync::Arc;
use std::task::{Wake, Waker};
use std::time::Duration;

use legacy_reactor::driver::{LegacyDriver, WaitOutcome};
use legacy_reactor::ready::Direction;
use legacy_reactor::reactor::{OpStep, RawEvent};

struct Counter(AtomicUsize);

impl Wake for Counter {
    fn wake(self: Arc<Self>) {
        self.0.fetch_add(1, Ordering::SeqCst);
    }
}

fn counter() -> (Arc<Counter>, Waker) {
    let c = Arc::new(Counter(AtomicUsize::new(0)));
    let w = Waker::from(c.clone());
    (c, w)
}

#[test]
fn queued_wake_requests_are_drained_before_blocking() {
    let (mut driver, sender) = LegacyDriver::new().unwrap();
    let (c, w) = counter();
    for _ in 0..3 {
        sender.send(w.clone()).unwrap();
    }
    driver.park().unwrap();
    assert_eq!(c.0.load(Ordering::SeqCst), 3);
}

#[test]
fn unpark_wakes_a_sleeping_driver() {
    let (mut driver, _sender) = LegacyDriver::new_with_entries(8).unwrap();
    driver.submit().unwrap();
    driver.shared_signal().wake().unwrap();
    driver.shared_signal().wake().unwrap();
    driver.park().unwrap();
}

#[test]
fn refused_registration_rolls_back() {
    let (mut driver, _sender) = LegacyDriver::new_with_entries(16).unwrap();
    assert!(driver.register(-1, mio::Interest::READABLE).is_err());
    assert!(!driver.is_registered(0));
    assert_eq!(driver.readiness(0), None);
}

#[test]
fn cancel_of_unknown_token_changes_nothing() {
    let (mut driver, _sender) = LegacyDriver::new_with_entries(16).unwrap();
    driver.cancel_op(5, Direction::Read);
    assert!(!driver.is_registered(5));
    assert!(driver.deregister(5, -1).is_err());
    driver.park_timeout(Duration::from_millis(1)).unwrap();
}

#[test]
fn no_interest_operation_runs_at_once() {
    let (mut driver, _sender) = LegacyDriver::new().unwrap();
    let (c, w) = counter();
    assert!(matches!(driver.poll_op(None, w), OpStep::Retry(_)));
    assert_eq!(c.0.load(Ordering::SeqCst), 0);
}

#[test]
fn interrupted_wait_is_an_empty_batch() {
    let (mut driver, _sender) = LegacyDriver::new().unwrap();
    let ws = driver.settle_wait(WaitOutcome::Interrupted, &vec![]).unwrap();
    assert!(ws.is_empty());
    let fired = vec![RawEvent { token: 3, readable: true, writable: false, read_closed: false, write_closed: false }];
    let ws = driver.settle_wait(WaitOutcome::Interrupted, &fired).unwrap();
    assert!(ws.is_empty());
    assert!(!driver.is_registered(3));
}

#[test]
fn failed_wait_returns_its_error() {
    let (mut driver, _sender) = LegacyDriver::new().unwrap();
    let e = std::io::Error::from_raw_os_error(5);
    match driver.settle_wait(WaitOutcome::Failed(e), &vec![]) {
        Err(e) => assert_eq!(e.raw_os_error(), Some(5)),
        Ok(_) => panic!("a failed wait must report its error"),
    }
}

#[test]
fn fired_batch_for_unknown_tokens_wakes_nothing() {
    let (mut driver, _sender) = LegacyDriver::new().unwrap();
    let fired = vec![
        RawEvent { token: 1 << 31, readable: true, writable: true, read_closed: false, write_closed: false },
        RawEvent { token: 4, readable: true, writable: false, read_closed: false, write_closed: false },
    ];
    let ws = driver.settle_wait(WaitOutcome::Fired, &fired).unwrap();
    assert!(ws.is_empty());
    assert_eq!(driver.readiness(4), None);
}

#[test]
fn wake_source_triggered_only_when_flag_clear() {
    let (mut driver, _sender) = LegacyDriver::new().unwrap();
    assert!(driver.shared_signal().trigger_unless_awake(true).is_none());
    assert!(driver.shared_signal().trigger_unless_awake(false).unwrap().is_ok());
    driver.park().unwrap();
}
