use legacy_reactor::ready::{
    ready_from_event, Direction, READABLE, READ_CANCELED, READ_CLOSED, WRITABLE, WRITE_CANCELED,
    WRITE_CLOSED,
};
use legacy_reactor::reactor::{OpError, OpStep, PollOp, RawEvent, Reactor, OPERATION_CANCELED};
use legacy_reactor::scheduled_io::ScheduledIo;
use legacy_reactor::slab::Slab;
use legacy_reactor::wake::{effective_timeout, must_clear_awake, must_trigger};

fn event(token: usize, readable: bool, writable: bool) -> RawEvent {
    RawEvent { token, readable, writable, read_closed: false, write_closed: false }
}

#[test]
fn direction_masks() {
    assert_eq!(Direction::Read.mask(), READABLE | READ_CLOSED | READ_CANCELED);
    assert_eq!(Direction::Write.mask(), WRITABLE | WRITE_CLOSED | WRITE_CANCELED);
    assert_eq!(Direction::Read.cancel_bit(), 16);
    assert_eq!(Direction::Write.cancel_bit(), 32);
}

#[test]
fn event_translation() {
    assert_eq!(ready_from_event(false, false, false, false), 0);
    assert_eq!(ready_from_event(true, false, false, false), 1);
    assert_eq!(ready_from_event(false, true, false, false), 2);
    assert_eq!(ready_from_event(true, true, true, true), 15);
    assert_eq!(ready_from_event(false, false, true, false), 4);
    assert_eq!(ready_from_event(false, true, false, true), 10);
}

#[test]
fn slab_reuses_freed_keys() {
    let mut s: Slab<u32> = Slab::new();
    let a = s.insert(10);
    let b = s.insert(20);
    assert_ne!(a, b);
    assert_eq!(s.get(a), Some(&10));
    assert_eq!(s.remove(a), Some(10));
    assert_eq!(s.remove(a), None);
    assert!(!s.contains(a));
    assert_eq!(s.get(b), Some(&20));
    let c = s.insert(30);
    assert_eq!(c, a);
    assert_eq!(s.get(c), Some(&30));
    assert_eq!(s.get(b), Some(&20));
}

#[test]
fn cell_accumulates_and_clears() {
    let mut c: ScheduledIo<u32> = ScheduledIo::new();
    c.set_readiness(READABLE);
    c.set_readiness(WRITE_CLOSED);
    assert_eq!(c.readiness, READABLE | WRITE_CLOSED);
    c.clear_readiness(Direction::Read.mask());
    assert_eq!(c.readiness, WRITE_CLOSED);
    assert_eq!(c.poll_readiness(Direction::Read, 7), None);
    assert_eq!(c.reader, Some(7));
    assert_eq!(c.poll_readiness(Direction::Write, 8), Some((WRITE_CLOSED, 8)));
    assert_eq!(c.writer, None);
    assert_eq!(c.wake(WRITABLE), Vec::<u32>::new());
    assert_eq!(c.wake(READ_CLOSED), vec![7]);
    assert_eq!(c.reader, None);
}

#[test]
fn readable_scenario_round_trip() {
    let mut r: Reactor<u32> = Reactor::new();
    let t = r.insert_io();
    let interest = Some((Direction::Read, t));
    assert!(matches!(r.poll_op(interest, 1), OpStep::Pending));
    assert!(r.is_armed(t, Direction::Read));
    assert_eq!(r.dispatch(t, READABLE), vec![1]);
    assert!(!r.is_armed(t, Direction::Read));
    match r.poll_op(interest, 2) {
        OpStep::Retry(w) => {
            assert_eq!(w, 2);
            assert_eq!(r.complete_op(interest, w, Ok(5)), PollOp::Ready(Ok(5)));
        }
        _ => panic!("the operation should run"),
    }
    assert!(!r.is_armed(t, Direction::Read));
    assert!(!r.is_armed(t, Direction::Write));
}

#[test]
fn stale_readiness_rearms() {
    let mut r: Reactor<u32> = Reactor::new();
    let t = r.insert_io();
    let interest = Some((Direction::Read, t));
    assert_eq!(r.dispatch(t, READABLE | WRITABLE), Vec::<u32>::new());
    assert!(matches!(r.poll_op(interest, 3), OpStep::Retry(3)));
    assert_eq!(r.complete_op(interest, 3, Err(OpError::WouldBlock)), PollOp::Pending);
    assert_eq!(r.readiness(t), Some(WRITABLE));
    assert!(r.is_armed(t, Direction::Read));
    assert_eq!(r.dispatch(t, READABLE), vec![3]);
}

#[test]
fn readiness_accumulates_per_direction() {
    let mut r: Reactor<u32> = Reactor::new();
    let t = r.insert_io();
    r.dispatch(t, READABLE);
    r.dispatch(t, WRITABLE);
    r.dispatch(t, READABLE);
    assert_eq!(r.readiness(t), Some(READABLE | WRITABLE));
    let interest = Some((Direction::Write, t));
    assert_eq!(r.complete_op(interest, 4, Err(OpError::WouldBlock)), PollOp::Pending);
    assert_eq!(r.readiness(t), Some(READABLE));
}

#[test]
fn armed_waker_invoked_once() {
    let mut r: Reactor<u32> = Reactor::new();
    let t = r.insert_io();
    assert!(matches!(r.poll_op(Some((Direction::Write, t)), 9), OpStep::Pending));
    assert!(matches!(r.poll_op(Some((Direction::Read, t)), 8), OpStep::Pending));
    assert_eq!(r.dispatch(t, WRITABLE), vec![9]);
    assert_eq!(r.dispatch(t, WRITABLE), Vec::<u32>::new());
    assert_eq!(r.dispatch(t, READABLE | WRITABLE), vec![8]);
    assert_eq!(r.dispatch(t, READABLE), Vec::<u32>::new());
}

#[test]
fn cancel_wakes_and_is_observed_once() {
    let mut r: Reactor<u32> = Reactor::new();
    let t = r.insert_io();
    r.dispatch(t, WRITABLE);
    let interest = Some((Direction::Read, t));
    assert!(matches!(r.poll_op(interest, 5), OpStep::Pending));
    assert_eq!(r.cancel_op(t, Direction::Read), vec![5]);
    assert_eq!(r.readiness(t), Some(WRITABLE | READ_CANCELED));
    assert!(matches!(r.poll_op(interest, 6), OpStep::Canceled));
    assert_eq!(r.readiness(t), Some(WRITABLE));
    assert!(matches!(r.poll_op(interest, 7), OpStep::Pending));
    assert_eq!(OpError::Canceled.raw_os_error(11), OPERATION_CANCELED);
    assert_eq!(OpError::WouldBlock.raw_os_error(11), 11);
    assert_eq!(OpError::Os(2).raw_os_error(11), 2);
}

#[test]
fn unknown_token_is_ignored() {
    let mut r: Reactor<u32> = Reactor::new();
    let a = r.insert_io();
    assert!(matches!(r.poll_op(Some((Direction::Read, a)), 1), OpStep::Pending));
    assert_eq!(r.dispatch(a + 100, READABLE | WRITABLE), Vec::<u32>::new());
    assert_eq!(r.cancel_op(a + 100, Direction::Read), Vec::<u32>::new());
    assert_eq!(r.readiness(a + 100), None);
    assert_eq!(r.readiness(a), Some(0));
    assert!(r.is_armed(a, Direction::Read));
}

#[test]
fn deregistered_token_is_gone() {
    let mut r: Reactor<u32> = Reactor::new();
    let a = r.insert_io();
    let b = r.insert_io();
    assert!(r.contains(a));
    r.remove_io(a);
    assert!(!r.contains(a));
    assert_eq!(r.readiness(a), None);
    assert_eq!(r.dispatch(a, READABLE), Vec::<u32>::new());
    assert!(!r.contains(a));
    assert!(r.contains(b));
    r.remove_io(a);
    assert!(r.contains(b));
}

#[test]
fn batch_skips_wake_token() {
    let mut r: Reactor<u32> = Reactor::new();
    let a = r.insert_io();
    let b = r.insert_io();
    assert!(matches!(r.poll_op(Some((Direction::Read, a)), 1), OpStep::Pending));
    assert!(matches!(r.poll_op(Some((Direction::Write, b)), 2), OpStep::Pending));
    let wake_token: usize = 1 << 31;
    let batch = vec![event(wake_token, true, true), event(b, false, true), event(a, true, false), event(77, true, true)];
    assert_eq!(r.dispatch_events(&batch, wake_token), vec![2, 1]);
    assert_eq!(r.readiness(a), Some(READABLE));
    assert_eq!(r.readiness(b), Some(WRITABLE));
    assert_eq!(r.readiness(77), None);
}

#[test]
fn no_interest_runs_at_once() {
    let mut r: Reactor<u32> = Reactor::new();
    assert!(matches!(r.poll_op(None, 4), OpStep::Retry(4)));
    assert_eq!(r.complete_op(None, 4, Err(OpError::WouldBlock)), PollOp::Ready(Err(OpError::WouldBlock)));
    assert_eq!(r.complete_op(None, 4, Err(OpError::Os(9))), PollOp::Ready(Err(OpError::Os(9))));
}

#[test]
fn wake_decisions() {
    assert!(must_trigger(false));
    assert!(!must_trigger(true));
    assert!(must_clear_awake(0));
    assert!(!must_clear_awake(2));
    assert_eq!(effective_timeout(3, 0, Some(50u64), Some(0)), Some(0));
    assert_eq!(effective_timeout(0, 1, None, Some(0u64)), Some(0));
    assert_eq!(effective_timeout(0, 0, Some(50u64), Some(0)), Some(50));
    assert_eq!(effective_timeout::<Option<u64>>(0, 0, None, Some(0)), None);
}
