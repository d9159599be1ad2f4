use vstd::prelude::*;

use std::sync::Arc;
use std::sync::atomic::{AtomicBool, Ordering};
use std::time::Duration;

use crate::ready::{CANCELED, Direction, READABLE, cancel_bit_of, event_bits, mask_of};
use crate::reactor::{
    OpError,
    OpStep,
    PollOp,
    RawEvent,
    Reactor,
    batch_applied,
    batch_woken,
    bits_of,
    lemma_batch_keeps_bits,
    lemma_batch_keeps_registrations,
    lemma_batch_wakes_slot_once,
    slot_woken,
    touches,
};
use crate::scheduled_io::{ScheduledIo, armed, cleared, dispatched, ready_bits, woken};
use crate::wake::{effective_timeout, must_clear_awake, must_trigger, unpark_step, wait_timeout};

verus! {

#[verifier::external_type_specification]
#[verifier::external_body]
pub struct ExMioPoll(mio::Poll);

#[verifier::external_type_specification]
#[verifier::external_body]
pub struct ExMioEvents(mio::Events);

#[verifier::external_type_specification]
#[verifier::external_body]
pub struct ExMioWaker(mio::Waker);

#[verifier::external_type_specification]
#[verifier::external_body]
pub struct ExMioInterest(mio::Interest);

#[verifier::external_type_specification]
#[verifier::external_body]
pub struct ExIoError(std::io::Error);

#[verifier::external_type_specification]
#[verifier::external_body]
pub struct ExTaskWaker(std::task::Waker);

#[verifier::external_type_specification]
#[verifier::external_body]
#[verifier::reject_recursive_types(T)]
pub struct ExReceiver<T>(flume::Receiver<T>);

#[verifier::external_type_specification]
#[verifier::external_body]
#[verifier::reject_recursive_types(T)]
pub struct ExSender<T>(flume::Sender<T>);

/// Relies on mio::Poll::new and mio::Waker::new: opens the OS multiplexer and registers
/// its one wake source under `token`. The wake source is made on the fresh `Poll` here,
/// as mio allows a single waker per `Poll`.
#[verifier::external_body]
fn open_poll_with_wake_source(token: usize) -> (r: std::io::Result<(mio::Poll, mio::Waker)>) {
    let poll = mio::Poll::new()?;
    let waker = mio::Waker::new(poll.registry(), mio::Token(token))?;
    Ok((poll, waker))
}

/// Relies on mio::Events::with_capacity: an empty event buffer.
#[verifier::external_body]
fn event_buffer(capacity: usize) -> (r: mio::Events) {
    mio::Events::with_capacity(capacity)
}

/// Relies on mio::Waker::wake: makes the multiplexer's current or next wait return.
#[verifier::external_body]
fn trigger_wake_source(w: &mio::Waker) -> (r: std::io::Result<()>) {
    w.wake()
}

/// Relies on mio::Registry::register, for a raw file descriptor through mio's SourceFd.
#[verifier::external_body]
fn register_source(poll: &mio::Poll, fd: i32, token: usize, interest: mio::Interest) -> (r: std::io::Result<()>) {
    poll.registry().register(&mut mio::unix::SourceFd(&fd), mio::Token(token), interest)
}

/// Relies on mio::Registry::deregister, for a raw file descriptor through mio's SourceFd.
#[verifier::external_body]
fn deregister_source(poll: &mio::Poll, fd: i32) -> (r: std::io::Result<()>) {
    poll.registry().deregister(&mut mio::unix::SourceFd(&fd))
}

/// Relies on mio::Poll::poll, waiting with no timeout, a zero one or the given one; and
/// on std::io::Error::kind to tell an interruption by a signal from other errors.
#[verifier::external_body]
fn wait_for_events(poll: &mut mio::Poll, events: &mut mio::Events, timeout: WaitTimeout) -> (r: WaitOutcome) {
    let timeout = match timeout {
        WaitTimeout::Forever => None,
        WaitTimeout::Zero => Some(Duration::ZERO),
        WaitTimeout::Upto(d) => Some(d),
    };
    match poll.poll(events, timeout) {
        Ok(()) => WaitOutcome::Fired,
        Err(e) if e.kind() == std::io::ErrorKind::Interrupted => WaitOutcome::Interrupted,
        Err(e) => WaitOutcome::Failed(e),
    }
}

/// Relies on mio::Events::iter and the predicates of mio::event::Event: hands out the
/// fired events as plain values, in the order mio gives them.
#[verifier::external_body]
fn fired_events(events: &mio::Events) -> (r: Vec<RawEvent>) {
    events.iter().map(|e| RawEvent {
        token: e.token().0,
        readable: e.is_readable(),
        writable: e.is_writable(),
        read_closed: e.is_read_closed(),
        write_closed: e.is_write_closed(),
    }).collect()
}

/// Relies on flume::unbounded: a channel for wake requests from other threads.
#[verifier::external_body]
fn wake_request_channel() -> (r: (flume::Sender<std::task::Waker>, flume::Receiver<std::task::Waker>)) {
    flume::unbounded()
}

/// Relies on flume::Receiver::try_iter: takes the wake requests queued so far, in order,
/// without blocking.
#[verifier::external_body]
fn take_queued(rx: &flume::Receiver<std::task::Waker>) -> (r: Vec<std::task::Waker>) {
    rx.try_iter().collect()
}

/// Relies on std::task::Waker::wake: resumes the task that the waker belongs to.
#[verifier::external_body]
fn wake_task(w: std::task::Waker) {
    w.wake()
}

/// How long a wait on the multiplexer may block.
pub enum WaitTimeout {
    /// Until an event fires or the driver is woken.
    Forever,
    /// Not at all.
    Zero,
    /// At most this long.
    Upto(Duration),
}

/// A request made to the multiplexer, with whether it succeeded.
pub enum MuxRequest {
    /// The file descriptor was registered under the token with the interest.
    Register(i32, usize, mio::Interest, bool),
    /// The file descriptor was removed.
    Deregister(i32, bool),
}

/// How a wait on the multiplexer ended.
pub enum WaitOutcome {
    /// The wait returned; the event buffer holds what fired.
    Fired,
    /// A signal interrupted the wait; nothing fired.
    Interrupted,
    /// The wait failed.
    Failed(std::io::Error),
}

/// Token of the dedicated wake source; no registration is dispatched under it.
pub const TOKEN_WAKEUP: usize = 0x8000_0000;

/// Event buffer capacity of a driver made by `LegacyDriver::new`.
pub const DEFAULT_ENTRIES: u32 = 1024;

/// The shared wake signal: a flag that says whether the reactor thread is awake, and a
/// wake source registered with the multiplexer.
pub struct EventWaker {
    waker: mio::Waker,
    awake: AtomicBool,
}

impl EventWaker {
    /// Wakes the reactor thread. The wake source is triggered only where this call is
    /// the one that finds the flag clear and sets it.
    pub fn wake(&self) -> (r: std::io::Result<()>) {
        let was_awake = self.awake.swap(true, Ordering::AcqRel);
        match self.trigger_unless_awake(was_awake) {
            Some(r) => r,
            None => Ok(()),
        }
    }

    /// Given the flag as an unpark request found it, triggers the wake source and hands
    /// back its result where the flag was clear; where it was set, does nothing and
    /// returns `None`.
    pub fn trigger_unless_awake(&self, was_awake: bool) -> (r: Option<std::io::Result<()>>)
        ensures
            r is Some <==> unpark_step(was_awake).1,
            was_awake ==> r is None,
    {
        if must_trigger(was_awake) {
            Some(trigger_wake_source(&self.waker))
        } else {
            None
        }
    }
}

/// A step of the driver that concerns tasks.
pub enum ParkStep {
    /// Wake requests taken from the queue, in order.
    Drained(Ghost<Seq<std::task::Waker>>),
    /// A waker invoked.
    Woke(std::task::Waker),
    /// A wait on the multiplexer with this timeout.
    Waited(WaitTimeout),
    /// The events that the wait gave, in order (none after an interruption).
    Fired(Ghost<Seq<RawEvent>>),
}

/// The steps of invoking each waker of `q`, in order.
pub open spec fn wakes(q: Seq<std::task::Waker>) -> Seq<ParkStep> {
    q.map_values(|w: std::task::Waker| ParkStep::Woke(w))
}

/// The steps of a park up to its wait: the queue is drained twice, each drained wake
/// request is invoked in order right after its drain, then the wait is made with the
/// timeout that the drains call for.
pub open spec fn steps_to_wait(q1: Seq<std::task::Waker>, q2: Seq<std::task::Waker>, requested: WaitTimeout) -> Seq<
    ParkStep,
> {
    seq![ParkStep::Drained(Ghost(q1))] + wakes(q1) + seq![ParkStep::Drained(Ghost(q2))] + wakes(q2) + seq![
        ParkStep::Waited(wait_timeout(q1.len() + q2.len(), requested, WaitTimeout::Zero)),
    ]
}

/// The steps of a whole park: up to the wait, then the fired batch `s`, then the wakers
/// that `s` reaches on the table `m`, in order.
pub open spec fn park_steps(
    q1: Seq<std::task::Waker>,
    q2: Seq<std::task::Waker>,
    requested: WaitTimeout,
    s: Seq<RawEvent>,
    m: Map<usize, ScheduledIo<std::task::Waker>>,
) -> Seq<ParkStep> {
    steps_to_wait(q1, q2, requested) + seq![ParkStep::Fired(Ghost(s))] + wakes(batch_woken(m, s, TOKEN_WAKEUP))
}

/// What a park did, from table `m0` and trace `t0` to table `m1` and trace `t1`. Where it
/// succeeded, the fired batch was dispatched and the wakers it reaches invoked. Where it
/// failed, the wait failed and the table is unchanged.
pub open spec fn parked(
    m0: Map<usize, ScheduledIo<std::task::Waker>>,
    t0: Seq<ParkStep>,
    m1: Map<usize, ScheduledIo<std::task::Waker>>,
    t1: Seq<ParkStep>,
    requested: WaitTimeout,
    ok: bool,
) -> bool {
    if ok {
        exists|q1: Seq<std::task::Waker>, q2: Seq<std::task::Waker>, s: Seq<RawEvent>|
            t1 == t0 + #[trigger] park_steps(q1, q2, requested, s, m0) && m1 == batch_applied(m0, s, TOKEN_WAKEUP)
    } else {
        m1 == m0 && exists|q1: Seq<std::task::Waker>, q2: Seq<std::task::Waker>|
            t1 == t0 + #[trigger] steps_to_wait(q1, q2, requested)
    }
}

/// Invokes each waker in order, recording each in `trace`, and returns how many there were.
fn wake_all(ws: Vec<std::task::Waker>, trace: &mut Ghost<Seq<ParkStep>>) -> (n: usize)
    ensures
        n == ws@.len(),
        final(trace)@ == old(trace)@ + wakes(ws@),
{
    let n = ws.len();
    let ghost all = ws@;
    let mut ws = ws;
    let mut i: usize = 0;
    while ws.len() > 0
        invariant
            i + ws@.len() == n,
            n == all.len(),
            ws@ == all.subrange(i as int, n as int),
            trace@ == old(trace)@ + wakes(all.take(i as int)),
        decreases ws@.len(),
    {
        let w = ws.remove(0);
        wake_task(w);
        proof {
            assert(all.take(i + 1) =~= all.take(i as int).push(w));
            assert(wakes(all.take(i + 1)) =~= wakes(all.take(i as int)).push(ParkStep::Woke(w)));
        }
        *trace = Ghost(trace@.push(ParkStep::Woke(w)));
        i = i + 1;
        proof {
            assert(ws@ =~= all.subrange(i as int, n as int));
            assert(trace@ =~= old(trace)@ + wakes(all.take(i as int)));
        }
    }
    assert(all.take(n as int) =~= all);
    n
}

/// A readiness reactor over the OS multiplexer, with a channel through which other
/// threads queue wake requests.
pub struct LegacyDriver {
    reactor: Reactor<std::task::Waker>,
    events: mio::Events,
    poll: mio::Poll,
    shared_waker: Arc<EventWaker>,
    waker_receiver: flume::Receiver<std::task::Waker>,
    history: Ghost<Seq<(usize, bool)>>,
    trace: Ghost<Seq<ParkStep>>,
    mux_log: Ghost<Seq<MuxRequest>>,
    capacity: Ghost<nat>,
}

/// The tokens live after a history of successful calls, in order: `(t, true)` for a
/// `register` that returned `t`, `(t, false)` for a `deregister` of `t`.
pub open spec fn live_tokens(h: Seq<(usize, bool)>) -> Set<usize>
    decreases h.len(),
{
    if h.len() == 0 {
        Set::empty()
    } else if h.last().1 {
        live_tokens(h.drop_last()).insert(h.last().0)
    } else {
        live_tokens(h.drop_last()).remove(h.last().0)
    }
}

/// Whether `t` was returned by a registration at position `i` of `h` and not
/// deregistered after it.
pub open spec fn registered_since(h: Seq<(usize, bool)>, t: usize, i: int) -> bool {
    &&& 0 <= i < h.len()
    &&& h[i] == (t, true)
    &&& forall|j: int| i < j < h.len() ==> #[trigger] h[j] != (t, false)
}

/// A token is live after a history exactly when a registration returned it and no
/// deregistration of it succeeded afterwards.
pub proof fn lemma_live_tokens_from_history(h: Seq<(usize, bool)>, t: usize)
    ensures
        live_tokens(h).contains(t) <==> exists|i: int| registered_since(h, t, i),
    decreases h.len(),
{
    if h.len() > 0 {
        let p = h.drop_last();
        lemma_live_tokens_from_history(p, t);
        let n = h.len() - 1;
        if live_tokens(h).contains(t) {
            if h.last() == (t, true) {
                assert(registered_since(h, t, n));
            } else {
                let i = choose|i: int| registered_since(p, t, i);
                assert(h[n] != (t, false));
                assert forall|j: int| i < j < h.len() implies #[trigger] h[j] != (t, false) by {
                    if j < n {
                        assert(p[j] == h[j]);
                    }
                }
                assert(registered_since(h, t, i));
            }
        } else {
            if exists|i: int| registered_since(h, t, i) {
                let i = choose|i: int| registered_since(h, t, i);
                if i == n {
                    assert(h.last() == h[n]);
                } else {
                    assert(h[n] != (t, false));
                    assert forall|j: int| i < j < p.len() implies #[trigger] p[j] != (t, false) by {
                        assert(p[j] == h[j]);
                    }
                    assert(registered_since(p, t, i));
                }
            }
        }
    }
}

impl LegacyDriver {
    /// The readiness cells of the live registrations, by token.
    pub closed spec fn view(&self) -> Map<usize, ScheduledIo<std::task::Waker>> {
        self.reactor@
    }

    /// The successful `register` and `deregister` calls made on this driver, in order.
    pub closed spec fn history(&self) -> Seq<(usize, bool)> {
        self.history@
    }

    /// The wakers this driver invoked and the waits it made, in order.
    pub closed spec fn trace(&self) -> Seq<ParkStep> {
        self.trace@
    }

    /// The register and deregister requests this driver made to the multiplexer, in order.
    pub closed spec fn mux_log(&self) -> Seq<MuxRequest> {
        self.mux_log@
    }

    /// How many events the event buffer was made to hold.
    pub closed spec fn capacity(&self) -> nat {
        self.capacity@
    }

    pub closed spec fn wf(&self) -> bool {
        &&& self.reactor.wf()
        &&& self.reactor@.dom() == live_tokens(self.history@)
    }

    /// A driver with the default event buffer capacity, and the sender through which
    /// other threads queue wake requests.
    pub fn new() -> (r: std::io::Result<(LegacyDriver, flume::Sender<std::task::Waker>)>)
        ensures
            r matches Ok((d, _)) ==> d.wf() && d@ == Map::<usize, ScheduledIo<std::task::Waker>>::empty() && d.history()
                == Seq::<(usize, bool)>::empty() && d.trace() == Seq::<ParkStep>::empty()
                && d.mux_log() == Seq::<MuxRequest>::empty() && d.capacity() == DEFAULT_ENTRIES as nat,
    {
        Self::new_with_entries(DEFAULT_ENTRIES)
    }

    /// A driver whose event buffer holds `entries` events, and the sender through which
    /// other threads queue wake requests. Fails where the multiplexer or its wake source
    /// cannot be opened.
    pub fn new_with_entries(entries: u32) -> (r: std::io::Result<(LegacyDriver, flume::Sender<std::task::Waker>)>)
        ensures
            r matches Ok((d, _)) ==> d.wf() && d@ == Map::<usize, ScheduledIo<std::task::Waker>>::empty() && d.history()
                == Seq::<(usize, bool)>::empty() && d.trace() == Seq::<ParkStep>::empty()
                && d.mux_log() == Seq::<MuxRequest>::empty() && d.capacity() == entries as nat,
    {
        let (poll, source) = match open_poll_with_wake_source(TOKEN_WAKEUP) {
            Ok(p) => p,
            Err(e) => return Err(e),
        };
        let capacity = entries as usize;
        let shared_waker = Arc::new(EventWaker { waker: source, awake: AtomicBool::new(true) });
        let (sender, receiver) = wake_request_channel();
        let driver = LegacyDriver {
            reactor: Reactor::new(),
            events: event_buffer(capacity),
            poll,
            shared_waker,
            waker_receiver: receiver,
            history: Ghost(Seq::empty()),
            trace: Ghost(Seq::empty()),
            mux_log: Ghost(Seq::empty()),
            capacity: Ghost(capacity as nat),
        };
        Ok((driver, sender))
    }

    /// Whether `token` is a live registration.
    pub fn is_registered(&self, token: usize) -> (r: bool)
        ensures
            r == self@.contains_key(token),
    {
        self.reactor.contains(token)
    }

    /// The readiness bits of registration `token`, if it is live.
    pub fn readiness(&self, token: usize) -> (r: Option<u8>)
        ensures
            self@.contains_key(token) ==> r == Some(self@[token].readiness),
            !self@.contains_key(token) ==> r is None,
    {
        self.reactor.readiness(token)
    }

    /// Registers the file descriptor `fd` with `interest` and returns its token. Where
    /// the multiplexer refuses it, the new cell is removed again and the table is as it
    /// was.
    pub fn register(&mut self, fd: i32, interest: mio::Interest) -> (r: std::io::Result<usize>)
        requires
            old(self).wf(),
        ensures
            final(self).wf(),
            final(self).trace() == old(self).trace(),
            r matches Ok(t) ==> final(self).history() == old(self).history().push((t, true)),
            r is Err ==> final(self).history() == old(self).history(),
            r matches Ok(t) ==> !old(self)@.contains_key(t) && final(self)@ == old(self)@.insert(
                t,
                ScheduledIo { readiness: 0, reader: None, writer: None },
            ),
            r is Err ==> final(self)@ == old(self)@,
            r matches Ok(t) ==> final(self).mux_log() == old(self).mux_log().push(MuxRequest::Register(fd, t, interest, true)),
            r is Err ==> exists|t: usize|
                !old(self)@.contains_key(t) && #[trigger] final(self).mux_log() == old(self).mux_log().push(
                    MuxRequest::Register(fd, t, interest, false),
                ),
    {
        let token = self.reactor.insert_io();
        let ghost wanted = interest;
        let outcome = register_source(&self.poll, fd, token, interest);
        self.mux_log = Ghost(self.mux_log@.push(MuxRequest::Register(fd, token, wanted, outcome is Ok)));
        match outcome {
            Ok(()) => {
                let ghost h0 = self.history@;
                self.history = Ghost(self.history@.push((token, true)));
                assert(self.history@.drop_last() =~= h0);
                assert(self.reactor@.dom() =~= live_tokens(self.history@));
                Ok(token)
            },
            Err(e) => {
                self.reactor.remove_io(token);
                assert(self@ =~= old(self)@);
                Err(e)
            },
        }
    }

    /// Removes `fd` from the multiplexer, and only where that succeeds frees the
    /// registration `token`.
    pub fn deregister(&mut self, token: usize, fd: i32) -> (r: std::io::Result<()>)
        requires
            old(self).wf(),
        ensures
            final(self).wf(),
            final(self).trace() == old(self).trace(),
            r is Ok ==> final(self).history() == old(self).history().push((token, false)),
            r is Err ==> final(self).history() == old(self).history(),
            r is Ok ==> final(self)@ == old(self)@.remove(token),
            r is Err ==> final(self)@ == old(self)@,
            final(self).mux_log() == old(self).mux_log().push(MuxRequest::Deregister(fd, r is Ok)),
    {
        let outcome = deregister_source(&self.poll, fd);
        self.mux_log = Ghost(self.mux_log@.push(MuxRequest::Deregister(fd, outcome is Ok)));
        match outcome {
            Ok(()) => {
                self.reactor.remove_io(token);
                let ghost h0 = self.history@;
                self.history = Ghost(self.history@.push((token, false)));
                assert(self.history@.drop_last() =~= h0);
                assert(self.reactor@.dom() =~= live_tokens(self.history@));
                Ok(())
            },
            Err(e) => Err(e),
        }
    }

    /// The park loop. Queued wake requests are drained and their wakers invoked; where
    /// none was found the driver marks itself not awake and drains once more. Where any
    /// was found the wait does not block. Then it waits on the multiplexer, takes an
    /// interruption for an empty batch, and dispatches each fired event but those of the
    /// wake source, invoking the wakers that they reach.
    fn inner_park(&mut self, requested: WaitTimeout) -> (r: std::io::Result<()>)
        requires
            old(self).wf(),
        ensures
            final(self).wf(),
            final(self).history() == old(self).history(),
            final(self).mux_log() == old(self).mux_log(),
            final(self)@.dom() == old(self)@.dom(),
            parked(old(self)@, old(self).trace(), final(self)@, final(self).trace(), requested, r is Ok),
    {
        let ghost m0 = self@;
        let ghost t0 = self.trace@;
        let ghost req = requested;
        let q1 = take_queued(&self.waker_receiver);
        let ghost g1 = q1@;
        self.trace = Ghost(self.trace@.push(ParkStep::Drained(Ghost(g1))));
        let first = wake_all(q1, &mut self.trace);
        if must_clear_awake(first) {
            self.shared_waker.awake.store(false, Ordering::Release);
        }
        let q2 = take_queued(&self.waker_receiver);
        let ghost g2 = q2@;
        self.trace = Ghost(self.trace@.push(ParkStep::Drained(Ghost(g2))));
        let second = wake_all(q2, &mut self.trace);
        let timeout = effective_timeout(first, second, requested, WaitTimeout::Zero);
        let ghost waited = timeout;
        let outcome = wait_for_events(&mut self.poll, &mut self.events, timeout);
        self.trace = Ghost(self.trace@.push(ParkStep::Waited(waited)));
        assert(self.trace@ =~= t0 + steps_to_wait(g1, g2, req));
        let batch = fired_events(&self.events);
        let ghost fired = batch@;
        let ghost interrupted = outcome is Interrupted;
        let woke = match self.settle_wait(outcome, &batch) {
            Ok(ws) => ws,
            Err(e) => return Err(e),
        };
        let ghost s: Seq<RawEvent> = if interrupted { Seq::empty() } else { fired };
        assert(batch_woken(m0, Seq::<RawEvent>::empty(), TOKEN_WAKEUP) =~= Seq::<std::task::Waker>::empty());
        assert(woke@ == batch_woken(m0, s, TOKEN_WAKEUP));
        assert(batch_applied(m0, s, TOKEN_WAKEUP) == self@);
        self.trace = Ghost(self.trace@.push(ParkStep::Fired(Ghost(s))));
        wake_all(woke, &mut self.trace);
        assert(self.trace@ =~= t0 + park_steps(g1, g2, req, s, m0));
        Ok(())
    }

    /// Takes the outcome of a wait on the multiplexer and the batch of events that fired.
    /// A wait that returned has the batch dispatched in order, skipping the wake source's
    /// events, and hands back the wakers to invoke. An interruption counts as an empty
    /// batch. A failed wait changes nothing and its error comes back.
    pub fn settle_wait(&mut self, outcome: WaitOutcome, batch: &Vec<RawEvent>) -> (r: std::io::Result<
        Vec<std::task::Waker>,
    >)
        requires
            old(self).wf(),
        ensures
            final(self).wf(),
            final(self).mux_log() == old(self).mux_log(),
            final(self).trace() == old(self).trace(),
            final(self).history() == old(self).history(),
            outcome is Fired ==> (r matches Ok(ws) && ws@ == batch_woken(old(self)@, batch@, TOKEN_WAKEUP)
                && final(self)@ == batch_applied(old(self)@, batch@, TOKEN_WAKEUP)),
            outcome is Interrupted ==> (r matches Ok(ws) && ws@.len() == 0 && final(self)@ == old(self)@),
            outcome matches WaitOutcome::Failed(e) ==> (r matches Err(e2) && e2 == e && final(self)@ == old(self)@),
            final(self)@.dom() == old(self)@.dom(),
    {
        proof {
            lemma_batch_keeps_registrations(old(self)@, batch@, TOKEN_WAKEUP);
        }
        match outcome {
            WaitOutcome::Fired => Ok(self.reactor.dispatch_events(batch, TOKEN_WAKEUP)),
            WaitOutcome::Interrupted => Ok(Vec::new()),
            WaitOutcome::Failed(e) => Err(e),
        }
    }

    /// Drains wake requests and dispatches ready events without blocking.
    pub fn submit(&mut self) -> (r: std::io::Result<()>)
        requires
            old(self).wf(),
        ensures
            final(self).wf(),
            final(self).history() == old(self).history(),
            final(self).mux_log() == old(self).mux_log(),
            final(self)@.dom() == old(self)@.dom(),
            parked(old(self)@, old(self).trace(), final(self)@, final(self).trace(), WaitTimeout::Zero, r is Ok),
    {
        self.inner_park(WaitTimeout::Zero)
    }

    /// Blocks until an event fires or the driver is woken.
    pub fn park(&mut self) -> (r: std::io::Result<()>)
        requires
            old(self).wf(),
        ensures
            final(self).wf(),
            final(self).history() == old(self).history(),
            final(self).mux_log() == old(self).mux_log(),
            final(self)@.dom() == old(self)@.dom(),
            parked(old(self)@, old(self).trace(), final(self)@, final(self).trace(), WaitTimeout::Forever, r is Ok),
    {
        self.inner_park(WaitTimeout::Forever)
    }

    /// Blocks at most `duration` until an event fires or the driver is woken.
    pub fn park_timeout(&mut self, duration: Duration) -> (r: std::io::Result<()>)
        requires
            old(self).wf(),
        ensures
            final(self).wf(),
            final(self).history() == old(self).history(),
            final(self).mux_log() == old(self).mux_log(),
            final(self)@.dom() == old(self)@.dom(),
            parked(old(self)@, old(self).trace(), final(self)@, final(self).trace(), WaitTimeout::Upto(duration), r is Ok),
    {
        self.inner_park(WaitTimeout::Upto(duration))
    }

    /// The shared wake signal, from which handles for other threads are made.
    pub fn shared_signal(&self) -> &Arc<EventWaker> {
        &self.shared_waker
    }

    /// First half of polling an operation; see `Reactor::poll_op`.
    pub fn poll_op(&mut self, interest: Option<(Direction, usize)>, waker: std::task::Waker) -> (r: OpStep<std::task::Waker>)
        requires
            old(self).wf(),
            interest matches Some((d, t)) ==> old(self)@.contains_key(t),
        ensures
            final(self).wf(),
            final(self).mux_log() == old(self).mux_log(),
            final(self).trace() == old(self).trace(),
            final(self).history() == old(self).history(),
            interest is None ==> r == OpStep::Retry(waker) && final(self)@ == old(self)@,
            interest matches Some((d, t)) ==> {
                let c = old(self)@[t];
                let bits = ready_bits(c, d);
                &&& bits == 0 ==> r is Pending && final(self)@ == old(self)@.insert(t, armed(c, d, waker))
                &&& bits != 0 && bits & CANCELED != 0 ==> r is Canceled && final(self)@ == old(self)@.insert(
                    t,
                    cleared(c, bits & CANCELED),
                )
                &&& bits != 0 && bits & CANCELED == 0 ==> r == OpStep::Retry(waker) && final(self)@ == old(self)@
            },
    {
        let r = self.reactor.poll_op(interest, waker);
        assert(self.reactor@.dom() =~= old(self).reactor@.dom());
        r
    }

    /// Second half of polling an operation; see `Reactor::complete_op`.
    pub fn complete_op(
        &mut self,
        interest: Option<(Direction, usize)>,
        waker: std::task::Waker,
        outcome: Result<usize, OpError>,
    ) -> (r: PollOp)
        requires
            old(self).wf(),
            interest matches Some((d, t)) ==> old(self)@.contains_key(t),
        ensures
            final(self).wf(),
            final(self).mux_log() == old(self).mux_log(),
            final(self).trace() == old(self).trace(),
            final(self).history() == old(self).history(),
            (outcome != Err::<usize, OpError>(OpError::WouldBlock) || interest is None) ==> r == PollOp::Ready(outcome)
                && final(self)@ == old(self)@,
            outcome == Err::<usize, OpError>(OpError::WouldBlock) ==> (interest matches Some((d, t)) ==> r
                is Pending && final(self)@ == old(self)@.insert(t, armed(cleared(old(self)@[t], mask_of(d)), d, waker))),
    {
        let r = self.reactor.complete_op(interest, waker, outcome);
        assert(self.reactor@.dom() =~= old(self).reactor@.dom());
        r
    }

    /// Cancels direction `d` of registration `token`: the cancellation bit is dispatched
    /// like a readiness event, and a waker stored for that direction is invoked. An
    /// unknown token changes nothing.
    pub fn cancel_op(&mut self, token: usize, d: Direction)
        requires
            old(self).wf(),
        ensures
            final(self).wf(),
            final(self).mux_log() == old(self).mux_log(),
            old(self)@.contains_key(token) ==> final(self).trace() == old(self).trace() + wakes(
                woken(old(self)@[token], cancel_bit_of(d)),
            ),
            !old(self)@.contains_key(token) ==> final(self).trace() == old(self).trace(),
            final(self).history() == old(self).history(),
            old(self)@.contains_key(token) ==> final(self)@ == old(self)@.insert(
                token,
                dispatched(old(self)@[token], cancel_bit_of(d)),
            ),
            !old(self)@.contains_key(token) ==> final(self)@ == old(self)@,
    {
        let woke = self.reactor.cancel_op(token, d);
        assert(self.reactor@.dom() =~= old(self).reactor@.dom());
        wake_all(woke, &mut self.trace);
    }
}

/// On a driver, a token resolves exactly when a `register` call returned it and no
/// `deregister` of it succeeded afterwards.
pub proof fn lemma_driver_tokens_follow_history(d: &LegacyDriver, t: usize)
    requires
        d.wf(),
    ensures
        d@.contains_key(t) <==> exists|i: int| registered_since(d.history(), t, i),
{
    lemma_live_tokens_from_history(d.history(), t);
}

/// A read waker armed by a pending poll is invoked exactly once by a park whose batch
/// holds a readable event for its token, however many such events there are; afterwards
/// the readable bit is set and the read slot is empty, so the next poll runs the call.
pub proof fn lemma_park_delivers_readable(
    m0: Map<usize, ScheduledIo<std::task::Waker>>,
    s: Seq<RawEvent>,
    t: usize,
    w: std::task::Waker,
    i: int,
)
    requires
        m0.contains_key(t),
        t != TOKEN_WAKEUP,
        m0[t].reader == Some(w),
        0 <= i < s.len(),
        s[i].token == t,
        s[i].readable,
    ensures
        slot_woken(m0, s, TOKEN_WAKEUP, t, Direction::Read) == seq![w],
        batch_applied(m0, s, TOKEN_WAKEUP)[t].reader is None,
        batch_applied(m0, s, TOKEN_WAKEUP)[t].readiness & READABLE != 0,
{
    let b = bits_of(s[i]);
    let (r1, r2, r3) = (s[i].writable, s[i].read_closed, s[i].write_closed);
    assert(b == event_bits(true, r1, r2, r3));
    assert(b & 1u8 != 0 && b & 21u8 != 0) by {
        let w1: u8 = if r1 { 2u8 } else { 0u8 };
        let w2: u8 = if r2 { 4u8 } else { 0u8 };
        let w3: u8 = if r3 { 8u8 } else { 0u8 };
        assert(b == 1u8 | w1 | w2 | w3);
        assert((1u8 | w1 | w2 | w3) & 1u8 != 0 && (1u8 | w1 | w2 | w3) & 21u8 != 0) by (bit_vector);
    }
    assert(touches(s, t, Direction::Read));
    lemma_batch_wakes_slot_once(m0, s, TOKEN_WAKEUP, t, Direction::Read, w);
    lemma_batch_keeps_bits(m0, s, TOKEN_WAKEUP, t, i);
    let x = batch_applied(m0, s, TOKEN_WAKEUP)[t].readiness;
    assert(x & b == b && b & 1u8 != 0 ==> x & 1u8 != 0) by (bit_vector);
}

} // verus!
