use vstd::prelude::*;

use crate::ready::{CANCELED, Direction, cancel_bit_of, event_bits, mask_of, opposite, ready_from_event};
use crate::scheduled_io::{
    ScheduledIo,
    armed,
    cleared,
    dispatched,
    ready_bits,
    waker_of,
    woken,
    woken_in,
};
use crate::slab::Slab;

verus! {

/// Why an operation did not produce a value.
#[derive(Clone, Copy, Debug, PartialEq, Eq, Structural)]
pub enum OpError {
    /// The call could not complete without blocking.
    WouldBlock,
    /// The operation was canceled before it ran.
    Canceled,
    /// The call failed with this OS error code.
    Os(i32),
}

/// The raw OS error code reported for a canceled operation.
pub const OPERATION_CANCELED: i32 = 125;

impl OpError {
    /// The OS error code that stands for this error.
    pub fn raw_os_error(&self, would_block: i32) -> (r: i32)
        ensures
            *self == OpError::WouldBlock ==> r == would_block,
            *self == OpError::Canceled ==> r == OPERATION_CANCELED,
            self matches OpError::Os(c) ==> r == c,
    {
        match self {
            OpError::WouldBlock => would_block,
            OpError::Canceled => OPERATION_CANCELED,
            OpError::Os(c) => *c,
        }
    }
}

/// What the first half of an operation poll decided.
pub enum OpStep<W> {
    /// No readiness yet: the waker is stored and the task must wait.
    Pending,
    /// The direction was canceled: the operation completes with `OpError::Canceled`.
    Canceled,
    /// The caller must now make its call, then hand the outcome to `complete_op`.
    Retry(W),
}

/// One event of a multiplexer batch: the token it was registered with and what it
/// reports.
#[derive(Clone, Copy, Debug, PartialEq, Eq, Structural)]
pub struct RawEvent {
    pub token: usize,
    pub readable: bool,
    pub writable: bool,
    pub read_closed: bool,
    pub write_closed: bool,
}

/// The readiness bits that an event carries.
pub open spec fn bits_of(e: RawEvent) -> u8 {
    event_bits(e.readable, e.writable, e.read_closed, e.write_closed)
}

/// Whether an event reaches a registration: it does not carry the reserved wake token
/// and its token is live.
pub open spec fn reaches<W>(m: Map<usize, ScheduledIo<W>>, e: RawEvent, wake_token: usize) -> bool {
    e.token != wake_token && m.contains_key(e.token)
}

/// The registrations after the events of `s` have been dispatched in order.
pub open spec fn batch_applied<W>(m: Map<usize, ScheduledIo<W>>, s: Seq<RawEvent>, wake_token: usize) -> Map<
    usize,
    ScheduledIo<W>,
>
    decreases s.len(),
{
    if s.len() == 0 {
        m
    } else {
        let prev = batch_applied(m, s.drop_last(), wake_token);
        let e = s.last();
        if reaches(prev, e, wake_token) {
            prev.insert(e.token, dispatched(prev[e.token], bits_of(e)))
        } else {
            prev
        }
    }
}

/// The wakers that dispatching the events of `s` in order invokes, in that order.
pub open spec fn batch_woken<W>(m: Map<usize, ScheduledIo<W>>, s: Seq<RawEvent>, wake_token: usize) -> Seq<W>
    decreases s.len(),
{
    if s.len() == 0 {
        Seq::empty()
    } else {
        let prev = batch_applied(m, s.drop_last(), wake_token);
        let e = s.last();
        batch_woken(m, s.drop_last(), wake_token) + if reaches(prev, e, wake_token) {
            woken(prev[e.token], bits_of(e))
        } else {
            Seq::empty()
        }
    }
}

/// Dispatching events never adds or frees a registration.
pub proof fn lemma_batch_keeps_registrations<W>(m: Map<usize, ScheduledIo<W>>, s: Seq<RawEvent>, wake_token: usize)
    ensures
        batch_applied(m, s, wake_token).dom() == m.dom(),
    decreases s.len(),
{
    if s.len() > 0 {
        lemma_batch_keeps_registrations(m, s.drop_last(), wake_token);
        let prev = batch_applied(m, s.drop_last(), wake_token);
        if reaches(prev, s.last(), wake_token) {
            assert(prev.insert(s.last().token, dispatched(prev[s.last().token], bits_of(s.last()))).dom() =~= prev.dom());
        }
    }
}

/// An event for a token that is not live (and not the wake token) changes nothing: the
/// batch without it leaves the same registrations and invokes the same wakers.
pub proof fn lemma_unknown_event_ignored<W>(m: Map<usize, ScheduledIo<W>>, s: Seq<RawEvent>, i: int, wake_token: usize)
    requires
        0 <= i < s.len(),
        !m.contains_key(s[i].token),
    ensures
        batch_applied(m, s, wake_token) == batch_applied(m, s.remove(i), wake_token),
        batch_woken(m, s, wake_token) == batch_woken(m, s.remove(i), wake_token),
    decreases s.len(),
{
    lemma_batch_keeps_registrations(m, s.drop_last(), wake_token);
    if i == s.len() - 1 {
        assert(s.remove(i) =~= s.drop_last());
        assert(s.last() == s[i]);
        assert(batch_woken(m, s.drop_last(), wake_token) + Seq::<W>::empty() =~= batch_woken(m, s.drop_last(), wake_token));
    } else {
        let s2 = s.remove(i);
        assert(s2.drop_last() =~= s.drop_last().remove(i));
        assert(s2.last() == s.last());
        assert(s.drop_last()[i] == s[i]);
        lemma_unknown_event_ignored(m, s.drop_last(), i, wake_token);
    }
}

/// Whether some event of `s` carries token `t` and readiness in direction `d`.
pub open spec fn touches(s: Seq<RawEvent>, t: usize, d: Direction) -> bool {
    exists|i: int| 0 <= i < s.len() && (#[trigger] s[i]).token == t && bits_of(s[i]) & mask_of(d) != 0
}

/// The wakers that dispatching `s` in order takes out of the slot of direction `d` of
/// registration `t`: the part of `batch_woken` that comes from that slot.
pub open spec fn slot_woken<W>(
    m: Map<usize, ScheduledIo<W>>,
    s: Seq<RawEvent>,
    wake_token: usize,
    t: usize,
    d: Direction,
) -> Seq<W>
    decreases s.len(),
{
    if s.len() == 0 {
        Seq::empty()
    } else {
        let prev = batch_applied(m, s.drop_last(), wake_token);
        let e = s.last();
        slot_woken(m, s.drop_last(), wake_token, t, d) + if reaches(prev, e, wake_token) && e.token == t {
            woken_in(prev[t], bits_of(e), d)
        } else {
            Seq::empty()
        }
    }
}

/// A waker armed for direction `d` of `t` is taken out of its slot exactly once by a batch
/// that holds one or more events on `(t, d)`, and the slot is empty afterwards; a batch
/// with no such event leaves it armed and takes out nothing.
pub proof fn lemma_batch_wakes_slot_once<W>(
    m: Map<usize, ScheduledIo<W>>,
    s: Seq<RawEvent>,
    wake_token: usize,
    t: usize,
    d: Direction,
    w: W,
)
    requires
        m.contains_key(t),
        t != wake_token,
        waker_of(m[t], d) == Some(w),
    ensures
        touches(s, t, d) ==> slot_woken(m, s, wake_token, t, d) == seq![w] && waker_of(
            batch_applied(m, s, wake_token)[t],
            d,
        ) is None,
        !touches(s, t, d) ==> slot_woken(m, s, wake_token, t, d).len() == 0 && waker_of(
            batch_applied(m, s, wake_token)[t],
            d,
        ) == Some(w),
        batch_applied(m, s, wake_token).contains_key(t),
    decreases s.len(),
{
    if s.len() > 0 {
        let p = s.drop_last();
        let e = s.last();
        lemma_batch_wakes_slot_once(m, p, wake_token, t, d, w);
        lemma_batch_keeps_registrations(m, p, wake_token);
        lemma_batch_keeps_registrations(m, s, wake_token);
        let prev = batch_applied(m, p, wake_token);
        let hit = e.token == t && bits_of(e) & mask_of(d) != 0;
        assert(touches(s, t, d) <==> touches(p, t, d) || hit) by {
            if touches(s, t, d) && !hit {
                let i = choose|i: int| 0 <= i < s.len() && (#[trigger] s[i]).token == t && bits_of(s[i]) & mask_of(d) != 0;
                assert(i != s.len() - 1);
                assert(p[i] == s[i]);
            }
            if touches(p, t, d) {
                let i = choose|i: int| 0 <= i < p.len() && (#[trigger] p[i]).token == t && bits_of(p[i]) & mask_of(d) != 0;
                assert(s[i] == p[i]);
            }
            if hit {
                assert(s[s.len() - 1] == e);
            }
        }
        if reaches(prev, e, wake_token) && e.token == t {
            if !hit {
                assert(woken_in(prev[t], bits_of(e), d) =~= Seq::<W>::empty());
            }
        }
        assert(slot_woken(m, p, wake_token, t, d) + Seq::<W>::empty() =~= slot_woken(m, p, wake_token, t, d));
        assert(Seq::<W>::empty() + seq![w] =~= seq![w]);
    }
}

/// Once an event of `s` has reached registration `t`, the bits it carries stay set in `t`'s
/// readiness for the rest of the batch.
pub proof fn lemma_batch_keeps_bits<W>(m: Map<usize, ScheduledIo<W>>, s: Seq<RawEvent>, wake_token: usize, t: usize, i: int)
    requires
        m.contains_key(t),
        t != wake_token,
        0 <= i < s.len(),
        s[i].token == t,
    ensures
        batch_applied(m, s, wake_token)[t].readiness & bits_of(s[i]) == bits_of(s[i]),
    decreases s.len(),
{
    let p = s.drop_last();
    let e = s.last();
    lemma_batch_keeps_registrations(m, p, wake_token);
    let prev = batch_applied(m, p, wake_token);
    let b = bits_of(s[i]);
    if i == s.len() - 1 {
        let x = prev[t].readiness;
        assert(e == s[i]);
        assert((x | b) & b == b) by (bit_vector);
    } else {
        assert(p[i] == s[i]);
        lemma_batch_keeps_bits(m, p, wake_token, t, i);
        if reaches(prev, e, wake_token) && e.token == t {
            let x = prev[t].readiness;
            let c = bits_of(e);
            assert(x & b == b ==> (x | c) & b == b) by (bit_vector);
        }
    }
}

/// The result of polling an operation.
#[derive(Clone, Copy, Debug, PartialEq, Eq)]
pub enum PollOp {
    Pending,
    Ready(Result<usize, OpError>),
}

/// The table of registrations of a readiness reactor and the rules by which
/// readiness reaches the tasks that wait on it. Wakers of type `W` that must be
/// invoked are handed back to the caller.
pub struct Reactor<W> {
    io_dispatch: Slab<ScheduledIo<W>>,
}

impl<W> Reactor<W> {
    /// The cells of the live registrations, by token.
    pub closed spec fn view(&self) -> Map<usize, ScheduledIo<W>> {
        self.io_dispatch@
    }

    pub closed spec fn wf(&self) -> bool {
        self.io_dispatch.wf()
    }

    /// A reactor with no registration.
    pub fn new() -> (r: Self)
        ensures
            r.wf(),
            r@ == Map::<usize, ScheduledIo<W>>::empty(),
    {
        Reactor { io_dispatch: Slab::new() }
    }

    /// Adds a registration with an empty cell and returns its token, which no live
    /// registration holds.
    pub fn insert_io(&mut self) -> (t: usize)
        requires
            old(self).wf(),
        ensures
            final(self).wf(),
            !old(self)@.contains_key(t),
            final(self)@ == old(self)@.insert(t, ScheduledIo { readiness: 0, reader: None, writer: None }),
    {
        self.io_dispatch.insert(ScheduledIo::new())
    }

    /// Frees the registration of `t`; an unknown token is left alone.
    pub fn remove_io(&mut self, t: usize)
        requires
            old(self).wf(),
        ensures
            final(self).wf(),
            final(self)@ == old(self)@.remove(t),
    {
        let _ = self.io_dispatch.remove(t);
    }

    /// Whether `t` is a live token.
    pub fn contains(&self, t: usize) -> (r: bool)
        ensures
            r == self@.contains_key(t),
    {
        self.io_dispatch.contains(t)
    }

    /// The readiness bits of registration `t`, if it is live.
    pub fn readiness(&self, t: usize) -> (r: Option<u8>)
        ensures
            self@.contains_key(t) ==> r == Some(self@[t].readiness),
            !self@.contains_key(t) ==> r is None,
    {
        match self.io_dispatch.get(t) {
            Some(c) => Some(c.readiness),
            None => None,
        }
    }

    /// Whether a waker is stored for direction `d` of registration `t`.
    pub fn is_armed(&self, t: usize, d: Direction) -> (r: bool)
        ensures
            r == (self@.contains_key(t) && waker_of(self@[t], d) is Some),
    {
        match self.io_dispatch.get(t) {
            Some(c) => match d {
                Direction::Read => c.reader.is_some(),
                Direction::Write => c.writer.is_some(),
            },
            None => false,
        }
    }

    /// ORs `ready` into the cell of `t` and takes out the wakers of the directions it
    /// touches; they come back to be invoked. An unknown token changes nothing.
    pub fn dispatch(&mut self, t: usize, ready: u8) -> (r: Vec<W>)
        requires
            old(self).wf(),
        ensures
            final(self).wf(),
            old(self)@.contains_key(t) ==> final(self)@ == old(self)@.insert(t, dispatched(old(self)@[t], ready))
                && r@ == woken(old(self)@[t], ready),
            !old(self)@.contains_key(t) ==> final(self)@ == old(self)@ && r@.len() == 0,
    {
        match self.io_dispatch.take(t) {
            Some(mut c) => {
                c.set_readiness(ready);
                let r = c.wake(ready);
                self.io_dispatch.restore(t, c);
                r
            },
            None => Vec::new(),
        }
    }

    /// Dispatches a batch of multiplexer events in order, skipping those with the
    /// reserved wake token, and hands back the wakers to invoke, in order.
    pub fn dispatch_events(&mut self, batch: &Vec<RawEvent>, wake_token: usize) -> (r: Vec<W>)
        requires
            old(self).wf(),
        ensures
            final(self).wf(),
            final(self)@ == batch_applied(old(self)@, batch@, wake_token),
            r@ == batch_woken(old(self)@, batch@, wake_token),
            final(self)@.dom() == old(self)@.dom(),
    {
        let mut r: Vec<W> = Vec::new();
        let mut i: usize = 0;
        proof {
            assert(batch@.take(0) =~= Seq::<RawEvent>::empty());
        }
        while i < batch.len()
            invariant
                self.wf(),
                i <= batch@.len(),
                self@ == batch_applied(old(self)@, batch@.take(i as int), wake_token),
                r@ == batch_woken(old(self)@, batch@.take(i as int), wake_token),
            decreases batch@.len() - i,
        {
            let e = batch[i];
            proof {
                assert(batch@.take(i + 1).drop_last() =~= batch@.take(i as int));
                assert(batch@.take(i + 1).last() == e);
            }
            if e.token != wake_token {
                let ready = ready_from_event(e.readable, e.writable, e.read_closed, e.write_closed);
                let mut woke = self.dispatch(e.token, ready);
                r.append(&mut woke);
            }
            i = i + 1;
            proof {
                assert(r@ =~= batch_woken(old(self)@, batch@.take(i as int), wake_token));
            }
        }
        assert(batch@.take(i as int) =~= batch@);
        proof {
            lemma_batch_keeps_registrations(old(self)@, batch@, wake_token);
        }
        r
    }

    /// Marks direction `d` of `t` canceled through the dispatch path, so that a waker
    /// stored for it comes back to be invoked.
    pub fn cancel_op(&mut self, t: usize, d: Direction) -> (r: Vec<W>)
        requires
            old(self).wf(),
        ensures
            final(self).wf(),
            old(self)@.contains_key(t) ==> final(self)@ == old(self)@.insert(
                t,
                dispatched(old(self)@[t], cancel_bit_of(d)),
            ) && r@ == woken(old(self)@[t], cancel_bit_of(d)),
            !old(self)@.contains_key(t) ==> final(self)@ == old(self)@ && r@.len() == 0,
    {
        let bit = d.cancel_bit();
        self.dispatch(t, bit)
    }

    /// First half of polling an operation. `interest` is `None` for an operation that
    /// does not wait on readiness: it may run at once. Otherwise it names the direction
    /// and the token. With no readiness in that direction, `w` is stored and the step is
    /// `Pending`. Where that direction is canceled, only its cancellation bit is cleared
    /// and the step is `Canceled`. Else the operation may run and `w` comes back.
    pub fn poll_op(&mut self, interest: Option<(Direction, usize)>, w: W) -> (r: OpStep<W>)
        requires
            old(self).wf(),
            interest matches Some((d, t)) ==> old(self)@.contains_key(t),
        ensures
            final(self).wf(),
            interest is None ==> r == OpStep::Retry(w) && final(self)@ == old(self)@,
            interest matches Some((d, t)) ==> {
                let c = old(self)@[t];
                let bits = ready_bits(c, d);
                &&& bits == 0 ==> r is Pending && final(self)@ == old(self)@.insert(t, armed(c, d, w))
                &&& bits != 0 && bits & CANCELED != 0 ==> r is Canceled && final(self)@ == old(self)@.insert(
                    t,
                    cleared(c, bits & CANCELED),
                )
                &&& bits != 0 && bits & CANCELED == 0 ==> r == OpStep::Retry(w) && final(self)@ == old(self)@
            },
    {
        match interest {
            None => OpStep::Retry(w),
            Some((d, t)) => {
                let ghost before = self@;
                let mut c = self.io_dispatch.take(t).unwrap();
                let r = match c.poll_readiness(d, w) {
                    None => OpStep::Pending,
                    Some((bits, w)) => {
                        if bits & CANCELED != 0 {
                            c.clear_readiness(bits & CANCELED);
                            OpStep::Canceled
                        } else {
                            OpStep::Retry(w)
                        }
                    },
                };
                self.io_dispatch.restore(t, c);
                proof {
                    if r is Retry {
                        assert(self@ =~= before);
                    }
                }
                r
            },
        }
    }

    /// Second half of polling an operation: `outcome` is what its call returned. A call
    /// that would block on a direction means the readiness was stale: that direction's
    /// bits are cleared, `w` is stored again and the poll is pending. Any other outcome
    /// completes the operation.
    pub fn complete_op(
        &mut self,
        interest: Option<(Direction, usize)>,
        w: W,
        outcome: Result<usize, OpError>,
    ) -> (r: PollOp)
        requires
            old(self).wf(),
            interest matches Some((d, t)) ==> old(self)@.contains_key(t),
        ensures
            final(self).wf(),
            (outcome != Err::<usize, OpError>(OpError::WouldBlock) || interest is None) ==> r == PollOp::Ready(outcome)
                && final(self)@ == old(self)@,
            outcome == Err::<usize, OpError>(OpError::WouldBlock) ==> (interest matches Some((d, t)) ==> r
                is Pending && final(self)@ == old(self)@.insert(t, armed(cleared(old(self)@[t], mask_of(d)), d, w))),
    {
        match (interest, outcome) {
            (Some((d, t)), Err(OpError::WouldBlock)) => {
                let mut c = self.io_dispatch.take(t).unwrap();
                c.clear_readiness(d.mask());
                c.set_waker(d, w);
                self.io_dispatch.restore(t, c);
                PollOp::Pending
            },
            _ => PollOp::Ready(outcome),
        }
    }
}

/// An armed waker is invoked exactly once by a readiness or cancellation event on its
/// direction: the event hands it back once, and takes it out of its slot, so that a
/// further event on that direction invokes nothing until a waker is stored again.
pub proof fn lemma_armed_waker_woken_once<W>(c: ScheduledIo<W>, d: Direction, w: W, ready: u8, later: u8)
    requires
        waker_of(c, d) == Some(w),
        ready & mask_of(d) != 0,
    ensures
        woken_in(c, ready, d) == seq![w],
        waker_of(dispatched(c, ready), d) is None,
        woken_in(dispatched(c, ready), later, d).len() == 0,
        woken(c, ready) == (match d {
            Direction::Read => seq![w] + woken_in(c, ready, Direction::Write),
            Direction::Write => woken_in(c, ready, Direction::Read) + seq![w],
        }),
{
}

/// Canceling a direction whose waker is armed invokes that waker, and the next poll of
/// the direction observes the cancellation; the poll clears the cancellation bit and no
/// other readiness bit.
pub proof fn lemma_cancel_wakes_and_is_observed<W>(c: ScheduledIo<W>, d: Direction, w: W)
    requires
        waker_of(c, d) == Some(w),
        ready_bits(c, d) == 0,
    ensures
        ({
            let after = dispatched(c, cancel_bit_of(d));
            let bits = ready_bits(after, d);
            &&& woken_in(c, cancel_bit_of(d), d) == seq![w]
            &&& bits != 0
            &&& bits & CANCELED != 0
            &&& cleared(after, bits & CANCELED).readiness == c.readiness
            &&& ready_bits(cleared(after, bits & CANCELED), d) == 0
            &&& ready_bits(cleared(after, bits & CANCELED), opposite(d)) == ready_bits(c, opposite(d))
        }),
{
    let r = c.readiness;
    assert(r & 21u8 == 0 ==> (r | 16u8) & 21u8 == 16u8 && (r | 16u8) & !((r | 16u8) & 21u8 & 48u8) == r) by (bit_vector);
    assert(r & 42u8 == 0 ==> (r | 32u8) & 42u8 == 32u8 && (r | 32u8) & !((r | 32u8) & 42u8 & 48u8) == r) by (bit_vector);
    assert(16u8 & 21u8 != 0 && 32u8 & 42u8 != 0 && 16u8 & 48u8 != 0 && 32u8 & 48u8 != 0) by (bit_vector);
}

/// A token handed out by a registration resolves while other registrations come and go,
/// and stops resolving once its own registration is freed, whatever happens to other
/// tokens afterwards. `m` is the table when `t` was handed out, `later` a sequence of
/// changes to other tokens: `(u, Some(c))` registers `u` with cell `c`, `(u, None)` frees `u`.
pub proof fn lemma_registration_lifetime<W>(
    m: Map<usize, ScheduledIo<W>>,
    t: usize,
    c: ScheduledIo<W>,
    later: Seq<(usize, Option<ScheduledIo<W>>)>,
)
    requires
        forall|i: int| 0 <= i < later.len() ==> (#[trigger] later[i]).0 != t,
    ensures
        changed(m.insert(t, c), later).contains_key(t),
        !changed(m.insert(t, c).remove(t), later).contains_key(t),
    decreases later.len(),
{
    if later.len() > 0 {
        lemma_registration_lifetime(m, t, c, later.drop_last());
        assert(later.last() == later[later.len() - 1]);
    }
}

/// The table after the registrations and releases of `later`, in order.
pub open spec fn changed<W>(m: Map<usize, ScheduledIo<W>>, later: Seq<(usize, Option<ScheduledIo<W>>)>) -> Map<
    usize,
    ScheduledIo<W>,
>
    decreases later.len(),
{
    if later.len() == 0 {
        m
    } else {
        let prev = changed(m, later.drop_last());
        match later.last().1 {
            Some(c) => prev.insert(later.last().0, c),
            None => prev.remove(later.last().0),
        }
    }
}

} // verus!
