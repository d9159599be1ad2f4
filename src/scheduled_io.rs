use vstd::prelude::*;

use crate::ready::{Direction, READ_MASK, WRITE_MASK, mask_of, without};

verus! {

/// Readiness state of one registration: the readiness bits seen so far and
/// at most one stored waker per direction.
pub struct ScheduledIo<W> {
    pub readiness: u8,
    pub reader: Option<W>,
    pub writer: Option<W>,
}

/// The waker stored for a direction.
pub open spec fn waker_of<W>(c: ScheduledIo<W>, d: Direction) -> Option<W> {
    match d {
        Direction::Read => c.reader,
        Direction::Write => c.writer,
    }
}

/// The readiness bits of a direction that are set.
pub open spec fn ready_bits<W>(c: ScheduledIo<W>, d: Direction) -> u8 {
    c.readiness & mask_of(d)
}

/// The waker of direction `d` that a readiness update invokes, if the update touches
/// that direction and a waker is stored for it.
pub open spec fn woken_in<W>(c: ScheduledIo<W>, ready: u8, d: Direction) -> Seq<W> {
    if ready & mask_of(d) != 0 && waker_of(c, d) is Some {
        seq![waker_of(c, d)->Some_0]
    } else {
        Seq::empty()
    }
}

/// The wakers that a readiness update invokes: the reader's, then the writer's.
pub open spec fn woken<W>(c: ScheduledIo<W>, ready: u8) -> Seq<W> {
    woken_in(c, ready, Direction::Read) + woken_in(c, ready, Direction::Write)
}

/// The cell after a readiness update: the update is OR-ed in and each woken waker
/// is taken out of its slot.
pub open spec fn dispatched<W>(c: ScheduledIo<W>, ready: u8) -> ScheduledIo<W> {
    ScheduledIo {
        readiness: c.readiness | ready,
        reader: if ready & READ_MASK != 0 { None } else { c.reader },
        writer: if ready & WRITE_MASK != 0 { None } else { c.writer },
    }
}

/// The cell with `w` stored as the waker of direction `d`.
pub open spec fn armed<W>(c: ScheduledIo<W>, d: Direction, w: W) -> ScheduledIo<W> {
    match d {
        Direction::Read => ScheduledIo { reader: Some(w), ..c },
        Direction::Write => ScheduledIo { writer: Some(w), ..c },
    }
}

/// The cell with the bits of `mask` cleared.
pub open spec fn cleared<W>(c: ScheduledIo<W>, mask: u8) -> ScheduledIo<W> {
    ScheduledIo { readiness: without(c.readiness, mask), ..c }
}

impl<W> ScheduledIo<W> {
    /// A cell with no readiness and no stored waker.
    pub fn new() -> (r: Self)
        ensures
            r.readiness == 0,
            r.reader is None,
            r.writer is None,
    {
        ScheduledIo { readiness: 0, reader: None, writer: None }
    }

    /// ORs a readiness update into the bits.
    pub fn set_readiness(&mut self, ready: u8)
        ensures
            final(self).readiness == old(self).readiness | ready,
            final(self).reader == old(self).reader,
            final(self).writer == old(self).writer,
    {
        self.readiness = self.readiness | ready;
    }

    /// Clears the bits of `mask`.
    pub fn clear_readiness(&mut self, mask: u8)
        ensures
            *final(self) == cleared(*old(self), mask),
    {
        self.readiness = self.readiness & !mask;
    }

    /// Takes out the wakers of the directions that `ready` touches and hands them
    /// back, to be invoked by the caller.
    pub fn wake(&mut self, ready: u8) -> (r: Vec<W>)
        ensures
            r@ == woken(*old(self), ready),
            final(self).readiness == old(self).readiness,
            final(self).reader == (if ready & READ_MASK != 0 { None } else { old(self).reader }),
            final(self).writer == (if ready & WRITE_MASK != 0 { None } else { old(self).writer }),
    {
        let mut r: Vec<W> = Vec::new();
        if ready & READ_MASK != 0 {
            if let Some(w) = self.reader.take() {
                r.push(w);
            }
        }
        if ready & WRITE_MASK != 0 {
            if let Some(w) = self.writer.take() {
                r.push(w);
            }
        }
        assert(r@ =~= woken(*old(self), ready));
        r
    }

    /// Stores `w` as the waker of direction `d`, replacing any earlier one.
    pub fn set_waker(&mut self, d: Direction, w: W)
        ensures
            *final(self) == armed(*old(self), d, w),
    {
        match d {
            Direction::Read => {
                self.reader = Some(w);
            },
            Direction::Write => {
                self.writer = Some(w);
            },
        }
    }

    /// Reports the readiness bits of direction `d`. Where none is set, `w` is stored
    /// for that direction and `None` comes back; else the bits and `w` come back and
    /// the cell is unchanged.
    pub fn poll_readiness(&mut self, d: Direction, w: W) -> (r: Option<(u8, W)>)
        ensures
            ready_bits(*old(self), d) == 0 ==> r is None && *final(self) == armed(*old(self), d, w),
            ready_bits(*old(self), d) != 0 ==> r == Some((ready_bits(*old(self), d), w)) && *final(self) == *old(self),
    {
        let bits: u8 = self.readiness & d.mask();
        if bits == 0 {
            self.set_waker(d, w);
            None
        } else {
            Some((bits, w))
        }
    }
}

} // verus!
