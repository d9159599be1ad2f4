use vstd::prelude::*;

verus! {

/// The handle may be read without blocking.
pub const READABLE: u8 = 1;

/// The handle may be written without blocking.
pub const WRITABLE: u8 = 2;

/// The read half of the handle was closed.
pub const READ_CLOSED: u8 = 4;

/// The write half of the handle was closed.
pub const WRITE_CLOSED: u8 = 8;

/// A pending read was canceled.
pub const READ_CANCELED: u8 = 16;

/// A pending write was canceled.
pub const WRITE_CANCELED: u8 = 32;

/// Every bit that concerns the read direction.
pub const READ_MASK: u8 = 21;

/// Every bit that concerns the write direction.
pub const WRITE_MASK: u8 = 42;

/// Both cancellation bits.
pub const CANCELED: u8 = 48;

/// Direction of readiness that an operation waits on.
#[derive(Clone, Copy, Debug, PartialEq, Eq, Structural)]
pub enum Direction {
    Read,
    Write,
}

/// The readiness bits that belong to a direction.
pub open spec fn mask_of(d: Direction) -> u8 {
    match d {
        Direction::Read => READ_MASK,
        Direction::Write => WRITE_MASK,
    }
}

/// The cancellation bit of a direction.
pub open spec fn cancel_bit_of(d: Direction) -> u8 {
    match d {
        Direction::Read => READ_CANCELED,
        Direction::Write => WRITE_CANCELED,
    }
}

/// The other direction.
pub open spec fn opposite(d: Direction) -> Direction {
    match d {
        Direction::Read => Direction::Write,
        Direction::Write => Direction::Read,
    }
}

/// `bits` with every bit of `mask` removed.
pub open spec fn without(bits: u8, mask: u8) -> u8 {
    bits & !mask
}

/// Readiness bits for what a multiplexer event reports.
pub open spec fn event_bits(readable: bool, writable: bool, read_closed: bool, write_closed: bool) -> u8 {
    (if readable { READABLE } else { 0u8 }) | (if writable { WRITABLE } else { 0u8 }) | (if read_closed {
        READ_CLOSED
    } else {
        0u8
    }) | (if write_closed { WRITE_CLOSED } else { 0u8 })
}

impl Direction {
    /// The readiness bits that this direction waits on.
    pub fn mask(&self) -> (r: u8)
        ensures
            r == mask_of(*self),
    {
        match self {
            Direction::Read => READ_MASK,
            Direction::Write => WRITE_MASK,
        }
    }

    /// The bit that marks this direction as canceled.
    pub fn cancel_bit(&self) -> (r: u8)
        ensures
            r == cancel_bit_of(*self),
    {
        match self {
            Direction::Read => READ_CANCELED,
            Direction::Write => WRITE_CANCELED,
        }
    }
}

/// Translates the predicates of a multiplexer event into readiness bits.
pub fn ready_from_event(readable: bool, writable: bool, read_closed: bool, write_closed: bool) -> (r: u8)
    ensures
        r == event_bits(readable, writable, read_closed, write_closed),
        r & CANCELED == 0,
        readable <==> r & READABLE != 0,
        writable <==> r & WRITABLE != 0,
        read_closed <==> r & READ_CLOSED != 0,
        write_closed <==> r & WRITE_CLOSED != 0,
{
    let a: u8 = if readable { READABLE } else { 0 };
    let b: u8 = if writable { WRITABLE } else { 0 };
    let c: u8 = if read_closed { READ_CLOSED } else { 0 };
    let e: u8 = if write_closed { WRITE_CLOSED } else { 0 };
    let r: u8 = a | b | c | e;
    assert(r & 48u8 == 0 && (a != 0 <==> r & 1u8 != 0) && (b != 0 <==> r & 2u8 != 0) && (c != 0 <==> r & 4u8 != 0)
        && (e != 0 <==> r & 8u8 != 0)) by (bit_vector)
        requires
            r == a | b | c | e,
            a == 0 || a == 1,
            b == 0 || b == 2,
            c == 0 || c == 4,
            e == 0 || e == 8,
    ;
    r
}

/// Readiness only accumulates: OR-ing an update in never loses a bit that was set,
/// and every bit of the update is set afterwards.
pub proof fn lemma_readiness_accumulates(bits: u8, update: u8)
    ensures
        (bits | update) & bits == bits,
        (bits | update) & update == update,
{
    assert((bits | update) & bits == bits && (bits | update) & update == update) by (bit_vector);
}

/// Clearing the bits of one direction leaves the bits of the other direction as they were,
/// and leaves none of the cleared direction's bits set.
pub proof fn lemma_clear_direction_keeps_other(bits: u8, d: Direction)
    ensures
        without(bits, mask_of(d)) & mask_of(opposite(d)) == bits & mask_of(opposite(d)),
        without(bits, mask_of(d)) & mask_of(d) == 0,
{
    assert(bits & !21u8 & 42u8 == bits & 42u8 && bits & !21u8 & 21u8 == 0) by (bit_vector);
    assert(bits & !42u8 & 21u8 == bits & 21u8 && bits & !42u8 & 42u8 == 0) by (bit_vector);
}

/// Clearing only the cancellation bits leaves every other readiness bit in place.
pub proof fn lemma_clear_cancel_keeps_readiness(bits: u8, d: Direction)
    ensures
        without(bits, bits & mask_of(d) & CANCELED) & !CANCELED == bits & !CANCELED,
        without(bits, bits & mask_of(d) & CANCELED) & cancel_bit_of(d) == 0,
        without(bits, bits & mask_of(d) & CANCELED) & cancel_bit_of(opposite(d)) == bits & cancel_bit_of(opposite(d)),
{
    assert(bits & !(bits & 21u8 & 48u8) & !48u8 == bits & !48u8 && bits & !(bits & 21u8 & 48u8) & 16u8 == 0
        && bits & !(bits & 21u8 & 48u8) & 32u8 == bits & 32u8) by (bit_vector);
    assert(bits & !(bits & 42u8 & 48u8) & !48u8 == bits & !48u8 && bits & !(bits & 42u8 & 48u8) & 32u8 == 0
        && bits & !(bits & 42u8 & 48u8) & 16u8 == bits & 16u8) by (bit_vector);
}

} // verus!
