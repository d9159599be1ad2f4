use vstd::prelude::*;

verus! {

/// One unpark request against the "awake" flag: the flag is set, and the dedicated wake
/// event is triggered only where the flag was clear. Gives the new flag and whether the
/// event was triggered.
pub open spec fn unpark_step(awake: bool) -> (bool, bool) {
    (true, !awake)
}

/// Whether an unpark request that found the flag at `was_awake` must trigger the wake event.
pub fn must_trigger(was_awake: bool) -> (r: bool)
    ensures
        r == unpark_step(was_awake).1,
{
    !was_awake
}

/// Two unpark requests in a row trigger the wake event at most once, and not at all
/// while the reactor is awake: the second one finds the flag set.
pub proof fn lemma_unpark_triggers_at_most_once(awake: bool)
    ensures
        ({
            let (a1, t1) = unpark_step(awake);
            let (a2, t2) = unpark_step(a1);
            &&& a1 && a2
            &&& !(t1 && t2)
            &&& !t2
            &&& awake ==> !t1
        }),
{
}

/// The timeout that the park loop waits with: where any wake request was drained it
/// must not block and waits with `zero`, else the caller's `requested` timeout stands.
pub open spec fn wait_timeout<D>(drained: nat, requested: D, zero: D) -> D {
    if drained > 0 {
        zero
    } else {
        requested
    }
}

/// Picks the timeout to wait with, given how many wake requests the two drains found.
pub fn effective_timeout<D>(first: usize, second: usize, requested: D, zero: D) -> (r: D)
    ensures
        r == wait_timeout(first as nat + second as nat, requested, zero),
{
    if first > 0 || second > 0 {
        zero
    } else {
        requested
    }
}

/// Whether the park loop must mark itself "not awake" after its first drain: only when
/// that drain found nothing, so that it is about to block.
pub fn must_clear_awake(first: usize) -> (r: bool)
    ensures
        r == (first == 0),
{
    first == 0
}

/// Wake requests that were queued before a park are drained by it, and then the park
/// does not block: whatever the caller's timeout, the wait is made with a zero timeout.
pub proof fn lemma_queued_requests_do_not_block<D>(first: nat, second: nat, requested: D, zero: D)
    requires
        first + second > 0,
    ensures
        wait_timeout(first + second, requested, zero) == zero,
{
}

} // verus!
