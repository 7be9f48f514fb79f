//! The arithmetic of event counters.

use vstd::prelude::*;

verus! {

/// The count after one more event. A counter that is full starts over at zero.
pub open spec fn bumped(n: u64) -> u64 {
    if n == u64::MAX {
        0
    } else {
        (n + 1) as u64
    }
}

/// The count after `k` more events.
pub open spec fn bumped_by(n: u64, k: nat) -> u64
    decreases k,
{
    if k == 0 {
        n
    } else {
        bumped_by(bumped(n), (k - 1) as nat)
    }
}

/// Adds one event to a count.
pub fn bump(n: u64) -> (out: u64)
    ensures
        out == bumped(n),
{
    if n == u64::MAX {
        0
    } else {
        n + 1
    }
}

/// A count goes up by one with each event, and after so many events by so many, as long
/// as it fits; a counter that is full starts over at zero.
pub proof fn counts_go_up_by_one(n: u64, k: nat, out: u64)
    requires
        call_ensures(bump, (n,), out),
    ensures
        n < u64::MAX ==> out == n + 1,
        n == u64::MAX ==> out == 0,
        n + k <= u64::MAX ==> bumped_by(n, k) == n + k,
{
    if n + k <= u64::MAX {
        lemma_bumped_by(n, k);
    }
}

proof fn lemma_bumped_by(n: u64, k: nat)
    requires
        n + k <= u64::MAX,
    ensures
        bumped_by(n, k) == n + k,
    decreases k,
{
    if k > 0 {
        lemma_bumped_by(bumped(n), (k - 1) as nat);
    }
}

} // verus!
