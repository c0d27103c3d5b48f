//! Reconnect backoff: the wait between failed reconnect attempts starts
//! at five seconds and doubles on each failure, capped at sixty.
use vstd::prelude::*;

verus! {

/// The first wait, in seconds.
pub const INITIAL_BACKOFF_SECS: u64 = 5;

/// The wait that follows a wait of `d` seconds: doubled, capped at sixty.
pub open spec fn next_backoff_spec(d: nat) -> nat {
    if d >= 30 {
        60
    } else {
        2 * d
    }
}

/// The wait before attempt `n` (counting failed attempts from zero).
pub open spec fn backoff_delay(n: nat) -> nat
    decreases n,
{
    if n == 0 {
        5
    } else {
        next_backoff_spec(backoff_delay((n - 1) as nat))
    }
}

/// Steps the reconnect wait: doubled, capped at sixty seconds.
pub fn next_backoff(d: u64) -> (r: u64)
    ensures
        r == next_backoff_spec(d as nat),
{
    if d >= 30 {
        60
    } else {
        2 * d
    }
}

/// Backoff growth: consecutive failed reconnect attempts wait 5, 10, 20,
/// 40, 60 seconds, and sixty from then on.
pub proof fn lemma_backoff_growth(n: nat)
    ensures
        backoff_delay(0) == 5,
        backoff_delay(1) == 10,
        backoff_delay(2) == 20,
        backoff_delay(3) == 40,
        backoff_delay(4) == 60,
        n >= 4 ==> backoff_delay(n) == 60,
    decreases n,
{
    assert(backoff_delay(0) == 5);
    assert(backoff_delay(1) == 10);
    assert(backoff_delay(2) == 20);
    assert(backoff_delay(3) == 40);
    assert(backoff_delay(4) == 60);
    if n > 4 {
        lemma_backoff_growth((n - 1) as nat);
    }
}

} // verus!
