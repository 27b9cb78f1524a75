//! Reconnect policy: a stream silent for 10 s counts as broken; the
//! back-off is 1 s after a healthy connection, doubling after each failure up
//! to 30 s.
use vstd::prelude::*;

verus! {

/// Back-off after a healthy connection, in seconds.
pub const INITIAL_BACKOFF_SECS: u64 = 1;

/// Largest back-off, in seconds.
pub const MAX_BACKOFF_SECS: u64 = 30;

/// A stream that delivers nothing for this many seconds is treated as broken
/// and reconnected.
pub const STALL_TIMEOUT_SECS: u64 = 10;

/// The back-off after one more failure.
pub open spec fn next_backoff(b: u64) -> u64 {
    if 2 * b < MAX_BACKOFF_SECS {
        (2 * b) as u64
    } else {
        MAX_BACKOFF_SECS
    }
}

/// The back-off after `n` failures in a row following a healthy connection.
pub open spec fn backoff_after(n: nat) -> u64
    decreases n,
{
    if n == 0 {
        INITIAL_BACKOFF_SECS
    } else {
        next_backoff(backoff_after((n - 1) as nat))
    }
}

/// Powers of two.
pub open spec fn pow2(n: nat) -> nat
    decreases n,
{
    if n == 0 {
        1
    } else {
        2 * pow2((n - 1) as nat)
    }
}

/// The back-off after one more failure, computed without overflow.
pub fn double_backoff(b: u64) -> (r: u64)
    requires
        b <= MAX_BACKOFF_SECS,
    ensures
        r == next_backoff(b),
{
    if 2 * b < MAX_BACKOFF_SECS {
        2 * b
    } else {
        MAX_BACKOFF_SECS
    }
}

/// After `n` failures the back-off is `min(2^n, 30)` seconds: it doubles from
/// 1 s and never exceeds 30 s.
pub proof fn law_backoff_doubles_to_cap(n: nat)
    ensures
        backoff_after(n) == (if pow2(n) < MAX_BACKOFF_SECS { pow2(n) } else { MAX_BACKOFF_SECS as nat }),
        1 <= backoff_after(n) <= MAX_BACKOFF_SECS,
    decreases n,
{
    if n > 0 {
        law_backoff_doubles_to_cap((n - 1) as nat);
        lemma_pow2_positive((n - 1) as nat);
    }
}

proof fn lemma_pow2_positive(n: nat)
    ensures
        pow2(n) >= 1,
    decreases n,
{
    if n > 0 {
        lemma_pow2_positive((n - 1) as nat);
    }
}

} // verus!
