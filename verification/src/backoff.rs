//! How long to wait between two tries of the same thing: one second at
//! first, then twice as long each time, up to a limit.
use vstd::prelude::*;

verus! {

/// The wait before the second try, in seconds.
pub const FIRST_DELAY: u64 = 1;

/// Twice `delay`, but no more than `cap`.
pub open spec fn doubled(delay: int, cap: int) -> int {
    if 2 * delay <= cap {
        2 * delay
    } else {
        cap
    }
}

/// The wait that follows after `tries` further tries: `FIRST_DELAY` doubled
/// `tries` times, each time held to `cap`.
pub open spec fn delay_after(tries: nat, cap: int) -> int
    decreases tries,
{
    if tries == 0 {
        if FIRST_DELAY <= cap {
            FIRST_DELAY as int
        } else {
            cap
        }
    } else {
        doubled(delay_after((tries - 1) as nat, cap), cap)
    }
}

/// The first wait: `FIRST_DELAY`, or `cap` if that is less.
pub fn first_delay(cap: u64) -> (delay: u64)
    ensures
        delay == delay_after(0, cap as int),
{
    if FIRST_DELAY <= cap {
        FIRST_DELAY
    } else {
        cap
    }
}

/// The wait that follows a wait of `delay` seconds.
pub fn next_delay(delay: u64, cap: u64) -> (next: u64)
    ensures
        next == doubled(delay as int, cap as int),
{
    if delay <= cap / 2 {
        2 * delay
    } else {
        cap
    }
}

/// Waits never shrink and never exceed the limit.
pub proof fn law_delays_grow_up_to_the_cap(tries: nat, cap: int)
    requires
        0 <= cap,
    ensures
        0 <= delay_after(tries, cap) <= cap,
        delay_after(tries, cap) <= delay_after(tries + 1, cap),
    decreases tries,
{
    if tries > 0 {
        law_delays_grow_up_to_the_cap((tries - 1) as nat, cap);
    }
}

} // verus!
