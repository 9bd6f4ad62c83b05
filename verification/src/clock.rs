//! Readings of the two clocks the plugin consults, as plain numbers.
//!
//! The monotonic clock is read as nanoseconds since a fixed start; the wall
//! clock as nanoseconds since the Unix epoch.

use vstd::prelude::*;

verus! {

/// Nanoseconds in one second.
pub const NANOS_PER_SEC: u64 = 1_000_000_000;

/// Whole seconds from `since` to `now` on the monotonic clock; zero when
/// `now` is not after `since` (the difference saturates at zero).
pub open spec fn mono_elapsed_secs(now: u64, since: u64) -> int {
    if now >= since {
        (now - since) / 1_000_000_000
    } else {
        0
    }
}

/// Whole seconds from `since` to `now` on the monotonic clock.
pub fn elapsed_secs(now: u64, since: u64) -> (r: u64)
    ensures
        r == mono_elapsed_secs(now, since),
{
    if now >= since {
        (now - since) / NANOS_PER_SEC
    } else {
        0
    }
}

/// Whole seconds from `since` to `now` on the wall clock, rounded toward
/// zero (negative when `now` is before `since`).
pub open spec fn wall_elapsed_secs(now: i128, since: i128) -> int {
    let d = now - since;
    if d >= 0 {
        d / 1_000_000_000
    } else {
        -((-d) / 1_000_000_000)
    }
}

/// The wall-clock instants that the plugin can meet: within 10^13 seconds
/// (about 317,000 years) of the epoch, which holds every instant of the
/// calendar range of `chrono` (about 262,000 years either way).
pub open spec fn wall_in_range(t: i128) -> bool {
    -10_000_000_000_000_000_000_000 <= t <= 10_000_000_000_000_000_000_000
}

/// Whole seconds from `since` to `now` on the wall clock, rounded toward zero.
pub fn wall_elapsed(now: i128, since: i128) -> (r: i128)
    requires
        wall_in_range(now),
        wall_in_range(since),
    ensures
        r == wall_elapsed_secs(now, since),
{
    let d = now - since;
    if d >= 0 {
        d / 1_000_000_000
    } else {
        let m = -d;
        -(m / 1_000_000_000)
    }
}

/// The Unix time in whole seconds (rounded down) of a wall-clock reading.
pub open spec fn unix_secs(t: i128) -> int {
    t / 1_000_000_000
}

/// The Unix time in whole seconds (rounded down) of a wall-clock reading.
pub fn unix_timestamp(t: i128) -> (r: i64)
    requires
        wall_in_range(t),
    ensures
        r == unix_secs(t),
{
    let q = t.checked_div_euclid(1_000_000_000);
    match q {
        Some(v) => {
            assert(i64::MIN <= v <= i64::MAX);
            v as i64
        },
        None => {
            assert(false);
            0
        },
    }
}

/// Whole seconds from `since` to `now` on the wall clock, rounded toward
/// zero, as a signed 64-bit count.
pub fn wall_elapsed_i64(now: i128, since: i128) -> (r: i64)
    requires
        wall_in_range(now),
        wall_in_range(since),
    ensures
        r == wall_elapsed_secs(now, since),
{
    wall_elapsed(now, since) as i64
}

} // verus!
