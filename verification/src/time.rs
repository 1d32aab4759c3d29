//! The time model: instants as signed nanosecond offsets from the Unix
//! epoch, spans as unsigned nanosecond counts.

use vstd::prelude::*;

verus! {

/// An instant, in nanoseconds after (or, when negative, before) the Unix epoch.
pub type Timestamp = i128;

/// A span of time in nanoseconds.
pub type Nanos = u128;

/// The number of nanoseconds in one second.
pub const NANOS_PER_SEC: u128 = 1_000_000_000;

/// The longest span a `std::time::Duration` can hold, in nanoseconds:
/// `u64::MAX` seconds plus 999 999 999 nanoseconds.
pub const MAX_DURATION_NANOS: u128 = 18_446_744_073_709_551_615_999_999_999;

/// Smallest instant whose whole-second part fits an `i64`.
pub const MIN_INSTANT: i128 = -9_223_372_036_854_775_808_000_000_000;

/// Largest instant whose whole-second part fits an `i64`.
pub const MAX_INSTANT: i128 = 9_223_372_036_854_775_807_999_999_999;

/// Whether an instant lies in the range a system clock value covers: its
/// whole-second part fits a signed 64-bit integer.
pub open spec fn instant_in_range(t: int) -> bool {
    MIN_INSTANT <= t <= MAX_INSTANT
}

/// The instant `delay` after `t`, when it is still in range.
pub open spec fn spec_add_delay(t: int, delay: int) -> Option<int> {
    if instant_in_range(t + delay) {
        Some(t + delay)
    } else {
        None
    }
}

/// The span from `earlier` to `later`, or, when `earlier` is after
/// `later`, the span by which it is after (the two sides of
/// `SystemTime::duration_since`).
pub open spec fn spec_elapsed(later: int, earlier: int) -> Result<int, int> {
    if earlier <= later {
        Ok(later - earlier)
    } else {
        Err(earlier - later)
    }
}

/// Offset of the current system clock from the Unix epoch: `Ok` with the
/// span after it, `Err` with the span before it.
///
/// Calls `std::time::SystemTime::now` and `SystemTime::duration_since`
/// with `UNIX_EPOCH`; the claim is only the bound that any
/// `std::time::Duration` obeys. The clock's value is not stated.
#[verifier::external_body]
fn clock_offset() -> (r: Result<u128, u128>)
    ensures
        match r {
            Ok(n) => n <= MAX_DURATION_NANOS,
            Err(n) => n <= MAX_DURATION_NANOS,
        },
{
    match std::time::SystemTime::now().duration_since(std::time::UNIX_EPOCH) {
        Ok(d) => Ok(d.as_nanos()),
        Err(e) => Err(e.duration().as_nanos()),
    }
}

/// Turns a clock offset from the epoch into a signed instant.
pub fn instant_from_offset(r: Result<u128, u128>) -> (t: Timestamp)
    requires
        match r {
            Ok(n) => n <= MAX_DURATION_NANOS,
            Err(n) => n <= MAX_DURATION_NANOS,
        },
    ensures
        match r {
            Ok(n) => t == n,
            Err(n) => t == -n,
        },
{
    match r {
        Ok(n) => n as i128,
        Err(n) => -(n as i128),
    }
}

/// The current instant of the system clock.
pub fn now() -> (t: Timestamp)
    ensures
        -MAX_DURATION_NANOS <= t <= MAX_DURATION_NANOS,
{
    instant_from_offset(clock_offset())
}

/// The instant `delay` after `t`, or `None` when it leaves the clock's range.
pub fn add_delay(t: Timestamp, delay: Nanos) -> (r: Option<Timestamp>)
    ensures
        match spec_add_delay(t as int, delay as int) {
            Some(v) => r == Some(v as i128),
            None => r is None,
        },
{
    if t > MAX_INSTANT {
        return None;
    }
    if t < MIN_INSTANT {
        let gap = (MIN_INSTANT - t) as u128;
        if delay < gap {
            return None;
        }
        let rest = delay - gap;
        if rest > (MAX_INSTANT - MIN_INSTANT) as u128 {
            return None;
        }
        return Some(MIN_INSTANT + rest as i128);
    }
    let headroom = (MAX_INSTANT - t) as u128;
    if delay > headroom {
        None
    } else {
        Some(t + delay as i128)
    }
}

/// The span between two instants, as `SystemTime::duration_since` gives it.
pub fn elapsed(later: Timestamp, earlier: Timestamp) -> (r: Result<Nanos, Nanos>)
    requires
        -MAX_DURATION_NANOS <= later <= MAX_DURATION_NANOS,
        -MAX_DURATION_NANOS <= earlier <= MAX_DURATION_NANOS,
    ensures
        match (r, spec_elapsed(later as int, earlier as int)) {
            (Ok(a), Ok(b)) => a == b,
            (Err(a), Err(b)) => a == b,
            _ => false,
        },
{
    if earlier <= later {
        Ok((later - earlier) as u128)
    } else {
        Err((earlier - later) as u128)
    }
}

/// A delivery time set `d` after `t` is exactly `d` after `t`: measuring
/// the span back from it gives `d`.
pub proof fn lemma_delay_then_elapsed(t: int, d: int)
    requires
        d >= 0,
        spec_add_delay(t, d) is Some,
    ensures
        spec_elapsed(spec_add_delay(t, d)->0, t) == Ok::<int, int>(d),
{
}

} // verus!
