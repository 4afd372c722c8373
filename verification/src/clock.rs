//! Monotonic time, read as whole nanoseconds since a shared origin.

use std::time::{Duration, Instant};
use vstd::prelude::*;

verus! {

/// `std::time::Instant`, carried through as an opaque value.
#[verifier::external_type_specification]
#[verifier::external_body]
pub struct ExInstant(Instant);

/// Reads the monotonic clock with `std::time::Instant::now`. Nothing is
/// claimed of the instant that comes back.
#[verifier::external_body]
pub(crate) fn instant_now() -> (now: Instant) {
    Instant::now()
}

/// Time passed since `start`, by `std::time::Instant::elapsed`. Nothing is
/// claimed of the duration that comes back.
#[verifier::external_body]
pub(crate) fn instant_elapsed(start: &Instant) -> (passed: Duration) {
    start.elapsed()
}

/// Whole nanoseconds of `passed`, by `std::time::Duration::as_nanos`. The
/// duration is opaque here, so nothing is claimed of the number.
#[verifier::external_body]
pub(crate) fn duration_nanos(passed: &Duration) -> (nanos: u128) {
    passed.as_nanos()
}

/// A clock with a fixed origin. Every endpoint of one network reads the same
/// clock, so the instants they stamp on messages are comparable.
#[derive(Clone, Copy)]
pub struct Clock {
    origin: Instant,
}

impl Clock {
    /// Starts a clock whose origin is the present moment.
    pub fn start() -> (clock: Clock) {
        Clock { origin: instant_now() }
    }

    /// Nanoseconds passed since the clock's origin. The value depends on when
    /// the call is made, so the contract promises nothing about it.
    pub fn now(&self) -> (nanos: u128) {
        let passed = instant_elapsed(&self.origin);
        duration_nanos(&passed)
    }
}

/// The nanoseconds in one second.
pub const NANOS_PER_SECOND: u128 = 1_000_000_000;

/// The time still to pass at `now` until `instant`: nothing, once the
/// instant is reached.
pub fn span_until(now: u128, instant: u128) -> (nanos: u128)
    ensures
        instant > now ==> nanos == instant - now,
        instant <= now ==> nanos == 0,
{
    if instant > now {
        instant - now
    } else {
        0
    }
}

/// Splits a span of nanoseconds into whole seconds and the nanoseconds
/// beyond them. A span of more seconds than 64 bits hold counts as the
/// longest that they hold, with its nanoseconds as they are.
pub fn split_span(nanos: u128) -> (parts: (u64, u32))
    ensures
        parts.1 == nanos % NANOS_PER_SECOND,
        nanos / NANOS_PER_SECOND <= u64::MAX ==> parts.0 == nanos / NANOS_PER_SECOND,
        nanos / NANOS_PER_SECOND > u64::MAX ==> parts.0 == u64::MAX,
{
    let seconds: u128 = nanos / NANOS_PER_SECOND;
    let beyond: u128 = nanos % NANOS_PER_SECOND;
    let whole: u64 = if seconds <= u64::MAX as u128 {
        seconds as u64
    } else {
        u64::MAX
    };
    (whole, beyond as u32)
}

} // verus!
