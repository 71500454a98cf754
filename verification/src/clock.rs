//! Time as the cache sees it: whole nanoseconds on a monotonic clock.
//!
//! A point in time is the number of nanoseconds since the clock was started; a
//! time-to-live is a number of nanoseconds. Both are `u128` in executable code
//! and `nat` in contracts.

use std::time::Duration;
use std::time::Instant;
use vstd::prelude::*;

verus! {

/// Nanoseconds in one second.
pub const NANOS_PER_SEC: u128 = 1_000_000_000;

/// The greatest number of nanoseconds that `nanos_of` and `Clock::now` return:
/// `u64::MAX` whole seconds and a sub-second part that fits in a `u32`.
pub const MAX_NANOS: u128 = 0xffff_ffff_ffff_ffff * 1_000_000_000 + 0xffff_ffff;

/// `std::time::Instant`, a reading of the monotonic clock. Nothing is known
/// of what a value holds: it is only carried from `Instant::now` to
/// `Instant::saturating_duration_since`.
#[verifier::external_type_specification]
#[verifier::external_body]
pub struct ExInstant(Instant);

/// The whole seconds that a `Duration` holds: what `Duration::as_secs` returns.
pub uninterp spec fn duration_secs(d: Duration) -> u64;

/// The part of a `Duration` below one second, in nanoseconds: what
/// `Duration::subsec_nanos` returns.
pub uninterp spec fn duration_subsec_nanos(d: Duration) -> u32;

/// `Instant::now`: a reading of the monotonic clock. Nothing is claimed of it.
pub assume_specification[ Instant::now ]() -> Instant;

/// `Instant::saturating_duration_since`: the time from `earlier` to `later`,
/// or zero where `earlier` is the later one. It depends on two readings of the
/// clock, so nothing is claimed of it.
pub assume_specification[ Instant::saturating_duration_since ](
    later: &Instant,
    earlier: Instant,
) -> Duration;

/// `Duration::as_secs`: a function of the duration alone.
pub assume_specification[ Duration::as_secs ](d: &Duration) -> (secs: u64)
    ensures
        secs == duration_secs(*d),
;

/// `Duration::subsec_nanos`: a function of the duration alone.
pub assume_specification[ Duration::subsec_nanos ](d: &Duration) -> (nanos: u32)
    ensures
        nanos == duration_subsec_nanos(*d),
;

/// `Duration::from_millis`: a duration of that many milliseconds, so its whole
/// seconds are the thousands and its sub-second part is the rest.
pub assume_specification[ Duration::from_millis ](millis: u64) -> (d: Duration)
    ensures
        duration_secs(d) == millis / 1000,
        duration_subsec_nanos(d) == (millis % 1000) * 1_000_000,
;

/// The length of a duration in nanoseconds.
pub open spec fn duration_nanos(d: Duration) -> nat {
    (duration_secs(d) * NANOS_PER_SEC + duration_subsec_nanos(d)) as nat
}

/// The length of an optional time-to-live in nanoseconds.
pub open spec fn ttl_nanos(ttl: Option<Duration>) -> Option<nat> {
    match ttl {
        Some(d) => Some(duration_nanos(d)),
        None => None,
    }
}

/// The length of a duration in nanoseconds. It is computed from the whole
/// seconds and the sub-second part, so that it is bounded by `MAX_NANOS` and
/// the sum of two such lengths fits in a `u128`.
pub fn nanos_of(d: &Duration) -> (nanos: u128)
    ensures
        nanos == duration_nanos(*d),
        nanos <= MAX_NANOS,
{
    let secs: u64 = d.as_secs();
    let sub: u32 = d.subsec_nanos();
    (secs as u128) * NANOS_PER_SEC + (sub as u128)
}

/// The length of an optional time-to-live in nanoseconds.
pub fn ttl_to_nanos(ttl: Option<Duration>) -> (nanos: Option<u128>)
    ensures
        nanos is Some <==> ttl is Some,
        nanos matches Some(n) ==> ttl_nanos(ttl) == Some(n as nat) && n <= MAX_NANOS,
{
    match ttl {
        Some(d) => Some(nanos_of(&d)),
        None => None,
    }
}

/// A monotonic clock that counts nanoseconds from the moment it was started.
pub struct Clock {
    epoch: Instant,
}

impl Clock {
    /// Starts a clock at the current instant.
    pub fn start() -> (clock: Clock) {
        Clock { epoch: Instant::now() }
    }

    /// The nanoseconds elapsed since the clock was started. Two readings may
    /// differ, so the contract holds only the bound that every reading meets.
    pub fn now(&self) -> (nanos: u128)
        ensures
            nanos <= MAX_NANOS,
    {
        let current: Instant = Instant::now();
        let elapsed: Duration = current.saturating_duration_since(self.epoch);
        nanos_of(&elapsed)
    }
}

} // verus!
