//! A span of time held as a whole number of nanoseconds.

use vstd::prelude::*;

verus! {

/// The largest span `std::time::Duration` can hold, in nanoseconds.
pub open spec fn max_nanos() -> nat {
    (u64::MAX as nat) * 1_000_000_000 + 999_999_999
}

/// A span of time, with the range and resolution of `std::time::Duration`.
#[derive(Debug, Clone, Copy, PartialEq, Eq, PartialOrd, Ord, Hash, Structural)]
pub struct Duration {
    /// Total nanoseconds.
    pub nanos: u128,
}

impl Duration {
    /// The empty span (`Duration::ZERO`).
    pub fn zero() -> (d: Duration)
        ensures
            d.nanos == 0,
    {
        Duration { nanos: 0 }
    }

    /// Whether the span fits the range of `std::time::Duration`.
    pub open spec fn wf(self) -> bool {
        self.nanos <= max_nanos()
    }

    /// A span of `ms` milliseconds.
    pub fn from_millis(ms: u64) -> (d: Duration)
        ensures
            d.nanos == ms * 1_000_000,
            d.wf(),
    {
        Duration { nanos: (ms as u128) * 1_000_000 }
    }

    /// A span of `s` seconds.
    pub fn from_secs(s: u64) -> (d: Duration)
        ensures
            d.nanos == s * 1_000_000_000,
            d.wf(),
    {
        Duration { nanos: (s as u128) * 1_000_000_000 }
    }

    /// A span of `us` microseconds.
    pub fn from_micros(us: u64) -> (d: Duration)
        ensures
            d.nanos == us * 1_000,
            d.wf(),
    {
        Duration { nanos: (us as u128) * 1_000 }
    }

    /// Whether the span is empty.
    pub fn is_zero(&self) -> (b: bool)
        ensures
            b == (self.nanos == 0),
    {
        self.nanos == 0
    }

    /// The span multiplied by `k` (`Duration * u32`, which panics past the largest span).
    pub fn times(&self, k: u32) -> (d: Duration)
        requires
            self.nanos * k <= max_nanos(),
        ensures
            d.nanos == self.nanos * k,
            d.wf(),
    {
        proof {
            assert(max_nanos() < u128::MAX);
        }
        Duration { nanos: self.nanos * (k as u128) }
    }

    /// The sum of two spans (`Duration + Duration`, which panics past the largest span).
    pub fn plus(&self, other: &Duration) -> (d: Duration)
        requires
            self.nanos + other.nanos <= max_nanos(),
        ensures
            d.nanos == self.nanos + other.nanos,
            d.wf(),
    {
        Duration { nanos: self.nanos + other.nanos }
    }

    /// The shorter of two spans.
    pub fn shorter(&self, other: &Duration) -> (d: Duration)
        ensures
            d.nanos == if self.nanos <= other.nanos { self.nanos } else { other.nanos },
    {
        if self.nanos <= other.nanos { *self } else { *other }
    }

    /// Whole milliseconds in the span.
    pub fn as_millis(&self) -> (ms: u128)
        ensures
            ms == self.nanos / 1_000_000,
    {
        self.nanos / 1_000_000
    }

    /// Whole microseconds in the span.
    pub fn as_micros(&self) -> (us: u128)
        ensures
            us == self.nanos / 1_000,
    {
        self.nanos / 1_000
    }
}

} // verus!

verus! {

#[verifier::external_type_specification]
#[verifier::external_body]
pub struct ExSystemTime(std::time::SystemTime);

/// Reads the wall clock with `std::time::SystemTime::now`; nothing is promised of the value.
#[verifier::external_body]
fn system_now() -> std::time::SystemTime {
    std::time::SystemTime::now()
}

/// `SystemTime::duration_since(UNIX_EPOCH)`: the span since 1970-01-01, or `None` for a time
/// before it. The span depends on the clock's reading, so nothing more is stated.
#[verifier::external_body]
fn since_unix_epoch(t: &std::time::SystemTime) -> Option<std::time::Duration> {
    t.duration_since(std::time::UNIX_EPOCH).ok()
}

/// `Duration::as_secs`: the whole seconds of the span.
#[verifier::external_body]
fn duration_secs(d: &std::time::Duration) -> u64 {
    d.as_secs()
}

/// `Duration::subsec_nanos`: the nanoseconds past the whole seconds, always below one second.
#[verifier::external_body]
fn duration_subsec_nanos(d: &std::time::Duration) -> (n: u32)
    ensures
        n < 1_000_000_000,
{
    d.subsec_nanos()
}

/// The current wall-clock time since the Unix epoch, as whole seconds and the nanoseconds past
/// them; `(0, 0)` when the clock reads a time before the epoch.
pub fn unix_time_now() -> (t: (u64, u32))
    ensures
        t.1 < 1_000_000_000,
{
    let now = system_now();
    match since_unix_epoch(&now) {
        Some(d) => (duration_secs(&d), duration_subsec_nanos(&d)),
        None => (0, 0),
    }
}

/// Microseconds since the Unix epoch for a reading of `secs` seconds and `nanos` nanoseconds,
/// saturating at the largest `u64`.
pub open spec fn micros_of(secs: u64, nanos: u32) -> nat {
    let us = secs * 1_000_000 + nanos / 1000;
    if us > u64::MAX { u64::MAX as nat } else { us as nat }
}

/// The current wall-clock time in microseconds since the Unix epoch.
pub fn unix_micros_now() -> (us: u64)
    ensures
        exists|secs: u64, nanos: u32| nanos < 1_000_000_000 && us == micros_of(secs, nanos),
{
    let (secs, nanos) = unix_time_now();
    let us: u128 = (secs as u128) * 1_000_000 + (nanos as u128) / 1000;
    let r: u64 = if us > u64::MAX as u128 { u64::MAX } else { us as u64 };
    assert(r == micros_of(secs, nanos));
    r
}

} // verus!
