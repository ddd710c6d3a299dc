use chrono::TimeZone;
use vstd::prelude::*;

verus! {

/// Declares `std::time::Instant`, held opaque in a `TimePair`.
#[verifier::external_type_specification]
#[verifier::external_body]
pub struct ExInstant(std::time::Instant);

/// Relies on `std::time::Instant::now`: a reading of the monotonic clock.
pub assume_specification[ std::time::Instant::now ]() -> std::time::Instant;

/// Relies on `std::time::SystemTime::now` and `duration_since(UNIX_EPOCH)`:
/// milliseconds since the Unix epoch, or 0 for a clock set before it.
#[verifier::external_body]
fn unix_time_ms() -> (r: u64) {
    match std::time::SystemTime::now().duration_since(std::time::UNIX_EPOCH) {
        Ok(d) => d.as_millis() as u64,
        Err(_) => 0,
    }
}

/// The RFC 3339 text of the UTC time `ms` milliseconds after the Unix epoch.
pub uninterp spec fn rfc3339_text(ms: int) -> Seq<char>;

/// The latest time, in milliseconds since the epoch, that is certainly within
/// the calendar's range (about the year 255,000).
pub const RFC3339_SAFE_MS: u64 = 8_000_000_000_000_000;

/// Relies on `chrono::Utc.timestamp_millis_opt(ms).single()` and
/// `DateTime::to_rfc3339`: `None` only for times outside the calendar's range
/// (beyond year 262,142).
#[verifier::external_body]
fn rfc3339_of_millis(ms: i64) -> (r: Option<String>)
    ensures
        r matches Some(t) ==> t@ == rfc3339_text(ms as int),
        0 <= ms <= RFC3339_SAFE_MS ==> r is Some,
{
    match chrono::Utc.timestamp_millis_opt(ms).single() {
        Some(t) => Some(t.to_rfc3339()),
        None => None,
    }
}

/// A reading of both the monotonic and the wall clock, taken together.
#[derive(Clone, Copy, Debug)]
pub struct TimePair {
    clock: std::time::Instant,
    unix_ms: u64,
}

impl TimePair {
    /// The wall clock part, in milliseconds since the Unix epoch.
    pub closed spec fn unix_ms_spec(&self) -> u64 {
        self.unix_ms
    }

    /// The monotonic part.
    pub closed spec fn clock_spec(&self) -> std::time::Instant {
        self.clock
    }

    /// Reads both clocks.
    pub fn now() -> (r: TimePair) {
        let clock = std::time::Instant::now();
        let unix_ms = unix_time_ms();
        TimePair { clock, unix_ms }
    }

    /// The monotonic part.
    pub fn as_ts(&self) -> (r: std::time::Instant)
        ensures
            r == self.clock_spec(),
    {
        self.clock
    }

    /// The wall clock part, in milliseconds since the Unix epoch.
    pub fn unix_ms(&self) -> (r: u64)
        ensures
            r == self.unix_ms_spec(),
    {
        self.unix_ms
    }

    /// The wall clock part as RFC 3339 text; `None` where it lies beyond the
    /// calendar's range.
    pub fn to_rfc3339(&self) -> (r: Option<String>)
        ensures
            r matches Some(t) ==> t@ == rfc3339_text(self.unix_ms_spec() as int),
            self.unix_ms_spec() <= RFC3339_SAFE_MS ==> r is Some,
    {
        if self.unix_ms > i64::MAX as u64 {
            return None;
        }
        rfc3339_of_millis(self.unix_ms as i64)
    }
}

} // verus!
