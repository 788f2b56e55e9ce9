//! Time values used throughout the library.
//!
//! Instants are UTC timestamps counted in milliseconds since the Unix epoch
//! (`i64`); spans of time are [`Duration`] values with millisecond resolution.

use vstd::prelude::*;

verus! {

/// Largest timestamp (milliseconds since the Unix epoch) that a UTC date-time can
/// hold: the last millisecond of year 262142.
pub const MAX_TIMESTAMP_MS: i64 = 8_210_266_876_799_999i64;

/// Smallest timestamp (milliseconds since the Unix epoch) that a UTC date-time can
/// hold: the first millisecond of year -262143.
pub const MIN_TIMESTAMP_MS: i64 = -8_334_601_315_200_000i64;

/// Largest span, in milliseconds, that a signed time delta can hold.
pub const MAX_DELTA_MS: u64 = 9_223_372_036_854_775_807u64;

/// A span of time with millisecond resolution.
#[derive(Debug, Clone, Copy, PartialEq, Eq, PartialOrd, Ord, Hash, Structural)]
pub struct Duration {
    pub millis: u64,
}

impl Duration {
    /// The length of this span in milliseconds.
    pub open spec fn ms(self) -> nat {
        self.millis as nat
    }

    /// The empty span.
    pub fn zero() -> (d: Duration)
        ensures
            d.ms() == 0,
    {
        Duration { millis: 0 }
    }

    /// A span of `secs` whole seconds.
    pub fn from_secs(secs: u64) -> (d: Duration)
        requires
            secs * 1000 <= u64::MAX,
        ensures
            d.ms() == secs * 1000,
    {
        Duration { millis: secs * 1000 }
    }

    /// A span of `millis` milliseconds.
    pub fn from_millis(millis: u64) -> (d: Duration)
        ensures
            d.ms() == millis,
    {
        Duration { millis }
    }

    /// The number of whole seconds in this span.
    pub fn as_secs(&self) -> (s: u64)
        ensures
            s == self.ms() / 1000,
    {
        self.millis / 1000
    }

    /// The number of milliseconds in this span.
    pub fn as_millis(&self) -> (m: u64)
        ensures
            m == self.ms(),
    {
        self.millis
    }

    /// Whether this span is empty.
    pub fn is_zero(&self) -> (b: bool)
        ensures
            b == (self.ms() == 0),
    {
        self.millis == 0
    }
}

/// The signed milliseconds that a span becomes when turned into a time delta, or
/// `None` when it is longer than a delta can hold.
pub open spec fn spec_delta_ms(d: Duration) -> Option<int> {
    if d.ms() <= MAX_DELTA_MS {
        Some(d.ms() as int)
    } else {
        None
    }
}

/// Turns a span into signed milliseconds, or `None` when it is longer than a time
/// delta can hold.
pub fn delta_ms(d: Duration) -> (r: Option<i64>)
    ensures
        r matches Some(v) ==> spec_delta_ms(d) == Some(v as int),
        r is None ==> spec_delta_ms(d) is None,
{
    if d.millis <= MAX_DELTA_MS {
        Some(d.millis as i64)
    } else {
        None
    }
}

/// The delta a span becomes when an unrepresentable span counts as zero.
pub open spec fn spec_delta_or_zero(d: Duration) -> int {
    match spec_delta_ms(d) {
        Some(v) => v,
        None => 0,
    }
}

/// Turns a span into signed milliseconds, counting an unrepresentable span as zero.
pub fn delta_or_zero(d: Duration) -> (r: i64)
    ensures
        r as int == spec_delta_or_zero(d),
        r >= 0,
{
    match delta_ms(d) {
        Some(v) => v,
        None => 0,
    }
}

/// Reads the system clock.
///
/// Calls `chrono::Utc::now` and returns its milliseconds since the Unix epoch.
/// The clock can return any instant; what is claimed is only that it lies within
/// what a UTC date-time can hold and not before the epoch (`Utc::now` panics
/// before the epoch, and builds its value with `DateTime::from_timestamp`, which
/// stays in range).
#[verifier::external_body]
pub(crate) fn now_millis() -> (t: i64)
    ensures
        0 <= t <= MAX_TIMESTAMP_MS,
{
    chrono::Utc::now().timestamp_millis()
}

} // verus!
