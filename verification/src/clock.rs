//! Points in time, in coordinated universal time.
use vstd::prelude::*;

verus! {

/// The first second that the calendar knows, counted from the start of 1970.
pub const FIRST_SECOND: i64 = -8_334_601_228_800;

/// The last second that the calendar knows, counted from the start of 1970.
pub const LAST_SECOND: i64 = 8_210_266_876_799;

/// A point in time: whole seconds since the start of 1970, and nanoseconds within the second.
#[derive(Debug, Clone, Copy, PartialEq, Eq, Structural)]
pub struct UtcTime {
    pub secs: i64,
    pub nanos: u32,
}

impl UtcTime {
    /// Whether the calendar knows this time.
    pub open spec fn wf(self) -> bool {
        FIRST_SECOND <= self.secs <= LAST_SECOND && self.nanos < 1_000_000_000
    }

    /// Nanoseconds since the start of 1970.
    pub open spec fn timestamp_nanos(self) -> int {
        self.secs * 1_000_000_000 + self.nanos
    }

    /// Microseconds since the start of 1970.
    pub open spec fn timestamp_micros(self) -> int {
        self.secs * 1_000_000 + self.nanos / 1_000
    }

    /// The time `seconds` later.
    pub open spec fn plus(self, seconds: int) -> UtcTime {
        UtcTime { secs: (self.secs + seconds) as i64, nanos: self.nanos }
    }

    /// Whether this time comes after `other`.
    pub fn is_after(&self, other: &UtcTime) -> (r: bool)
        requires
            self.nanos < 1_000_000_000,
            other.nanos < 1_000_000_000,
        ensures
            r == (self.timestamp_nanos() > other.timestamp_nanos()),
    {
        self.secs > other.secs || (self.secs == other.secs && self.nanos > other.nanos)
    }
}

/// The RFC 3339 text of the time `nanos` nanoseconds after second `secs`.
pub uninterp spec fn rfc3339_text(secs: i64, nanos: u32) -> Seq<char>;

/// Reads the clock with `chrono::Utc::now`. The time is one that the calendar knows and not
/// before the start of 1970; which it is depends on the machine.
#[verifier::external_body]
pub(crate) fn utc_now() -> (r: UtcTime)
    ensures
        r.wf(),
        r.secs >= 0,
{
    let now = chrono::Utc::now();
    UtcTime { secs: now.timestamp(), nanos: now.timestamp_subsec_nanos() }
}

/// Writes a time with `chrono::DateTime::to_rfc3339`. The text depends on the time alone.
#[verifier::external_body]
pub(crate) fn to_rfc3339(at: UtcTime) -> (r: String)
    requires
        at.wf(),
    ensures
        r@ == rfc3339_text(at.secs, at.nanos),
{
    chrono::DateTime::from_timestamp(at.secs, at.nanos).unwrap().to_rfc3339()
}

} // verus!
