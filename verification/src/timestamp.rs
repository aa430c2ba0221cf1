//! The temporal model.  Every instant the library reasons about is a count of
//! seconds since the Unix epoch, at one-second resolution; time zones are
//! normalized away before a value enters the model.

use vstd::prelude::*;

verus! {

/// A wire-facing point in time: seconds since the Unix epoch.
#[derive(Clone, Copy, Debug, PartialEq, Eq, Structural)]
pub struct Timestamp {
    pub seconds: i64,
}

/// An instant in civil time, already normalized to UTC, at one-second
/// resolution.
#[derive(Clone, Copy, Debug, PartialEq, Eq, Structural)]
pub struct DateTimeUtc {
    pub seconds: i64,
}

/// A half-open time window `[start, end)`.
#[derive(Clone, Copy, Debug, PartialEq, Eq, Structural)]
pub struct TimeSpan {
    pub start: DateTimeUtc,
    pub end: DateTimeUtc,
}

/// Two half-open windows `[s1, e1)` and `[s2, e2)` share at least one instant.
pub open spec fn spans_overlap(s1: i64, e1: i64, s2: i64, e2: i64) -> bool {
    s1 < e2 && s2 < e1
}

} // verus!
