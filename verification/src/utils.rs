//! Conversions between the wire-facing [`Timestamp`] and the instant type
//! [`DateTimeUtc`].  Both carry seconds since the Unix epoch, so each
//! conversion is exact; an absent timestamp is rejected as an invalid time.

use vstd::prelude::*;

use crate::error::Error;
use crate::timestamp::{DateTimeUtc, Timestamp};

verus! {

/// The instant a wire timestamp denotes; an absent timestamp is an invalid
/// time.
pub fn to_datetime(tm: Option<&Timestamp>) -> (r: Result<DateTimeUtc, Error>)
    ensures
        tm matches Some(t) ==> r matches Ok(d) && d.seconds == t.seconds,
        tm is None ==> r matches Err(Error::InvalidTime),
{
    match tm {
        Some(t) => Ok(DateTimeUtc { seconds: t.seconds }),
        None => Err(Error::InvalidTime),
    }
}

/// The wire timestamp of an offset-bearing instant, normalized to UTC at
/// one-second resolution.  Instants are already UTC seconds in this model,
/// so the conversion is exact.
pub fn to_timestamp(d: DateTimeUtc) -> (r: Timestamp)
    ensures
        r.seconds == d.seconds,
{
    Timestamp { seconds: d.seconds }
}

/// The UTC instant of a wire timestamp.
pub fn convert_to_utc_time(t: &Timestamp) -> (r: DateTimeUtc)
    ensures
        r.seconds == t.seconds,
{
    DateTimeUtc { seconds: t.seconds }
}

/// The wire timestamp of a UTC instant, at one-second resolution.
pub fn convert_to_timestamp(d: DateTimeUtc) -> (r: Timestamp)
    ensures
        r.seconds == d.seconds,
{
    Timestamp { seconds: d.seconds }
}

} // verus!
