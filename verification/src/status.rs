//! The reservation status lifecycle: the legal status values, their numeric
//! codes on the wire, and their lower-case names in the store.

use vstd::prelude::*;
use vstd::string::StringExecFns;

verus! {

/// A reservation's status.  `Unknown` is a sentinel that is never persisted;
/// a new reservation starts `Pending`, the one caller-driven transition is
/// `Pending` to `Confirmed`, and `Blocked` is reachable only out of band.
#[derive(Clone, Copy, Debug, PartialEq, Eq, Structural)]
pub enum ReservationStatus {
    Unknown,
    Pending,
    Confirmed,
    Blocked,
}

/// The numeric code a status carries in the wire-facing `Reservation` value.
pub open spec fn status_code(s: ReservationStatus) -> i32 {
    match s {
        ReservationStatus::Unknown => 0,
        ReservationStatus::Pending => 1,
        ReservationStatus::Confirmed => 2,
        ReservationStatus::Blocked => 3,
    }
}

/// The status a numeric code denotes, if any.
pub open spec fn status_of_code(v: i32) -> Option<ReservationStatus> {
    if v == 0 {
        Some(ReservationStatus::Unknown)
    } else if v == 1 {
        Some(ReservationStatus::Pending)
    } else if v == 2 {
        Some(ReservationStatus::Confirmed)
    } else if v == 3 {
        Some(ReservationStatus::Blocked)
    } else {
        None
    }
}

/// The status a lower-case store name denotes, if any.
pub open spec fn status_of_name(s: Seq<char>) -> Option<ReservationStatus> {
    if s == "pending"@ {
        Some(ReservationStatus::Pending)
    } else if s == "confirmed"@ {
        Some(ReservationStatus::Confirmed)
    } else if s == "blocked"@ {
        Some(ReservationStatus::Blocked)
    } else if s == "unknown"@ {
        Some(ReservationStatus::Unknown)
    } else {
        None
    }
}

impl ReservationStatus {
    /// Decodes a numeric status code.
    pub fn from_i32(v: i32) -> (r: Option<ReservationStatus>)
        ensures
            r == status_of_code(v),
    {
        if v == 0 {
            Some(ReservationStatus::Unknown)
        } else if v == 1 {
            Some(ReservationStatus::Pending)
        } else if v == 2 {
            Some(ReservationStatus::Confirmed)
        } else if v == 3 {
            Some(ReservationStatus::Blocked)
        } else {
            None
        }
    }

    /// Encodes this status as its numeric code.
    pub fn to_i32(self) -> (r: i32)
        ensures
            r == status_code(self),
    {
        match self {
            ReservationStatus::Unknown => 0,
            ReservationStatus::Pending => 1,
            ReservationStatus::Confirmed => 2,
            ReservationStatus::Blocked => 3,
        }
    }

    /// The status a lower-case store name denotes, if any: the inverse of
    /// [`ReservationStatus::name`].
    pub fn from_name(s: &str) -> (r: Option<ReservationStatus>)
        ensures
            r == status_of_name(s@),
    {
        let t: String = s.to_owned();
        if t == String::from_str("pending") {
            Some(ReservationStatus::Pending)
        } else if t == String::from_str("confirmed") {
            Some(ReservationStatus::Confirmed)
        } else if t == String::from_str("blocked") {
            Some(ReservationStatus::Blocked)
        } else if t == String::from_str("unknown") {
            Some(ReservationStatus::Unknown)
        } else {
            None
        }
    }

    /// The lower-case name under which the store knows this status.
    pub fn name(self) -> (r: String)
        ensures
            self is Unknown ==> r@ == "unknown"@,
            self is Pending ==> r@ == "pending"@,
            self is Confirmed ==> r@ == "confirmed"@,
            self is Blocked ==> r@ == "blocked"@,
    {
        match self {
            ReservationStatus::Unknown => String::from_str("unknown"),
            ReservationStatus::Pending => String::from_str("pending"),
            ReservationStatus::Confirmed => String::from_str("confirmed"),
            ReservationStatus::Blocked => String::from_str("blocked"),
        }
    }
}

} // verus!
