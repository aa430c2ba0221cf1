//! The reservation data model and its validation.

use vstd::prelude::*;
use vstd::string::*;

use crate::error::Error;
use crate::status::{status_code, ReservationStatus};
use crate::timestamp::{DateTimeUtc, TimeSpan, Timestamp};
use crate::utils::to_timestamp;

verus! {

/// A reservation of an exclusive time window against a named resource.  The
/// id is an opaque string, empty until the store assigns one; the status
/// carries a numeric code (see [`crate::status`]).
#[derive(Clone, Debug, PartialEq)]
pub struct Reservation {
    pub id: String,
    pub user_id: String,
    pub resource_id: String,
    pub start_time: Option<Timestamp>,
    pub end_time: Option<Timestamp>,
    pub note: String,
    pub status: i32,
}

/// A reservation as mathematical values.
pub ghost struct ReservationModel {
    pub id: Seq<char>,
    pub user_id: Seq<char>,
    pub resource_id: Seq<char>,
    pub start_time: Option<i64>,
    pub end_time: Option<i64>,
    pub note: Seq<char>,
    pub status: i32,
}

impl View for Reservation {
    type V = ReservationModel;

    open spec fn view(&self) -> ReservationModel {
        ReservationModel {
            id: self.id@,
            user_id: self.user_id@,
            resource_id: self.resource_id@,
            start_time: match self.start_time {
                Some(t) => Some(t.seconds),
                None => None,
            },
            end_time: match self.end_time {
                Some(t) => Some(t.seconds),
                None => None,
            },
            note: self.note@,
            status: self.status,
        }
    }
}

/// Both time bounds are present and ordered: start strictly before end.
pub open spec fn valid_window(r: ReservationModel) -> bool {
    match (r.start_time, r.end_time) {
        (Some(s), Some(e)) => s < e,
        _ => false,
    }
}

/// A reservation the validator accepts: a user, a resource, and a
/// well-formed window.
pub open spec fn valid_reservation(r: ReservationModel) -> bool {
    r.user_id.len() > 0 && r.resource_id.len() > 0 && valid_window(r)
}

impl Reservation {
    /// A fresh, not yet persisted reservation: empty id, `Pending` status,
    /// and the given window at one-second resolution.
    pub fn new_pending(uid: &str, rid: &str, start: DateTimeUtc, end: DateTimeUtc, note: &str) -> (r:
        Reservation)
        ensures
            r@.id == Seq::<char>::empty(),
            r@.user_id == uid@,
            r@.resource_id == rid@,
            r@.start_time == Some(start.seconds),
            r@.end_time == Some(end.seconds),
            r@.note == note@,
            r@.status == status_code(ReservationStatus::Pending),
    {
        Reservation {
            id: String::new(),
            user_id: uid.to_owned(),
            resource_id: rid.to_owned(),
            start_time: Some(to_timestamp(start)),
            end_time: Some(to_timestamp(end)),
            note: note.to_owned(),
            status: ReservationStatus::Pending.to_i32(),
        }
    }

    /// The half-open window `[start, end)` this reservation claims.
    pub fn get_timespan(&self) -> (r: TimeSpan)
        requires
            self@.start_time is Some,
            self@.end_time is Some,
        ensures
            Some(r.start.seconds) == self@.start_time,
            Some(r.end.seconds) == self@.end_time,
    {
        let s = self.start_time.unwrap();
        let e = self.end_time.unwrap();
        TimeSpan { start: DateTimeUtc { seconds: s.seconds }, end: DateTimeUtc { seconds: e.seconds } }
    }

    /// Checks identifiers and time bounds, before any store work: the user
    /// id must be non-empty, then the resource id must be non-empty, then
    /// both time bounds must be present with start strictly before end.
    pub fn validate(&self) -> (r: Result<(), Error>)
        ensures
            r is Ok <==> valid_reservation(self@),
            self@.user_id.len() == 0 ==> (r matches Err(Error::InvalidUserId(m)) && m@
                == Seq::<char>::empty()),
            self@.user_id.len() > 0 && self@.resource_id.len() == 0 ==> (r matches Err(
                Error::InvalidResourceId(m),
            ) && m@ == Seq::<char>::empty()),
            self@.user_id.len() > 0 && self@.resource_id.len() > 0 && !valid_window(self@)
                ==> r matches Err(Error::InvalidTime),
    {
        if self.user_id.as_str().is_empty() {
            return Err(Error::InvalidUserId(String::new()));
        }
        if self.resource_id.as_str().is_empty() {
            return Err(Error::InvalidResourceId(String::new()));
        }
        match (&self.start_time, &self.end_time) {
            (Some(s), Some(e)) => {
                if s.seconds < e.seconds {
                    Ok(())
                } else {
                    Err(Error::InvalidTime)
                }
            },
            _ => Err(Error::InvalidTime),
        }
    }
}

} // verus!
