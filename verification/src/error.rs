//! The closed domain-error taxonomy and the translation of store errors into
//! it.
//!
//! Store errors are translated exactly once, at the manager boundary.  A
//! missing row becomes [`Error::NotFound`]; a violation of the reservations
//! range-overlap exclusion rule becomes [`Error::ConflictReservation`] with
//! its diagnostic parsed best effort; every other store error stays opaque in
//! [`Error::DbError`].

use vstd::prelude::*;
use vstd::string::StringExecFns;

use crate::conflict::{parsed_best_effort, ReservationConflictInfo};

verus! {

/// What the store reports of a database-level failure: the error code, the
/// schema and table of the failing constraint, and the attached diagnostic
/// detail text.
#[derive(Clone, Debug)]
pub struct DatabaseViolation {
    pub code: String,
    pub schema: Option<String>,
    pub table: Option<String>,
    pub detail: String,
}

/// A store error as the manager sees it: no row matched, a database-level
/// failure with its diagnostics, or any other failure preserved as text.
#[derive(Clone, Debug)]
pub enum StoreError {
    RowNotFound,
    Database(DatabaseViolation),
    Other(String),
}

/// The closed error taxonomy callers see.  `ConflictReservation` is the only
/// error with caller-actionable structure; `DbError` is deliberately opaque.
#[derive(Clone, Debug)]
pub enum Error {
    DbError(StoreError),
    ConflictReservation(ReservationConflictInfo),
    NotFound,
    InvalidReservationId(String),
    InvalidTime,
    InvalidUserId(String),
    InvalidResourceId(String),
    Unknown,
}

impl PartialEq for Error {
    fn eq(&self, other: &Error) -> bool {
        match (self, other) {
            (Error::DbError(_), Error::DbError(_)) => true,
            (Error::ConflictReservation(a), Error::ConflictReservation(b)) => *a == *b,
            (Error::InvalidReservationId(x), Error::InvalidReservationId(y)) => *x == *y,
            (Error::InvalidUserId(x), Error::InvalidUserId(y)) => *x == *y,
            (Error::InvalidResourceId(x), Error::InvalidResourceId(y)) => *x == *y,
            (Error::NotFound, Error::NotFound) => true,
            (Error::InvalidTime, Error::InvalidTime) => true,
            (Error::Unknown, Error::Unknown) => true,
            _ => false,
        }
    }
}

impl vstd::std_specs::cmp::PartialEqSpecImpl for Error {
    open spec fn obeys_eq_spec() -> bool {
        true
    }

    /// Two errors are equal by structural value, except that all `DbError`
    /// values compare equal to one another: their payload is opaque, a
    /// deliberate testability relaxation.
    open spec fn eq_spec(&self, other: &Error) -> bool {
        match (self, other) {
            (Error::DbError(_), Error::DbError(_)) => true,
            (Error::ConflictReservation(a), Error::ConflictReservation(b)) => match (a, b) {
                (ReservationConflictInfo::Parsed(x), ReservationConflictInfo::Parsed(y)) => x@
                    == y@,
                (ReservationConflictInfo::Unparsed(x), ReservationConflictInfo::Unparsed(y)) => x@
                    == y@,
                _ => false,
            },
            (Error::InvalidReservationId(x), Error::InvalidReservationId(y)) => x@ == y@,
            (Error::InvalidUserId(x), Error::InvalidUserId(y)) => x@ == y@,
            (Error::InvalidResourceId(x), Error::InvalidResourceId(y)) => x@ == y@,
            (Error::NotFound, Error::NotFound) => true,
            (Error::InvalidTime, Error::InvalidTime) => true,
            (Error::Unknown, Error::Unknown) => true,
            _ => false,
        }
    }
}

/// The database error that signals a violation of the reservations
/// range-overlap exclusion rule: the exclusion-violation code, on the
/// reservations table of the booking schema.
pub open spec fn is_exclusion_violation(d: DatabaseViolation) -> bool {
    d.code@ == "23P01"@ && (d.schema matches Some(s) && s@ == "rsvp"@) && (d.table matches Some(t)
        && t@ == "reservations"@)
}

fn exclusion_check(d: &DatabaseViolation) -> (b: bool)
    ensures
        b == is_exclusion_violation(*d),
{
    let code_ok = d.code == String::from_str("23P01");
    let schema_ok = match &d.schema {
        Some(s) => *s == String::from_str("rsvp"),
        None => false,
    };
    let table_ok = match &d.table {
        Some(t) => *t == String::from_str("reservations"),
        None => false,
    };
    code_ok && schema_ok && table_ok
}

impl Error {
    /// Translates a store error into the domain taxonomy.  Translation never
    /// fails: an unrecognized diagnostic degrades inside the conflict value,
    /// and an unrecognized store error stays opaque.
    pub fn from(e: StoreError) -> (r: Error)
        ensures
            e is RowNotFound ==> r is NotFound,
            e matches StoreError::Database(d) ==> (if is_exclusion_violation(d) {
                r matches Error::ConflictReservation(info) && parsed_best_effort(info, d.detail@)
            } else {
                r matches Error::DbError(x) && x == e
            }),
            e matches StoreError::Other(_) ==> (r matches Error::DbError(x) && x == e),
    {
        match e {
            StoreError::RowNotFound => Error::NotFound,
            StoreError::Database(d) => {
                if exclusion_check(&d) {
                    Error::ConflictReservation(ReservationConflictInfo::from_str(d.detail.as_str()))
                } else {
                    Error::DbError(StoreError::Database(d))
                }
            },
            StoreError::Other(m) => Error::DbError(StoreError::Other(m)),
        }
    }
}

} // verus!
