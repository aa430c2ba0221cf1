//! The data model, the validator, identifiers, and error translation.

use reservation::conflict::ReservationConflictInfo;
use reservation::error::{DatabaseViolation, Error, StoreError};
use reservation::ids::{dec_string, parse_id};
use reservation::reservation::Reservation;
use reservation::status::ReservationStatus;
use reservation::timestamp::{DateTimeUtc, Timestamp};
use reservation::utils::{convert_to_timestamp, convert_to_utc_time, to_datetime, to_timestamp};

fn valid_reservation() -> Reservation {
    Reservation::new_pending(
        "alice",
        "room-1",
        DateTimeUtc { seconds: 1000 },
        DateTimeUtc { seconds: 2000 },
        "note",
    )
}

#[test]
fn validate_accepts_valid_reservation() {
    assert!(valid_reservation().validate().is_ok());
}

#[test]
fn validate_rejects_empty_user_id() {
    let mut r = valid_reservation();
    r.user_id = String::new();
    assert_eq!(r.validate().unwrap_err(), Error::InvalidUserId(String::new()));
}

#[test]
fn validate_checks_user_before_resource() {
    let mut r = valid_reservation();
    r.user_id = String::new();
    r.resource_id = String::new();
    assert_eq!(r.validate().unwrap_err(), Error::InvalidUserId(String::new()));
}

#[test]
fn validate_rejects_empty_resource_id() {
    let mut r = valid_reservation();
    r.resource_id = String::new();
    assert_eq!(r.validate().unwrap_err(), Error::InvalidResourceId(String::new()));
}

#[test]
fn validate_rejects_missing_or_disordered_times() {
    let mut r = valid_reservation();
    r.start_time = None;
    assert_eq!(r.validate().unwrap_err(), Error::InvalidTime);

    let mut r = valid_reservation();
    r.end_time = None;
    assert_eq!(r.validate().unwrap_err(), Error::InvalidTime);

    let mut r = valid_reservation();
    r.start_time = Some(Timestamp { seconds: 2000 });
    r.end_time = Some(Timestamp { seconds: 2000 });
    assert_eq!(r.validate().unwrap_err(), Error::InvalidTime);

    let mut r = valid_reservation();
    r.start_time = Some(Timestamp { seconds: 3000 });
    r.end_time = Some(Timestamp { seconds: 2000 });
    assert_eq!(r.validate().unwrap_err(), Error::InvalidTime);
}

#[test]
fn status_codes_round_trip() {
    for status in [
        ReservationStatus::Unknown,
        ReservationStatus::Pending,
        ReservationStatus::Confirmed,
        ReservationStatus::Blocked,
    ] {
        assert_eq!(ReservationStatus::from_i32(status.to_i32()), Some(status));
    }
    assert_eq!(ReservationStatus::from_i32(42), None);
    for status in [
        ReservationStatus::Unknown,
        ReservationStatus::Pending,
        ReservationStatus::Confirmed,
        ReservationStatus::Blocked,
    ] {
        assert_eq!(ReservationStatus::from_name(&status.name()), Some(status));
    }
    assert_eq!(ReservationStatus::from_name("cancelled"), None);
    assert_eq!(ReservationStatus::Pending.name(), "pending");
    assert_eq!(ReservationStatus::Confirmed.name(), "confirmed");
    assert_eq!(ReservationStatus::Blocked.name(), "blocked");
    assert_eq!(ReservationStatus::Unknown.name(), "unknown");
}

#[test]
fn timestamp_conversions_are_exact() {
    let t = Timestamp { seconds: 123456 };
    let d = to_datetime(Some(&t)).unwrap();
    assert_eq!(d.seconds, 123456);
    assert_eq!(to_datetime(None).unwrap_err(), Error::InvalidTime);
    assert_eq!(to_timestamp(d).seconds, 123456);
    assert_eq!(convert_to_utc_time(&t).seconds, 123456);
    assert_eq!(convert_to_timestamp(d).seconds, 123456);
}

#[test]
fn ids_round_trip_and_reject_malformed() {
    for n in [0u64, 1, 9, 10, 42, 1121, u64::MAX] {
        let s = dec_string(n);
        assert_eq!(parse_id(&s).unwrap(), n);
    }
    assert_eq!(dec_string(1121), "1121");
    for bad in ["", "01", "-1", "1x", "x", " 1", "18446744073709551616"] {
        assert_eq!(
            parse_id(bad).unwrap_err(),
            Error::InvalidReservationId(bad.to_string())
        );
    }
    assert_eq!(parse_id("18446744073709551615").unwrap(), u64::MAX);
}

#[test]
fn row_not_found_translates_to_not_found() {
    assert_eq!(Error::from(StoreError::RowNotFound), Error::NotFound);
}

#[test]
fn exclusion_violation_translates_to_parsed_conflict() {
    let detail = "Key (resource_id, timespan)=(ocean-view-room-713, [\"2022-12-26 22:00:00+00\",\"2022-12-30 19:00:00+00\")) conflicts with existing key (resource_id, timespan)=(ocean-view-room-713, [\"2022-12-25 22:00:00+00\",\"2022-12-28 19:00:00+00\")).";
    let e = StoreError::Database(DatabaseViolation {
        code: "23P01".to_string(),
        schema: Some("rsvp".to_string()),
        table: Some("reservations".to_string()),
        detail: detail.to_string(),
    });
    match Error::from(e) {
        Error::ConflictReservation(ReservationConflictInfo::Parsed(c)) => {
            assert_eq!(c.new.rid, "ocean-view-room-713");
        }
        other => panic!("expected a parsed conflict, got {:?}", other),
    }
}

#[test]
fn other_database_errors_stay_opaque() {
    let e = StoreError::Database(DatabaseViolation {
        code: "23505".to_string(),
        schema: Some("rsvp".to_string()),
        table: Some("reservations".to_string()),
        detail: "duplicate key".to_string(),
    });
    assert!(matches!(Error::from(e), Error::DbError(_)));
    assert!(matches!(
        Error::from(StoreError::Other("connection reset".to_string())),
        Error::DbError(_)
    ));
}

#[test]
fn db_errors_compare_equal_to_each_other() {
    let a = Error::DbError(StoreError::Other("one".to_string()));
    let b = Error::DbError(StoreError::RowNotFound);
    assert_eq!(a, b);
    assert!(a != Error::NotFound);
    assert_eq!(
        Error::InvalidUserId("u".to_string()),
        Error::InvalidUserId("u".to_string())
    );
    assert!(Error::InvalidUserId("u".to_string()) != Error::InvalidUserId("v".to_string()));
    assert_eq!(Error::Unknown, Error::Unknown);
}

#[test]
fn new_pending_normalizes_to_utc_seconds() {
    let start = "2022-12-26T15:00:00-0700"
        .parse::<chrono::DateTime<chrono::FixedOffset>>()
        .unwrap();
    let r = Reservation::new_pending(
        "u",
        "r",
        DateTimeUtc { seconds: start.timestamp() },
        DateTimeUtc { seconds: start.timestamp() + 3600 },
        "",
    );
    let expected = "2022-12-26T22:00:00+00:00"
        .parse::<chrono::DateTime<chrono::FixedOffset>>()
        .unwrap()
        .timestamp();
    assert_eq!(r.start_time, Some(Timestamp { seconds: expected }));
    assert_eq!(r.end_time, Some(Timestamp { seconds: expected + 3600 }));
    assert_eq!(r.status, ReservationStatus::Pending.to_i32());
    assert_eq!(r.id, "");
}

#[test]
fn get_timespan_returns_the_window() {
    let r = valid_reservation();
    let span = r.get_timespan();
    assert_eq!(span.start.seconds, 1000);
    assert_eq!(span.end.seconds, 2000);
}
