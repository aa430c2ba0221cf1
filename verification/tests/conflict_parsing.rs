//! The conflict-diagnostic parser, held to fixed literal diagnostics.

use reservation::conflict::{ParseInfo, ReservationConflictInfo, ReservationWindow};

const ERR_MSG: &str = "Key (resource_id, timespan)=(ocean-view-room-713, [\"2022-12-26 22:00:00+00\",\"2022-12-30 19:00:00+00\")) conflicts with existing key (resource_id, timespan)=(ocean-view-room-713, [\"2022-12-25 22:00:00+00\",\"2022-12-28 19:00:00+00\")).";

fn rfc3339_seconds(s: &str) -> i64 {
    s.parse::<chrono::DateTime<chrono::FixedOffset>>().unwrap().timestamp()
}

#[test]
fn convert_parse_into_should_work() {
    let p = ParseInfo::from_str(ERR_MSG).unwrap();
    let new = p.new.get("resource_id").unwrap();
    let old = p.old.get("resource_id").unwrap();
    assert_eq!(new, "ocean-view-room-713");
    assert_eq!(old, "ocean-view-room-713");
}

#[test]
fn parse_date_should_work() {
    let s = reservation::conflict::parse_date("2022-12-26 22:00:00+00").unwrap();
    assert_eq!(s.seconds, rfc3339_seconds("2022-12-26T22:00:00+00:00"));
    let s = reservation::conflict::parse_date("2022-12-26 15:00:00-0700").unwrap();
    assert_eq!(s.seconds, rfc3339_seconds("2022-12-26T22:00:00+00:00"));
    let s: chrono::DateTime<chrono::Utc> = "2022-12-26T15:00:00-0700".parse().unwrap();
    assert_eq!(s.timestamp(), rfc3339_seconds("2022-12-26T22:00:00+00:00"));
}

#[test]
fn conflict_error_message_should_parse() {
    let info = ReservationConflictInfo::from_str(ERR_MSG);
    match info {
        ReservationConflictInfo::Parsed(conflict) => {
            assert_eq!(conflict.new.rid, "ocean-view-room-713");
            assert_eq!(conflict.new.start.seconds, rfc3339_seconds("2022-12-26T22:00:00+00:00"));
            assert_eq!(conflict.new.end.seconds, rfc3339_seconds("2022-12-30T19:00:00+00:00"));
            assert_eq!(conflict.old.rid, "ocean-view-room-713");
            assert_eq!(conflict.old.start.seconds, rfc3339_seconds("2022-12-25T22:00:00+00:00"));
            assert_eq!(conflict.old.end.seconds, rfc3339_seconds("2022-12-28T19:00:00+00:00"));
        }
        ReservationConflictInfo::Unparsed(_) => panic!("should be parsed"),
    }
}

#[test]
fn parse_date_matches_known_epoch_values() {
    assert_eq!(
        reservation::conflict::parse_date("2022-12-26 22:00:00+00").unwrap().seconds,
        1672092000
    );
    assert_eq!(
        reservation::conflict::parse_date("2022-12-26 23:00:00+01").unwrap().seconds,
        1672092000
    );
}

#[test]
fn parse_date_rejects_other_formats() {
    assert!(reservation::conflict::parse_date("2022-12-26T22:00:00+00").is_none());
    assert!(reservation::conflict::parse_date("not a date").is_none());
    assert!(reservation::conflict::parse_date("").is_none());
}

#[test]
fn unmatched_diagnostic_degrades_to_unparsed() {
    let raw = "duplicate key value violates unique constraint \"reservations_pkey\"";
    match ReservationConflictInfo::from_str(raw) {
        ReservationConflictInfo::Unparsed(text) => assert_eq!(text, raw),
        ReservationConflictInfo::Parsed(_) => panic!("should stay unparsed"),
    }
}

#[test]
fn single_clause_diagnostic_degrades_to_unparsed() {
    let raw = "Key (resource_id, timespan)=(room-1, [\"2022-12-26 22:00:00+00\",\"2022-12-30 19:00:00+00\"))";
    assert!(matches!(
        ReservationConflictInfo::from_str(raw),
        ReservationConflictInfo::Unparsed(_)
    ));
}

#[test]
fn bad_timestamps_degrade_to_unparsed() {
    let raw = "Key (resource_id, timespan)=(a, [\"x\",\"y\")) conflicts with existing key (resource_id, timespan)=(b, [\"x\",\"y\")).";
    assert!(matches!(
        ReservationConflictInfo::from_str(raw),
        ReservationConflictInfo::Unparsed(_)
    ));
}

#[test]
fn foreign_keys_degrade_to_unparsed() {
    let raw = "Key (room, timespan)=(a, [\"2022-12-26 22:00:00+00\",\"2022-12-30 19:00:00+00\")) conflicts with existing key (room, timespan)=(b, [\"2022-12-25 22:00:00+00\",\"2022-12-28 19:00:00+00\")).";
    assert!(matches!(
        ReservationConflictInfo::from_str(raw),
        ReservationConflictInfo::Unparsed(_)
    ));
}

#[test]
fn window_equality_is_structural() {
    let a = ReservationWindow {
        rid: "r".to_string(),
        start: reservation::timestamp::DateTimeUtc { seconds: 1 },
        end: reservation::timestamp::DateTimeUtc { seconds: 2 },
    };
    let b = ReservationWindow {
        rid: "r".to_string(),
        start: reservation::timestamp::DateTimeUtc { seconds: 1 },
        end: reservation::timestamp::DateTimeUtc { seconds: 2 },
    };
    let c = ReservationWindow {
        rid: "other".to_string(),
        start: reservation::timestamp::DateTimeUtc { seconds: 1 },
        end: reservation::timestamp::DateTimeUtc { seconds: 2 },
    };
    assert_eq!(a, b);
    assert!(a != c);
}

#[test]
fn whitespace_around_commas_is_accepted() {
    let raw = "Key (resource_id , timespan)=(r1 , [\"2022-12-26 22:00:00+00\",\"2022-12-30 19:00:00+00\")) conflicts with existing key (resource_id,timespan)=(r1, [\"2022-12-25 22:00:00+00\",\"2022-12-28 19:00:00+00\")).";
    match ReservationConflictInfo::from_str(raw) {
        ReservationConflictInfo::Parsed(c) => {
            assert_eq!(c.new.rid, "r1");
            assert_eq!(c.old.rid, "r1");
            assert_eq!(c.new.start.seconds, 1672092000);
            assert_eq!(c.old.end.seconds, 1672254000);
        }
        ReservationConflictInfo::Unparsed(_) => panic!("should be parsed"),
    }
}

#[test]
fn swapped_keys_degrade_to_unparsed() {
    let raw = "Key (timespan, resource_id)=(\"2022-12-26 22:00:00+00\", [r1)) conflicts with existing key (timespan, resource_id)=(\"2022-12-25 22:00:00+00\", [r1)).";
    assert!(matches!(
        ReservationConflictInfo::from_str(raw),
        ReservationConflictInfo::Unparsed(_)
    ));
}
