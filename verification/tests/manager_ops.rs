//! The manager's create/read/update/delete/query contract over the
//! reference store.

use reservation::error::Error;
use reservation::manager::{ReservationManager, ReservationQueryBuilder, TimeComparison};
use reservation::reservation::Reservation;
use reservation::status::ReservationStatus;
use reservation::timestamp::{DateTimeUtc, Timestamp};

fn dt(s: &str) -> DateTimeUtc {
    DateTimeUtc { seconds: s.parse::<chrono::DateTime<chrono::FixedOffset>>().unwrap().timestamp() }
}

fn ts(s: &str) -> Timestamp {
    Timestamp { seconds: s.parse::<chrono::DateTime<chrono::FixedOffset>>().unwrap().timestamp() }
}

fn make_reservation(
    manager: &mut ReservationManager,
    uid: &str,
    rid: &str,
    start: &str,
    end: &str,
    note: &str,
) -> Reservation {
    let rsvp = Reservation::new_pending(uid, rid, dt(start), dt(end), note);
    manager.reserve(rsvp).unwrap()
}

fn make_tyr_reservation(manager: &mut ReservationManager) -> Reservation {
    make_reservation(
        manager,
        "tyrId",
        "1021",
        "2022-12-25T15:00:00-0700",
        "2022-12-28T12:00:00-0700",
        "hahaha...",
    )
}

fn make_alice_reservation(manager: &mut ReservationManager) -> Reservation {
    make_reservation(
        manager,
        "aliceId",
        "1021",
        "2023-01-25T15:00:00-0700",
        "2023-02-25T12:00:00-0700",
        "hello...",
    )
}

#[test]
fn reserve_should_work_for_valid_window() {
    let mut manager = ReservationManager::new();
    let start = dt("2022-12-25T15:00:00-0700");
    let end = dt("2022-12-28T12:00:00-0700");
    let rsvp = Reservation::new_pending("tyrid", "1121", start, end, "......");
    let res = manager.reserve(rsvp);
    assert!(res.is_ok());
}

#[test]
fn reserve_conflict_reservation_should_reject() {
    let mut manager = ReservationManager::new();
    let rsvp1 = Reservation::new_pending(
        "tyrid",
        "1121",
        dt("2022-12-25T15:00:00-0700"),
        dt("2022-12-28T12:00:00-0700"),
        "hello",
    );
    let rsvp2 = Reservation::new_pending(
        "aliceid",
        "1121",
        dt("2022-12-26T15:00:00-0700"),
        dt("2022-12-30T12:00:00-0700"),
        "world",
    );

    let _rsvp1 = manager.reserve(rsvp1).unwrap();
    let err = manager.reserve(rsvp2).unwrap_err();

    match err {
        Error::ConflictReservation(reservation::conflict::ReservationConflictInfo::Parsed(
            conflict,
        )) => {
            assert_eq!(conflict.new.rid, "1121");
            assert_eq!(conflict.new.start, dt("2022-12-26T15:00:00-0700"));
            assert_eq!(conflict.new.end, dt("2022-12-30T12:00:00-0700"));
            assert_eq!(conflict.old.rid, "1121");
            assert_eq!(conflict.old.start, dt("2022-12-25T15:00:00-0700"));
            assert_eq!(conflict.old.end, dt("2022-12-28T12:00:00-0700"));
        }
        other => panic!("expected a parsed conflict, got {:?}", other),
    }
}

#[test]
fn reserve_change_status_should_work() {
    let mut manager = ReservationManager::new();
    let rsvp = Reservation::new_pending(
        "aliceId",
        "1021",
        dt("2023-01-25T15:00:00-0700"),
        dt("2023-02-25T12:00:00-0700"),
        "hello...",
    );
    let rsvp = manager.reserve(rsvp).unwrap();

    let res = manager.change_status(rsvp.id).unwrap();

    assert_eq!(res.status, ReservationStatus::Confirmed.to_i32());
}

#[test]
fn reserve_change_status_not_pending_should_do_nothings() {
    let mut manager = ReservationManager::new();
    let rsvp = Reservation::new_pending(
        "aliceId",
        "1021",
        dt("2023-01-25T15:00:00-0700"),
        dt("2023-02-25T12:00:00-0700"),
        "hello...",
    );
    let rsvp = manager.reserve(rsvp).unwrap();

    let rsvp = manager.change_status(rsvp.id).unwrap();

    assert_eq!(rsvp.status, ReservationStatus::Confirmed.to_i32());

    let ret = manager.change_status(rsvp.id).unwrap_err();

    assert_eq!(ret, Error::NotFound);
}

#[test]
fn update_note_should_work() {
    let mut manager = ReservationManager::new();
    let rsvp = make_alice_reservation(&mut manager);

    let rsvp = manager.update_note(rsvp.id, "world.".to_string()).unwrap();

    assert_eq!(rsvp.note, "world.");
}

#[test]
fn get_reservation_should_work() {
    let mut manager = ReservationManager::new();
    let rsvp = make_tyr_reservation(&mut manager);

    let res = manager.get(rsvp.id).unwrap();

    assert_eq!(res.user_id, rsvp.user_id);
}

#[test]
fn dalete_reservation_should_work() {
    let mut manager = ReservationManager::new();
    let rsvp = make_tyr_reservation(&mut manager);

    manager.delete(rsvp.id.clone()).unwrap();
    let err = manager.get(rsvp.id).unwrap_err();
    assert_eq!(err, Error::NotFound);
}

#[test]
fn query_reservation_should_work() {
    let mut manager = ReservationManager::new();
    let rsvp = make_tyr_reservation(&mut manager);

    let query = ReservationQueryBuilder::default()
        .user_id("tyrId")
        .resource_id("1021")
        .start(ts("2022-12-25T15:00:00-0700"))
        .end(ts("2022-12-28T12:00:00-0700"))
        .status(ReservationStatus::Pending)
        .build()
        .unwrap();

    let rsvps = manager.query(query).unwrap();

    assert_eq!(rsvps.len(), 1);
    assert_eq!(rsvps[0], rsvp);

    let query = ReservationQueryBuilder::default()
        .user_id("tyrId")
        .resource_id("1021")
        .start(ts("2023-01-25T15:00:00-0700"))
        .end(ts("2023-02-28T12:00:00-0700"))
        .status(ReservationStatus::Pending)
        .build()
        .unwrap();

    let rsvps1 = manager.query(query).unwrap();

    assert!(rsvps1.is_empty());

    let _rsvp = manager.change_status(rsvps[0].id.clone()).unwrap();

    let query = ReservationQueryBuilder::default()
        .user_id("tyrId")
        .resource_id("1021")
        .start(ts("2022-12-25T15:00:00-0700"))
        .end(ts("2022-12-28T12:00:00-0700"))
        .status(ReservationStatus::Pending)
        .build()
        .unwrap();

    let rsvps1 = manager.query(query).unwrap();

    assert!(rsvps1.is_empty());
}

#[test]
fn reserved_id_is_nonempty_and_status_pending() {
    let mut manager = ReservationManager::new();
    let rsvp = Reservation::new_pending("u", "r", dt("2023-01-01T00:00:00+00:00"), dt("2023-01-02T00:00:00+00:00"), "");
    assert_eq!(rsvp.id, "");
    let res = manager.reserve(rsvp).unwrap();
    assert!(!res.id.is_empty());
    assert_eq!(res.status, ReservationStatus::Pending.to_i32());
}

#[test]
fn overlapping_reserves_exactly_one_succeeds() {
    let mut manager = ReservationManager::new();
    let r1 = Reservation::new_pending("u1", "room", dt("2023-01-01T00:00:00+00:00"), dt("2023-01-10T00:00:00+00:00"), "");
    let r2 = Reservation::new_pending("u2", "room", dt("2023-01-05T00:00:00+00:00"), dt("2023-01-15T00:00:00+00:00"), "");
    let first = manager.reserve(r1);
    let second = manager.reserve(r2);
    assert!(first.is_ok());
    match second.unwrap_err() {
        Error::ConflictReservation(reservation::conflict::ReservationConflictInfo::Parsed(c)) => {
            assert_eq!(c.new.rid, "room");
            assert_eq!(c.old.rid, "room");
        }
        other => panic!("expected a parsed conflict, got {:?}", other),
    }
}

#[test]
fn touching_windows_do_not_conflict() {
    let mut manager = ReservationManager::new();
    let r1 = Reservation::new_pending("u1", "room", dt("2023-01-01T00:00:00+00:00"), dt("2023-01-10T00:00:00+00:00"), "");
    let r2 = Reservation::new_pending("u2", "room", dt("2023-01-10T00:00:00+00:00"), dt("2023-01-15T00:00:00+00:00"), "");
    assert!(manager.reserve(r1).is_ok());
    assert!(manager.reserve(r2).is_ok());
}

#[test]
fn same_window_other_resource_does_not_conflict() {
    let mut manager = ReservationManager::new();
    let r1 = Reservation::new_pending("u1", "room-a", dt("2023-01-01T00:00:00+00:00"), dt("2023-01-10T00:00:00+00:00"), "");
    let r2 = Reservation::new_pending("u2", "room-b", dt("2023-01-01T00:00:00+00:00"), dt("2023-01-10T00:00:00+00:00"), "");
    assert!(manager.reserve(r1).is_ok());
    assert!(manager.reserve(r2).is_ok());
}

#[test]
fn round_trip_preserves_all_fields_except_id() {
    let mut manager = ReservationManager::new();
    let rsvp = Reservation::new_pending(
        "alice",
        "ocean-view-room-713",
        dt("2022-12-25T22:00:00+00:00"),
        dt("2022-12-28T19:00:00+00:00"),
        "a note",
    );
    let submitted = rsvp.clone();
    let res = manager.reserve(rsvp).unwrap();
    let fetched = manager.get(res.id.clone()).unwrap();
    assert_eq!(fetched.user_id, submitted.user_id);
    assert_eq!(fetched.resource_id, submitted.resource_id);
    assert_eq!(fetched.start_time, submitted.start_time);
    assert_eq!(fetched.end_time, submitted.end_time);
    assert_eq!(fetched.note, submitted.note);
    assert_eq!(fetched.status, submitted.status);
    assert_eq!(fetched.id, res.id);
}

#[test]
fn delete_is_idempotent_and_checks_id() {
    let mut manager = ReservationManager::new();
    let rsvp = make_tyr_reservation(&mut manager);
    assert!(manager.delete(rsvp.id.clone()).is_ok());
    assert!(manager.delete(rsvp.id.clone()).is_ok());
    let err = manager.delete("not-an-id".to_string()).unwrap_err();
    assert_eq!(err, Error::InvalidReservationId("not-an-id".to_string()));
}

#[test]
fn malformed_id_is_rejected_everywhere() {
    let mut manager = ReservationManager::new();
    let bad = "0042".to_string();
    assert_eq!(
        manager.get(bad.clone()).unwrap_err(),
        Error::InvalidReservationId(bad.clone())
    );
    assert_eq!(
        manager.change_status(bad.clone()).unwrap_err(),
        Error::InvalidReservationId(bad.clone())
    );
    assert_eq!(
        manager.update_note(bad.clone(), "x".to_string()).unwrap_err(),
        Error::InvalidReservationId(bad)
    );
}

#[test]
fn update_note_absent_id_is_not_found() {
    let mut manager = ReservationManager::new();
    assert_eq!(
        manager.update_note("7".to_string(), "x".to_string()).unwrap_err(),
        Error::NotFound
    );
}

#[test]
fn query_orders_and_paginates() {
    let mut manager = ReservationManager::new();
    for day in [3, 1, 5, 2, 4] {
        let start = DateTimeUtc { seconds: day * 86400 };
        let end = DateTimeUtc { seconds: day * 86400 + 3600 };
        let rsvp = Reservation::new_pending("u", "room", start, end, "");
        manager.reserve(rsvp).unwrap();
    }
    let query = ReservationQueryBuilder::default()
        .resource_id("room")
        .pagesize(2)
        .build()
        .unwrap();
    let page1 = manager.query(query).unwrap();
    assert_eq!(page1.len(), 2);
    assert_eq!(page1[0].start_time, Some(Timestamp { seconds: 86400 }));
    assert_eq!(page1[1].start_time, Some(Timestamp { seconds: 2 * 86400 }));

    let query = ReservationQueryBuilder::default()
        .resource_id("room")
        .pagesize(2)
        .page(3)
        .build()
        .unwrap();
    let page3 = manager.query(query).unwrap();
    assert_eq!(page3.len(), 1);
    assert_eq!(page3[0].start_time, Some(Timestamp { seconds: 5 * 86400 }));

    let query = ReservationQueryBuilder::default()
        .resource_id("room")
        .pagesize(2)
        .desc(true)
        .build()
        .unwrap();
    let desc1 = manager.query(query).unwrap();
    assert_eq!(desc1.len(), 2);
    assert_eq!(desc1[0].start_time, Some(Timestamp { seconds: 5 * 86400 }));
    assert_eq!(desc1[1].start_time, Some(Timestamp { seconds: 4 * 86400 }));
}

#[test]
fn query_rejects_nonpositive_pagination() {
    let manager = ReservationManager::new();
    let query = ReservationQueryBuilder::default().page(0).build().unwrap();
    assert!(matches!(manager.query(query).unwrap_err(), Error::DbError(_)));
    let query = ReservationQueryBuilder::default().pagesize(0).build().unwrap();
    assert!(matches!(manager.query(query).unwrap_err(), Error::DbError(_)));
}

#[test]
fn query_during_mode_requires_containment() {
    let mut manager = ReservationManager::new();
    let rsvp = Reservation::new_pending(
        "u",
        "room",
        DateTimeUtc { seconds: 100 },
        DateTimeUtc { seconds: 200 },
        "",
    );
    manager.reserve(rsvp).unwrap();
    let covering = ReservationQueryBuilder::default()
        .resource_id("room")
        .start(Timestamp { seconds: 50 })
        .end(Timestamp { seconds: 250 })
        .mode(TimeComparison::During)
        .build()
        .unwrap();
    assert_eq!(manager.query(covering).unwrap().len(), 1);
    let partial = ReservationQueryBuilder::default()
        .resource_id("room")
        .start(Timestamp { seconds: 150 })
        .end(Timestamp { seconds: 250 })
        .mode(TimeComparison::During)
        .build()
        .unwrap();
    assert!(manager.query(partial).unwrap().is_empty());
}

#[test]
fn reserve_reports_the_persisted_status() {
    let mut manager = ReservationManager::new();
    let mut rsvp = Reservation::new_pending(
        "u",
        "room",
        DateTimeUtc { seconds: 100 },
        DateTimeUtc { seconds: 200 },
        "",
    );
    rsvp.status = ReservationStatus::Unknown.to_i32();
    let res = manager.reserve(rsvp).unwrap();
    assert_eq!(res.status, ReservationStatus::Pending.to_i32());
    let fetched = manager.get(res.id.clone()).unwrap();
    assert_eq!(fetched.status, res.status);

    let mut rsvp = Reservation::new_pending(
        "u",
        "room",
        DateTimeUtc { seconds: 300 },
        DateTimeUtc { seconds: 400 },
        "",
    );
    rsvp.status = ReservationStatus::Blocked.to_i32();
    let res = manager.reserve(rsvp).unwrap();
    assert_eq!(res.status, ReservationStatus::Blocked.to_i32());
}

#[test]
fn query_reads_unrecognized_status_codes_as_pending() {
    let mut manager = ReservationManager::new();
    let rsvp = Reservation::new_pending(
        "u",
        "room",
        DateTimeUtc { seconds: 100 },
        DateTimeUtc { seconds: 200 },
        "",
    );
    let res = manager.reserve(rsvp).unwrap();
    manager.change_status(res.id).unwrap();

    let mut query = ReservationQueryBuilder::default()
        .resource_id("room")
        .build()
        .unwrap();
    query.status = 7;
    assert!(manager.query(query).unwrap().is_empty());

    let query = ReservationQueryBuilder::default()
        .resource_id("room")
        .status(ReservationStatus::Confirmed)
        .build()
        .unwrap();
    assert_eq!(manager.query(query).unwrap().len(), 1);

    let sentinel = ReservationQueryBuilder::default()
        .resource_id("room")
        .build()
        .unwrap();
    assert_eq!(manager.query(sentinel).unwrap().len(), 1);
}

#[test]
fn str_to_option_empty_is_none() {
    assert!(reservation::manager::str_to_option("").is_none());
    assert_eq!(reservation::manager::str_to_option("abc"), Some("abc"));
}
