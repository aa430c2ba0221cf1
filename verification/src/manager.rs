//! The reservation manager over the library's reference store.
//!
//! The store holds one row per reservation, keeps rows ordered by start time
//! (ties broken by id), and enforces the range-overlap exclusion rule at
//! insert time: no two rows for the same resource ever hold overlapping
//! half-open windows.  Every operation maps to one store step; the manager
//! validates, performs the step, and reports errors from the closed taxonomy.

use vstd::prelude::*;
use vstd::seq_lib::*;
use vstd::string::StringExecFns;

use crate::conflict::{ReservationConflict, ReservationConflictInfo, ReservationWindow, WindowModel};
use crate::error::{Error, StoreError};
use crate::ids::{dec_string, dec_val, is_canonical_dec, parse_id};
use crate::reservation::{valid_reservation, valid_window, Reservation, ReservationModel};
use crate::status::{status_code, ReservationStatus};
use crate::timestamp::{spans_overlap, DateTimeUtc, Timestamp};

verus! {

// ------------------------------------------------------------------
// Rows and the store model
// ------------------------------------------------------------------

/// One persisted reservation row.
#[derive(Clone, Debug)]
pub struct StoredRow {
    pub id: u64,
    pub user_id: String,
    pub resource_id: String,
    pub start: i64,
    pub end: i64,
    pub note: String,
    pub status: ReservationStatus,
}

/// A row as mathematical values.
pub ghost struct RowModel {
    pub id: u64,
    pub user_id: Seq<char>,
    pub resource_id: Seq<char>,
    pub start: i64,
    pub end: i64,
    pub note: Seq<char>,
    pub status: ReservationStatus,
}

impl View for StoredRow {
    type V = RowModel;

    open spec fn view(&self) -> RowModel {
        RowModel {
            id: self.id,
            user_id: self.user_id@,
            resource_id: self.resource_id@,
            start: self.start,
            end: self.end,
            note: self.note@,
            status: self.status,
        }
    }
}

/// The store's state: its rows in order, and the next id it will assign.
pub ghost struct ManagerModel {
    pub rows: Seq<RowModel>,
    pub next_id: u64,
}

/// A persisted row is well formed: identified parties, an ordered window,
/// and a persistable status.
pub open spec fn row_valid(row: RowModel) -> bool {
    row.user_id.len() > 0 && row.resource_id.len() > 0 && row.start < row.end && row.status
        != ReservationStatus::Unknown
}

/// Row order in the store: by start time, ties broken by id.
pub open spec fn row_lt(a: RowModel, b: RowModel) -> bool {
    a.start < b.start || (a.start == b.start && a.id < b.id)
}

/// The store invariant: valid rows with ids below the next to be assigned,
/// distinct ids, no overlapping windows on one resource, and rows ordered.
pub open spec fn rows_wf(rows: Seq<RowModel>, next_id: u64) -> bool {
    &&& forall|i: int|
        0 <= i < rows.len() ==> row_valid(#[trigger] rows[i]) && rows[i].id < next_id
    &&& forall|i: int, j: int|
        0 <= i < j < rows.len() ==> (#[trigger] rows[i]).id != (#[trigger] rows[j]).id
    &&& forall|i: int, j: int|
        0 <= i < j < rows.len() ==> !((#[trigger] rows[i]).resource_id == (
        #[trigger] rows[j]).resource_id && spans_overlap(
            rows[i].start,
            rows[i].end,
            rows[j].start,
            rows[j].end,
        ))
    &&& forall|i: int, j: int|
        0 <= i < j < rows.len() ==> row_lt(#[trigger] rows[i], #[trigger] rows[j])
}

/// Row `j` of `rows` collides with the window `[start, end)` on `rid`.
pub open spec fn conflicting_index(
    rows: Seq<RowModel>,
    rid: Seq<char>,
    start: i64,
    end: i64,
    j: int,
) -> bool {
    0 <= j < rows.len() && rows[j].resource_id == rid && spans_overlap(
        rows[j].start,
        rows[j].end,
        start,
        end,
    )
}

/// Some row of `rows` collides with the window `[start, end)` on `rid`.
pub open spec fn has_conflict(rows: Seq<RowModel>, rid: Seq<char>, start: i64, end: i64) -> bool {
    exists|j: int| conflicting_index(rows, rid, start, end, j)
}

/// The start bound of a reservation whose window is present.
pub open spec fn model_start(r: ReservationModel) -> i64 {
    match r.start_time {
        Some(s) => s,
        None => 0,
    }
}

/// The end bound of a reservation whose window is present.
pub open spec fn model_end(r: ReservationModel) -> i64 {
    match r.end_time {
        Some(e) => e,
        None => 0,
    }
}

/// The status a reservation is persisted with: its own, when that is a
/// persistable one; `Pending` otherwise, the state every new reservation
/// starts in.
pub open spec fn effective_status(code: i32) -> ReservationStatus {
    if code == 2 {
        ReservationStatus::Confirmed
    } else if code == 3 {
        ReservationStatus::Blocked
    } else {
        ReservationStatus::Pending
    }
}

/// The row that persisting reservation `r` under id `id` creates.
pub open spec fn new_row(id: u64, r: ReservationModel) -> RowModel {
    RowModel {
        id: id,
        user_id: r.user_id,
        resource_id: r.resource_id,
        start: model_start(r),
        end: model_end(r),
        note: r.note,
        status: effective_status(r.status),
    }
}

/// The window a row claims.
pub open spec fn row_window(row: RowModel) -> WindowModel {
    WindowModel { rid: row.resource_id, start: row.start, end: row.end }
}

/// The reservation value that reading row `row` yields: the row's fields,
/// the id as its canonical decimal text, the status as its numeric code.
pub open spec fn reservation_matches_row(r: ReservationModel, row: RowModel) -> bool {
    &&& is_canonical_dec(r.id) && dec_val(r.id) == row.id as nat
    &&& r.user_id == row.user_id
    &&& r.resource_id == row.resource_id
    &&& r.start_time == Some(row.start)
    &&& r.end_time == Some(row.end)
    &&& r.note == row.note
    &&& r.status == status_code(row.status)
}

/// The reservation `reserve` returns: the submitted fields under the
/// freshly assigned id, with the status the row was actually persisted
/// with, so that the result reflects the stored row.
pub open spec fn returned_reservation(res: ReservationModel, req: ReservationModel, id: u64) -> bool {
    &&& is_canonical_dec(res.id) && dec_val(res.id) == id as nat
    &&& res.user_id == req.user_id
    &&& res.resource_id == req.resource_id
    &&& res.start_time == req.start_time
    &&& res.end_time == req.end_time
    &&& res.note == req.note
    &&& res.status == status_code(effective_status(req.status))
}

// ------------------------------------------------------------------
// The manager
// ------------------------------------------------------------------

/// A reservation's opaque identifier, as callers pass it around.
pub type ReservationId = String;

/// The manager: validates, performs one store step per operation, and
/// translates failures into the closed error taxonomy.
#[derive(Debug)]
pub struct ReservationManager {
    rows: Vec<StoredRow>,
    next_id: u64,
}

impl View for ReservationManager {
    type V = ManagerModel;

    closed spec fn view(&self) -> ManagerModel {
        ManagerModel {
            rows: Seq::new(self.rows@.len(), |i: int| self.rows@[i]@),
            next_id: self.next_id,
        }
    }
}

impl ReservationManager {
    /// The store invariant, over this manager's state.
    pub open spec fn wf(&self) -> bool {
        self@.next_id >= 1 && rows_wf(self@.rows, self@.next_id)
    }

    /// A manager over an empty store.
    pub fn new() -> (m: ReservationManager)
        ensures
            m.wf(),
            m@.rows == Seq::<RowModel>::empty(),
            m@.next_id == 1,
    {
        let m = ReservationManager { rows: Vec::new(), next_id: 1 };
        proof {
            assert(m@.rows =~= Seq::<RowModel>::empty());
        }
        m
    }

    /// Validates the reservation, then inserts it with its effective status
    /// under a fresh id, unless its window collides with a stored row for
    /// the same resource; a collision reports the rejected and the colliding
    /// window.  On success the submitted reservation comes back unchanged
    /// but for the assigned id.
    #[verifier::rlimit(60)]
    pub fn reserve(&mut self, rsvp: Reservation) -> (r: Result<Reservation, Error>)
        requires
            old(self).wf(),
            old(self)@.next_id < u64::MAX,
        ensures
            final(self).wf(),
            !valid_reservation(rsvp@) ==> final(self)@ == old(self)@,
            rsvp@.user_id.len() == 0 ==> (r matches Err(Error::InvalidUserId(m)) && m@
                == Seq::<char>::empty()),
            rsvp@.user_id.len() > 0 && rsvp@.resource_id.len() == 0 ==> (r matches Err(
                Error::InvalidResourceId(m),
            ) && m@ == Seq::<char>::empty()),
            rsvp@.user_id.len() > 0 && rsvp@.resource_id.len() > 0 && !valid_window(rsvp@)
                ==> r matches Err(Error::InvalidTime),
            valid_reservation(rsvp@) && has_conflict(
                old(self)@.rows,
                rsvp@.resource_id,
                model_start(rsvp@),
                model_end(rsvp@),
            ) ==> final(self)@ == old(self)@ && (r matches Err(
                Error::ConflictReservation(ReservationConflictInfo::Parsed(c)),
            ) && c@.new == (WindowModel {
                rid: rsvp@.resource_id,
                start: model_start(rsvp@),
                end: model_end(rsvp@),
            }) && (exists|j: int|
                conflicting_index(
                    old(self)@.rows,
                    rsvp@.resource_id,
                    model_start(rsvp@),
                    model_end(rsvp@),
                    j,
                ) && c@.old == row_window(old(self)@.rows[j]))),
            valid_reservation(rsvp@) && !has_conflict(
                old(self)@.rows,
                rsvp@.resource_id,
                model_start(rsvp@),
                model_end(rsvp@),
            ) ==> (r matches Ok(res) && returned_reservation(res@, rsvp@, old(self)@.next_id)
                && final(self)@.next_id == old(self)@.next_id + 1 && (exists|k: int|
                0 <= k <= old(self)@.rows.len() && final(self)@.rows == old(self)@.rows.insert(
                    k,
                    new_row(old(self)@.next_id, rsvp@),
                ))),
    {
        match rsvp.validate() {
            Ok(()) => {},
            Err(e) => {
                return Err(e);
            },
        }
        let span = rsvp.get_timespan();
        let s = span.start.seconds;
        let e = span.end.seconds;
        let status = match ReservationStatus::from_i32(rsvp.status) {
            Some(ReservationStatus::Unknown) => ReservationStatus::Pending,
            Some(st) => st,
            None => ReservationStatus::Pending,
        };
        let n = self.rows.len();
        let mut j: usize = 0;
        while j < n
            invariant
                j <= n,
                n == self@.rows.len(),
                self@ == old(self)@,
                self.wf(),
                valid_reservation(rsvp@),
                s == model_start(rsvp@),
                e == model_end(rsvp@),
                forall|t: int|
                    0 <= t < j ==> !conflicting_index(
                        self@.rows,
                        rsvp@.resource_id,
                        s,
                        e,
                        t,
                    ),
            decreases n - j,
        {
            let row = &self.rows[j];
            if row.resource_id == rsvp.resource_id && row.start < e && s < row.end {
                let w_new = ReservationWindow {
                    rid: rsvp.resource_id.clone(),
                    start: DateTimeUtc { seconds: s },
                    end: DateTimeUtc { seconds: e },
                };
                let w_old = ReservationWindow {
                    rid: row.resource_id.clone(),
                    start: DateTimeUtc { seconds: row.start },
                    end: DateTimeUtc { seconds: row.end },
                };
                proof {
                    assert(conflicting_index(self@.rows, rsvp@.resource_id, s, e, j as int));
                }
                return Err(
                    Error::ConflictReservation(
                        ReservationConflictInfo::Parsed(
                            ReservationConflict { new: w_new, old: w_old },
                        ),
                    ),
                );
            }
            j = j + 1;
        }
        let id = self.next_id;
        let id_str = dec_string(id);
        let row = StoredRow {
            id,
            user_id: rsvp.user_id.clone(),
            resource_id: rsvp.resource_id.clone(),
            start: s,
            end: e,
            note: rsvp.note.clone(),
            status,
        };
        let ghost rm = row@;
        let ghost rows0 = self@.rows;
        let mut k: usize = 0;
        while k < n && !(self.rows[k].start > s || (self.rows[k].start == s && self.rows[k].id
            > id))
            invariant
                k <= n,
                n == self@.rows.len(),
                rows0 == self@.rows,
                forall|t: int| 0 <= t < k ==> !row_lt(rm, #[trigger] self@.rows[t]),
                rm.start == s,
                rm.id == id,
            decreases n - k,
        {
            k = k + 1;
        }
        let ghost vec0 = self.rows@;
        let ghost srow = row;
        self.rows.insert(k, row);
        self.next_id = id + 1;
        let mut res = rsvp;
        res.id = id_str;
        res.status = status.to_i32();
        proof {
            vec0.insert_ensures(k as int, srow);
            rows0.insert_ensures(k as int, rm);
            assert(self.rows@ == vec0.insert(k as int, srow));
            let rows1 = self@.rows;
            assert forall|i: int| 0 <= i < rows1.len() implies rows1[i] == rows0.insert(
                k as int,
                rm,
            )[i] by {
                if i < k as int {
                    assert(vec0.insert(k as int, srow)[i] == vec0[i]);
                } else if i == k as int {
                    assert(vec0.insert(k as int, srow)[i] == srow);
                } else {
                    assert(vec0.insert(k as int, srow)[i] == vec0[i - 1]);
                }
            }
            assert(rows1 =~= rows0.insert(k as int, rm));
            assert(rm.resource_id == rsvp@.resource_id);
            assert(rm.start == s && rm.end == e && rm.id == id);
            assert(row_valid(rm));
            assert(k < rows0.len() ==> row_lt(rm, rows0[k as int]));
            assert forall|i: int, jj: int| #![trigger rows1[i], rows1[jj]] 0 <= i < jj
                < rows1.len() implies row_lt(
                rows1[i],
                rows1[jj],
            ) && rows1[i].id != rows1[jj].id && !(rows1[i].resource_id == rows1[jj].resource_id
                && spans_overlap(rows1[i].start, rows1[i].end, rows1[jj].start, rows1[jj].end)) by {
                if i < k as int && jj < k as int {
                    assert(rows1[i] == rows0[i]);
                    assert(rows1[jj] == rows0[jj]);
                    assert(row_lt(rows0[i], rows0[jj]));
                    assert(rows0[i].id != rows0[jj].id);
                    assert(!(rows0[i].resource_id == rows0[jj].resource_id && spans_overlap(
                        rows0[i].start,
                        rows0[i].end,
                        rows0[jj].start,
                        rows0[jj].end,
                    )));
                } else if i < k as int && jj == k as int {
                    assert(rows1[i] == rows0[i]);
                    assert(rows1[jj] == rm);
                    assert(!row_lt(rm, rows0[i]));
                    assert(rows0[i].id < id);
                    assert(!conflicting_index(rows0, rsvp@.resource_id, s, e, i));
                } else if i < k as int && jj > k as int {
                    assert(rows1[i] == rows0[i]);
                    assert(rows1[jj] == rows0[jj - 1]);
                    assert(row_lt(rows0[i], rows0[jj - 1]));
                    assert(rows0[i].id != rows0[jj - 1].id);
                    assert(!(rows0[i].resource_id == rows0[jj - 1].resource_id && spans_overlap(
                        rows0[i].start,
                        rows0[i].end,
                        rows0[jj - 1].start,
                        rows0[jj - 1].end,
                    )));
                } else if i == k as int {
                    assert(rows1[i] == rm);
                    assert(rows1[jj] == rows0[jj - 1]);
                    assert(jj - 1 >= k);
                    assert(k < rows0.len());
                    assert(row_lt(rm, rows0[k as int]));
                    if jj - 1 > k as int {
                        assert(row_lt(rows0[k as int], rows0[jj - 1]));
                    }
                    assert(rows0[jj - 1].id < id);
                    assert(!conflicting_index(rows0, rsvp@.resource_id, s, e, jj - 1));
                } else {
                    assert(rows1[i] == rows0[i - 1]);
                    assert(rows1[jj] == rows0[jj - 1]);
                    assert(row_lt(rows0[i - 1], rows0[jj - 1]));
                    assert(rows0[i - 1].id != rows0[jj - 1].id);
                    assert(!(rows0[i - 1].resource_id == rows0[jj - 1].resource_id
                        && spans_overlap(
                        rows0[i - 1].start,
                        rows0[i - 1].end,
                        rows0[jj - 1].start,
                        rows0[jj - 1].end,
                    )));
                }
            }
            assert(rm == new_row(id, rsvp@));
        }
        Ok(res)
    }
}

/// Row `j` of `rows` carries id `idv`.
pub open spec fn id_index(rows: Seq<RowModel>, idv: nat, j: int) -> bool {
    0 <= j < rows.len() && rows[j].id as nat == idv
}

/// Row `j` of `rows` carries id `idv` and is still `Pending`.
pub open spec fn pending_index(rows: Seq<RowModel>, idv: nat, j: int) -> bool {
    id_index(rows, idv, j) && rows[j].status == ReservationStatus::Pending
}

/// The row after the one allowed transition, `Pending` to `Confirmed`.
pub open spec fn confirm_row(row: RowModel) -> RowModel {
    RowModel { status: ReservationStatus::Confirmed, ..row }
}

/// The row with its note replaced.
pub open spec fn with_note(row: RowModel, note: Seq<char>) -> RowModel {
    RowModel { note: note, ..row }
}

/// Replacing a row by one with the same id, window and resource keeps the
/// store invariant, provided the replacement is itself valid.
proof fn lemma_wf_update_same_key(rows: Seq<RowModel>, next_id: u64, j: int, row: RowModel)
    requires
        rows_wf(rows, next_id),
        0 <= j < rows.len(),
        row.id == rows[j].id,
        row.start == rows[j].start,
        row.end == rows[j].end,
        row.resource_id == rows[j].resource_id,
        row_valid(row),
    ensures
        rows_wf(rows.update(j, row), next_id),
{
    let rows1 = rows.update(j, row);
    assert forall|a: int, b: int| #![trigger rows1[a], rows1[b]] 0 <= a < b < rows1.len() implies
        row_lt(rows1[a], rows1[b]) && rows1[a].id != rows1[b].id && !(rows1[a].resource_id
        == rows1[b].resource_id && spans_overlap(
        rows1[a].start,
        rows1[a].end,
        rows1[b].start,
        rows1[b].end,
    )) by {
        assert(rows1[a] == if a == j {
            row
        } else {
            rows[a]
        });
        assert(rows1[b] == if b == j {
            row
        } else {
            rows[b]
        });
        assert(row_lt(rows[a], rows[b]));
        assert(rows[a].id != rows[b].id);
        assert(!(rows[a].resource_id == rows[b].resource_id && spans_overlap(
            rows[a].start,
            rows[a].end,
            rows[b].start,
            rows[b].end,
        )));
    }
    assert forall|a: int| 0 <= a < rows1.len() implies row_valid(#[trigger] rows1[a])
        && rows1[a].id < next_id by {
        assert(rows1[a] == if a == j {
            row
        } else {
            rows[a]
        });
        assert(row_valid(rows[a]) && rows[a].id < next_id);
    }
}

/// Removing a row keeps the store invariant.
proof fn lemma_wf_remove(rows: Seq<RowModel>, next_id: u64, j: int)
    requires
        rows_wf(rows, next_id),
        0 <= j < rows.len(),
    ensures
        rows_wf(rows.remove(j), next_id),
{
    let rows1 = rows.remove(j);
    rows.remove_ensures(j);
    assert forall|a: int, b: int| #![trigger rows1[a], rows1[b]] 0 <= a < b < rows1.len() implies
        row_lt(rows1[a], rows1[b]) && rows1[a].id != rows1[b].id && !(rows1[a].resource_id
        == rows1[b].resource_id && spans_overlap(
        rows1[a].start,
        rows1[a].end,
        rows1[b].start,
        rows1[b].end,
    )) by {
        let a0 = if a < j {
            a
        } else {
            a + 1
        };
        let b0 = if b < j {
            b
        } else {
            b + 1
        };
        assert(rows1[a] == rows[a0]);
        assert(rows1[b] == rows[b0]);
        assert(row_lt(rows[a0], rows[b0]));
        assert(rows[a0].id != rows[b0].id);
        assert(!(rows[a0].resource_id == rows[b0].resource_id && spans_overlap(
            rows[a0].start,
            rows[a0].end,
            rows[b0].start,
            rows[b0].end,
        )));
    }
    assert forall|a: int| 0 <= a < rows1.len() implies row_valid(#[trigger] rows1[a])
        && rows1[a].id < next_id by {
        let a0 = if a < j {
            a
        } else {
            a + 1
        };
        assert(rows1[a] == rows[a0]);
    }
}

/// The reservation value a stored row reads back as.
fn row_to_reservation(row: &StoredRow) -> (r: Reservation)
    ensures
        reservation_matches_row(r@, row@),
{
    Reservation {
        id: dec_string(row.id),
        user_id: row.user_id.clone(),
        resource_id: row.resource_id.clone(),
        start_time: Some(Timestamp { seconds: row.start }),
        end_time: Some(Timestamp { seconds: row.end }),
        note: row.note.clone(),
        status: row.status.to_i32(),
    }
}

impl ReservationManager {
    /// Replaces row `j` in place.
    fn set_row(&mut self, j: usize, row: StoredRow)
        requires
            j < old(self)@.rows.len(),
        ensures
            final(self)@.rows == old(self)@.rows.update(j as int, row@),
            final(self)@.next_id == old(self)@.next_id,
    {
        let ghost vec0 = self.rows@;
        let ghost rows0 = self@.rows;
        let ghost srow = row;
        self.rows.remove(j);
        self.rows.insert(j, row);
        proof {
            vec0.remove_ensures(j as int);
            vec0.remove(j as int).insert_ensures(j as int, srow);
            assert(self.rows@ =~= vec0.update(j as int, srow));
            assert forall|t: int| 0 <= t < self@.rows.len() implies self@.rows[t] == rows0.update(
                j as int,
                srow@,
            )[t] by {
                if t == j as int {
                    assert(self.rows@[t] == srow);
                } else {
                    assert(self.rows@[t] == vec0[t]);
                }
            }
            assert(self@.rows =~= rows0.update(j as int, srow@));
        }
    }

    /// Confirms a pending reservation: the single allowed transition,
    /// `Pending` to `Confirmed`, guarded so that it succeeds only while the
    /// row is still exactly `Pending`.  A malformed id is rejected; an id
    /// without a pending row — nonexistent, already confirmed, or blocked —
    /// reads as `NotFound`, indistinguishably.
    pub fn change_status(&mut self, id: ReservationId) -> (r: Result<Reservation, Error>)
        requires
            old(self).wf(),
        ensures
            final(self).wf(),
            final(self)@.next_id == old(self)@.next_id,
            !is_canonical_dec(id@) ==> final(self)@ == old(self)@ && (r matches Err(
                Error::InvalidReservationId(m),
            ) && m@ == id@),
            is_canonical_dec(id@) && !(exists|j: int|
                pending_index(old(self)@.rows, dec_val(id@), j)) ==> final(self)@ == old(self)@
                && r matches Err(Error::NotFound),
            is_canonical_dec(id@) && (exists|j: int|
                pending_index(old(self)@.rows, dec_val(id@), j)) ==> (r matches Ok(res) && (
            exists|j: int|
                pending_index(old(self)@.rows, dec_val(id@), j) && final(self)@.rows == old(
                    self,
                )@.rows.update(j, confirm_row(old(self)@.rows[j])) && reservation_matches_row(
                    res@,
                    confirm_row(old(self)@.rows[j]),
                ))),
    {
        let idv = match parse_id(id.as_str()) {
            Ok(v) => v,
            Err(e) => {
                return Err(e);
            },
        };
        let n = self.rows.len();
        let mut j: usize = 0;
        while j < n
            invariant
                j <= n,
                n == self@.rows.len(),
                self@ == old(self)@,
                self.wf(),
                is_canonical_dec(id@),
                idv as nat == dec_val(id@),
                forall|t: int| 0 <= t < j ==> !pending_index(self@.rows, idv as nat, t),
            decreases n - j,
        {
            let found = self.rows[j].id == idv && matches!(self.rows[j].status, ReservationStatus::Pending);
            if found {
                let row_ref = &self.rows[j];
                let updated = StoredRow {
                    id: row_ref.id,
                    user_id: row_ref.user_id.clone(),
                    resource_id: row_ref.resource_id.clone(),
                    start: row_ref.start,
                    end: row_ref.end,
                    note: row_ref.note.clone(),
                    status: ReservationStatus::Confirmed,
                };
                let res = row_to_reservation(&updated);
                proof {
                    assert(updated@ == confirm_row(self@.rows[j as int]));
                    assert(pending_index(self@.rows, idv as nat, j as int));
                    lemma_wf_update_same_key(
                        self@.rows,
                        self@.next_id,
                        j as int,
                        confirm_row(self@.rows[j as int]),
                    );
                }
                self.set_row(j, updated);
                return Ok(res);
            }
            j = j + 1;
        }
        Err(Error::NotFound)
    }

    /// Replaces the note of the reservation with the given id,
    /// unconditionally at any status; fails `NotFound` when the id is
    /// absent.
    pub fn update_note(&mut self, id: ReservationId, note: String) -> (r: Result<Reservation, Error>)
        requires
            old(self).wf(),
        ensures
            final(self).wf(),
            final(self)@.next_id == old(self)@.next_id,
            !is_canonical_dec(id@) ==> final(self)@ == old(self)@ && (r matches Err(
                Error::InvalidReservationId(m),
            ) && m@ == id@),
            is_canonical_dec(id@) && !(exists|j: int| id_index(old(self)@.rows, dec_val(id@), j))
                ==> final(self)@ == old(self)@ && r matches Err(Error::NotFound),
            is_canonical_dec(id@) && (exists|j: int| id_index(old(self)@.rows, dec_val(id@), j))
                ==> (r matches Ok(res) && (exists|j: int|
                id_index(old(self)@.rows, dec_val(id@), j) && final(self)@.rows == old(
                    self,
                )@.rows.update(j, with_note(old(self)@.rows[j], note@))
                    && reservation_matches_row(res@, with_note(old(self)@.rows[j], note@)))),
    {
        let idv = match parse_id(id.as_str()) {
            Ok(v) => v,
            Err(e) => {
                return Err(e);
            },
        };
        let n = self.rows.len();
        let mut j: usize = 0;
        while j < n
            invariant
                j <= n,
                n == self@.rows.len(),
                self@ == old(self)@,
                self.wf(),
                is_canonical_dec(id@),
                idv as nat == dec_val(id@),
                forall|t: int| 0 <= t < j ==> !id_index(self@.rows, idv as nat, t),
            decreases n - j,
        {
            if self.rows[j].id == idv {
                let row_ref = &self.rows[j];
                let updated = StoredRow {
                    id: row_ref.id,
                    user_id: row_ref.user_id.clone(),
                    resource_id: row_ref.resource_id.clone(),
                    start: row_ref.start,
                    end: row_ref.end,
                    note: note.clone(),
                    status: row_ref.status,
                };
                let res = row_to_reservation(&updated);
                proof {
                    assert(updated@ == with_note(self@.rows[j as int], note@));
                    assert(id_index(self@.rows, idv as nat, j as int));
                    lemma_wf_update_same_key(
                        self@.rows,
                        self@.next_id,
                        j as int,
                        with_note(self@.rows[j as int], note@),
                    );
                }
                self.set_row(j, updated);
                return Ok(res);
            }
            j = j + 1;
        }
        Err(Error::NotFound)
    }

    /// Removes the reservation with the given id.  Deletion is idempotent:
    /// an absent id is no error; only a malformed id is rejected.
    pub fn delete(&mut self, id: ReservationId) -> (r: Result<(), Error>)
        requires
            old(self).wf(),
        ensures
            final(self).wf(),
            final(self)@.next_id == old(self)@.next_id,
            !is_canonical_dec(id@) ==> final(self)@ == old(self)@ && (r matches Err(
                Error::InvalidReservationId(m),
            ) && m@ == id@),
            is_canonical_dec(id@) ==> r is Ok,
            is_canonical_dec(id@) && !(exists|j: int| id_index(old(self)@.rows, dec_val(id@), j))
                ==> final(self)@ == old(self)@,
            is_canonical_dec(id@) && (exists|j: int| id_index(old(self)@.rows, dec_val(id@), j))
                ==> (exists|j: int|
                id_index(old(self)@.rows, dec_val(id@), j) && final(self)@.rows == old(
                    self,
                )@.rows.remove(j)),
            is_canonical_dec(id@) ==> forall|t: int|
                0 <= t < final(self)@.rows.len() ==> (#[trigger] final(self)@.rows[t]).id as nat
                    != dec_val(id@),
    {
        let idv = match parse_id(id.as_str()) {
            Ok(v) => v,
            Err(e) => {
                return Err(e);
            },
        };
        let n = self.rows.len();
        let mut j: usize = 0;
        while j < n
            invariant
                j <= n,
                n == self@.rows.len(),
                self@ == old(self)@,
                self.wf(),
                is_canonical_dec(id@),
                idv as nat == dec_val(id@),
                forall|t: int| 0 <= t < j ==> !id_index(self@.rows, idv as nat, t),
            decreases n - j,
        {
            if self.rows[j].id == idv {
                let ghost rows0 = self@.rows;
                let ghost vec0 = self.rows@;
                proof {
                    assert(id_index(self@.rows, idv as nat, j as int));
                    lemma_wf_remove(self@.rows, self@.next_id, j as int);
                }
                self.rows.remove(j);
                proof {
                    vec0.remove_ensures(j as int);
                    assert forall|t: int| 0 <= t < self@.rows.len() implies self@.rows[t]
                        == rows0.remove(j as int)[t] by {
                        rows0.remove_ensures(j as int);
                        if t < j as int {
                            assert(self.rows@[t] == vec0[t]);
                        } else {
                            assert(self.rows@[t] == vec0[t + 1]);
                        }
                    }
                    assert(self@.rows =~= rows0.remove(j as int));
                    rows0.remove_ensures(j as int);
                    assert forall|t: int| 0 <= t < self@.rows.len() implies (
                    #[trigger] self@.rows[t]).id as nat != idv as nat by {
                        if t < j as int {
                            assert(self@.rows[t] == rows0[t]);
                        } else {
                            assert(self@.rows[t] == rows0[t + 1]);
                        }
                    }
                }
                return Ok(());
            }
            j = j + 1;
        }
        proof {
            assert forall|t: int| 0 <= t < self@.rows.len() implies (
            #[trigger] self@.rows[t]).id as nat != idv as nat by {
                assert(!id_index(self@.rows, idv as nat, t));
            }
        }
        Ok(())
    }

    /// Reads the reservation with the given id; fails `NotFound` when it is
    /// absent.
    pub fn get(&self, id: ReservationId) -> (r: Result<Reservation, Error>)
        ensures
            !is_canonical_dec(id@) ==> (r matches Err(Error::InvalidReservationId(m)) && m@
                == id@),
            is_canonical_dec(id@) && !(exists|j: int| id_index(self@.rows, dec_val(id@), j))
                ==> r matches Err(Error::NotFound),
            is_canonical_dec(id@) && (exists|j: int| id_index(self@.rows, dec_val(id@), j)) ==> (
            r matches Ok(res) && (exists|j: int|
                id_index(self@.rows, dec_val(id@), j) && reservation_matches_row(
                    res@,
                    self@.rows[j],
                ))),
    {
        let idv = match parse_id(id.as_str()) {
            Ok(v) => v,
            Err(e) => {
                return Err(e);
            },
        };
        let n = self.rows.len();
        let mut j: usize = 0;
        while j < n
            invariant
                j <= n,
                n == self@.rows.len(),
                is_canonical_dec(id@),
                idv as nat == dec_val(id@),
                forall|t: int| 0 <= t < j ==> !id_index(self@.rows, idv as nat, t),
            decreases n - j,
        {
            if self.rows[j].id == idv {
                let res = row_to_reservation(&self.rows[j]);
                proof {
                    assert(id_index(self@.rows, idv as nat, j as int));
                }
                return Ok(res);
            }
            j = j + 1;
        }
        Err(Error::NotFound)
    }
}

// ------------------------------------------------------------------
// Queries
// ------------------------------------------------------------------

/// How a query's window is compared against a row's window.
#[derive(Clone, Copy, Debug, PartialEq, Eq, Structural)]
pub enum TimeComparison {
    Overlaps,
    Contains,
    During,
}

/// A query over stored reservations: optional user, resource and status
/// filters (absent or empty means all), a window predicate with a selectable
/// comparison mode, and pagination counted from page 1.
#[derive(Clone, Debug)]
pub struct ReservationQuery {
    pub user_id: String,
    pub resource_id: String,
    pub start: Option<Timestamp>,
    pub end: Option<Timestamp>,
    pub status: i32,
    pub mode: TimeComparison,
    pub page: i32,
    pub pagesize: i32,
    pub desc: bool,
}

/// A query as mathematical values.
pub ghost struct QueryModel {
    pub user_id: Seq<char>,
    pub resource_id: Seq<char>,
    pub start: Option<i64>,
    pub end: Option<i64>,
    pub status: i32,
    pub mode: TimeComparison,
    pub page: i32,
    pub pagesize: i32,
    pub desc: bool,
}

impl View for ReservationQuery {
    type V = QueryModel;

    open spec fn view(&self) -> QueryModel {
        QueryModel {
            user_id: self.user_id@,
            resource_id: self.resource_id@,
            start: match self.start {
                Some(t) => Some(t.seconds),
                None => None,
            },
            end: match self.end {
                Some(t) => Some(t.seconds),
                None => None,
            },
            status: self.status,
            mode: self.mode,
            page: self.page,
            pagesize: self.pagesize,
            desc: self.desc,
        }
    }
}

/// The status a query's status code filters by: the sentinel code (absent
/// status) matches every status; a persistable code filters by its status;
/// any unrecognized code reads as `Pending`, the fallback the store decodes
/// it to.
pub open spec fn status_filter(code: i32) -> Option<ReservationStatus> {
    if code == 0 {
        None
    } else if code == 2 {
        Some(ReservationStatus::Confirmed)
    } else if code == 3 {
        Some(ReservationStatus::Blocked)
    } else {
        Some(ReservationStatus::Pending)
    }
}

/// The row's window stands in the requested relation to the query window;
/// an absent bound constrains nothing.
pub open spec fn window_matches(row: RowModel, q: QueryModel) -> bool {
    match q.mode {
        TimeComparison::Overlaps => (q.end matches Some(e) ==> row.start < e) && (q.start matches
            Some(s) ==> s < row.end),
        TimeComparison::Contains => (q.start matches Some(s) ==> row.start <= s) && (q.end matches
            Some(e) ==> e <= row.end),
        TimeComparison::During => (q.start matches Some(s) ==> s <= row.start) && (q.end matches
            Some(e) ==> row.end <= e),
    }
}

/// The row passes every filter of the query.
pub open spec fn matches_query(row: RowModel, q: QueryModel) -> bool {
    &&& q.user_id.len() > 0 ==> row.user_id == q.user_id
    &&& q.resource_id.len() > 0 ==> row.resource_id == q.resource_id
    &&& (status_filter(q.status) matches Some(st) ==> row.status == st)
    &&& window_matches(row, q)
}

pub open spec fn query_pred(q: QueryModel) -> spec_fn(RowModel) -> bool {
    |row: RowModel| matches_query(row, q)
}

/// The sequence in reverse order.
pub open spec fn rev_rows(s: Seq<RowModel>) -> Seq<RowModel> {
    Seq::new(s.len(), |i: int| s[s.len() - 1 - i])
}

/// The rows a query returns: the matching rows in store order — ascending
/// by start time, descending when asked — then the requested page, counted
/// from page 1.
pub open spec fn query_results(rows: Seq<RowModel>, q: QueryModel) -> Seq<RowModel> {
    let f = rows.filter(query_pred(q));
    let o = if q.desc {
        rev_rows(f)
    } else {
        f
    };
    let skip = (q.page - 1) * q.pagesize;
    let lo = if skip < o.len() {
        skip as int
    } else {
        o.len() as int
    };
    let hi = if skip + q.pagesize < o.len() {
        skip + q.pagesize
    } else {
        o.len() as int
    };
    o.subrange(lo, hi)
}

/// Each returned reservation reads back the corresponding row.
pub open spec fn results_match(rs: Seq<Reservation>, models: Seq<RowModel>) -> bool {
    rs.len() == models.len() && forall|i: int|
        0 <= i < rs.len() ==> reservation_matches_row((#[trigger] rs[i])@, models[i])
}

fn matches_query_exec(row: &StoredRow, q: &ReservationQuery) -> (b: bool)
    ensures
        b == matches_query(row@, q@),
{
    let user_ok = q.user_id.as_str().is_empty() || row.user_id == q.user_id;
    let rid_ok = q.resource_id.as_str().is_empty() || row.resource_id == q.resource_id;
    let status_ok = if q.status == 0 {
        true
    } else {
        let wanted = match ReservationStatus::from_i32(q.status) {
            Some(ReservationStatus::Unknown) => ReservationStatus::Pending,
            Some(st) => st,
            None => ReservationStatus::Pending,
        };
        row.status == wanted
    };
    let win_ok = match q.mode {
        TimeComparison::Overlaps => (match &q.end {
            Some(t) => row.start < t.seconds,
            None => true,
        }) && (match &q.start {
            Some(t) => t.seconds < row.end,
            None => true,
        }),
        TimeComparison::Contains => (match &q.start {
            Some(t) => row.start <= t.seconds,
            None => true,
        }) && (match &q.end {
            Some(t) => t.seconds <= row.end,
            None => true,
        }),
        TimeComparison::During => (match &q.start {
            Some(t) => t.seconds <= row.start,
            None => true,
        }) && (match &q.end {
            Some(t) => row.end <= t.seconds,
            None => true,
        }),
    };
    user_ok && rid_ok && status_ok && win_ok
}

/// The vector in reverse order.
fn reverse_reservations(v: Vec<Reservation>) -> (o: Vec<Reservation>)
    ensures
        o@.len() == v@.len(),
        forall|t: int| 0 <= t < o@.len() ==> o@[t] == v@[v@.len() - 1 - t],
{
    let ghost orig = v@;
    let mut v = v;
    let mut o: Vec<Reservation> = Vec::new();
    while v.len() > 0
        invariant
            o@.len() <= orig.len(),
            v@ == orig.subrange(0, orig.len() - o@.len()),
            forall|t: int| 0 <= t < o@.len() ==> o@[t] == orig[orig.len() - 1 - t],
        decreases v@.len(),
    {
        let x = v.pop().unwrap();
        o.push(x);
        proof {
            assert(orig.subrange(0, orig.len() - (o@.len() - 1)).subrange(
                0,
                orig.len() - o@.len(),
            ) =~= orig.subrange(0, orig.len() - o@.len()));
        }
    }
    o
}

/// The page window of the vector: `pagesize` entries counted from page 1,
/// clipped to what is there.
fn page_slice(v: Vec<Reservation>, page: i32, pagesize: i32) -> (r: Vec<Reservation>)
    requires
        page >= 1,
        pagesize >= 1,
    ensures
        ({
            let skip = (page - 1) * pagesize;
            let lo = if skip < v@.len() {
                skip as int
            } else {
                v@.len() as int
            };
            let hi = if skip + pagesize < v@.len() {
                skip + pagesize
            } else {
                v@.len() as int
            };
            r@ == v@.subrange(lo, hi)
        }),
{
    let ghost orig = v@;
    let mut v = v;
    let len = v.len();
    let p = (page - 1) as u64;
    let ps = pagesize as u64;
    proof {
        assert(p * ps <= 0x7fffffff * 0x7fffffff) by (nonlinear_arith)
            requires
                p <= 0x7fffffff && ps <= 0x7fffffff,
        ;
    }
    let skip64 = p * ps;
    let skip: usize = if skip64 >= len as u64 {
        len
    } else {
        skip64 as usize
    };
    let remaining = len - skip;
    let take: usize = if ps >= remaining as u64 {
        remaining
    } else {
        ps as usize
    };
    let mut i: usize = 0;
    while i < skip
        invariant
            i <= skip <= len,
            len == orig.len(),
            v@ == orig.subrange(i as int, len as int),
        decreases skip - i,
    {
        v.remove(0);
        proof {
            assert(orig.subrange(i as int, len as int).remove(0) =~= orig.subrange(
                i + 1 as int,
                len as int,
            ));
        }
        i = i + 1;
    }
    let mut out: Vec<Reservation> = Vec::new();
    let mut t: usize = 0;
    while t < take
        invariant
            t <= take,
            skip + take <= len,
            len == orig.len(),
            v@ == orig.subrange((skip + t) as int, len as int),
            out@ == orig.subrange(skip as int, (skip + t) as int),
        decreases take - t,
    {
        let x = v.remove(0);
        out.push(x);
        proof {
            assert(orig.subrange((skip + t) as int, len as int).remove(0) =~= orig.subrange(
                (skip + t + 1) as int,
                len as int,
            ));
            assert(orig.subrange(skip as int, (skip + t) as int).push(
                orig[(skip + t) as int],
            ) =~= orig.subrange(skip as int, (skip + t + 1) as int));
        }
        t = t + 1;
    }
    out
}

impl ReservationManager {
    /// Runs a query: empty or absent optional filters match everything on
    /// their dimension; the matching rows come back ordered by start time,
    /// descending when asked, in the requested page.  A page or page size
    /// below 1 is rejected by the store.
    pub fn query(&self, q: ReservationQuery) -> (r: Result<Vec<Reservation>, Error>)
        ensures
            (q@.page < 1 || q@.pagesize < 1) <==> r is Err,
            q@.page < 1 || q@.pagesize < 1 ==> r matches Err(Error::DbError(_)),
            q@.page >= 1 && q@.pagesize >= 1 ==> (r matches Ok(v) && results_match(
                v@,
                query_results(self@.rows, q@),
            )),
    {
        if q.page < 1 || q.pagesize < 1 {
            return Err(
                Error::DbError(
                    StoreError::Other(String::from_str("page and page size must be positive")),
                ),
            );
        }
        let ghost rows = self@.rows;
        let ghost pred = query_pred(q@);
        let mut matched: Vec<Reservation> = Vec::new();
        let n = self.rows.len();
        let mut i: usize = 0;
        while i < n
            invariant
                i <= n,
                n == self@.rows.len(),
                rows == self@.rows,
                pred == query_pred(q@),
                results_match(matched@, rows.subrange(0, i as int).filter(pred)),
            decreases n - i,
        {
            let ghost mold = matched@;
            let ghost fold = rows.subrange(0, i as int).filter(pred);
            let m = matches_query_exec(&self.rows[i], &q);
            proof {
                rows.subrange(0, i as int).lemma_filter_push(rows[i as int], pred);
                assert(rows.subrange(0, i as int).push(rows[i as int]) =~= rows.subrange(
                    0,
                    i + 1 as int,
                ));
                assert(pred(rows[i as int]) == matches_query(rows[i as int], q@));
            }
            if m {
                let res = row_to_reservation(&self.rows[i]);
                matched.push(res);
                proof {
                    let fnew = rows.subrange(0, i + 1 as int).filter(pred);
                    assert(fnew == fold.push(rows[i as int]));
                    assert forall|t: int| 0 <= t < matched@.len() implies
                        reservation_matches_row((#[trigger] matched@[t])@, fnew[t]) by {
                        if t < mold.len() {
                            assert(matched@[t] == mold[t]);
                            assert(fnew[t] == fold[t]);
                        } else {
                            assert(matched@[t] == res);
                            assert(fnew[t] == rows[i as int]);
                        }
                    }
                }
            }
            i = i + 1;
        }
        proof {
            assert(rows.subrange(0, n as int) =~= rows);
        }
        let ghost f = rows.filter(pred);
        let ghost mpre = matched@;
        let ordered = if q.desc {
            let o = reverse_reservations(matched);
            proof {
                assert forall|t: int| 0 <= t < o@.len() implies reservation_matches_row((
                #[trigger] o@[t])@, rev_rows(f)[t]) by {
                    assert(o@[t] == mpre[mpre.len() - 1 - t]);
                    assert(rev_rows(f)[t] == f[f.len() - 1 - t]);
                }
            }
            o
        } else {
            matched
        };
        let ghost omodels = if q@.desc {
            rev_rows(f)
        } else {
            f
        };
        proof {
            assert(results_match(ordered@, omodels));
        }
        let out = page_slice(ordered, q.page, q.pagesize);
        proof {
            let skip = (q@.page - 1) * q@.pagesize;
            let lo = if skip < omodels.len() {
                skip as int
            } else {
                omodels.len() as int
            };
            let hi = if skip + q@.pagesize < omodels.len() {
                skip + q@.pagesize
            } else {
                omodels.len() as int
            };
            assert(out@ == ordered@.subrange(lo, hi));
            assert(query_results(rows, q@) == omodels.subrange(lo, hi));
            assert forall|t: int| 0 <= t < out@.len() implies reservation_matches_row((
            #[trigger] out@[t])@, query_results(rows, q@)[t]) by {
                assert(out@[t] == ordered@[lo + t]);
                assert(query_results(rows, q@)[t] == omodels[lo + t]);
            }
        }
        Ok(out)
    }
}

/// Builds a [`ReservationQuery`] field by field; what is never set takes
/// its documented default: empty text filters, no window bounds, the
/// sentinel status (matching all), overlap comparison, page 1, page size
/// 10, ascending.
#[derive(Clone, Debug)]
pub struct ReservationQueryBuilder {
    user_id: Option<String>,
    resource_id: Option<String>,
    start: Option<Timestamp>,
    end: Option<Timestamp>,
    status: Option<i32>,
    mode: Option<TimeComparison>,
    page: Option<i32>,
    pagesize: Option<i32>,
    desc: Option<bool>,
}

/// The builder's chosen fields, as mathematical values.
pub ghost struct BuilderModel {
    pub user_id: Option<Seq<char>>,
    pub resource_id: Option<Seq<char>>,
    pub start: Option<i64>,
    pub end: Option<i64>,
    pub status: Option<i32>,
    pub mode: Option<TimeComparison>,
    pub page: Option<i32>,
    pub pagesize: Option<i32>,
    pub desc: Option<bool>,
}

impl View for ReservationQueryBuilder {
    type V = BuilderModel;

    closed spec fn view(&self) -> BuilderModel {
        BuilderModel {
            user_id: match self.user_id {
                Some(ref s) => Some(s@),
                None => None,
            },
            resource_id: match self.resource_id {
                Some(ref s) => Some(s@),
                None => None,
            },
            start: match self.start {
                Some(t) => Some(t.seconds),
                None => None,
            },
            end: match self.end {
                Some(t) => Some(t.seconds),
                None => None,
            },
            status: self.status,
            mode: self.mode,
            page: self.page,
            pagesize: self.pagesize,
            desc: self.desc,
        }
    }
}

/// The query a builder state denotes, defaults applied.
pub open spec fn query_of_builder(b: BuilderModel) -> QueryModel {
    QueryModel {
        user_id: match b.user_id {
            Some(s) => s,
            None => Seq::empty(),
        },
        resource_id: match b.resource_id {
            Some(s) => s,
            None => Seq::empty(),
        },
        start: b.start,
        end: b.end,
        status: match b.status {
            Some(c) => c,
            None => 0,
        },
        mode: match b.mode {
            Some(m) => m,
            None => TimeComparison::Overlaps,
        },
        page: match b.page {
            Some(p) => p,
            None => 1,
        },
        pagesize: match b.pagesize {
            Some(p) => p,
            None => 10,
        },
        desc: match b.desc {
            Some(d) => d,
            None => false,
        },
    }
}

impl Default for ReservationQueryBuilder {
    /// A builder with nothing chosen yet.
    fn default() -> (r: ReservationQueryBuilder)
        ensures
            r@ == (BuilderModel {
                user_id: None,
                resource_id: None,
                start: None,
                end: None,
                status: None,
                mode: None,
                page: None,
                pagesize: None,
                desc: None,
            }),
    {
        ReservationQueryBuilder {
            user_id: None,
            resource_id: None,
            start: None,
            end: None,
            status: None,
            mode: None,
            page: None,
            pagesize: None,
            desc: None,
        }
    }
}

impl ReservationQueryBuilder {
    pub fn user_id(self, value: &str) -> (r: ReservationQueryBuilder)
        ensures
            r@ == (BuilderModel { user_id: Some(value@), ..self@ }),
    {
        ReservationQueryBuilder { user_id: Some(value.to_owned()), ..self }
    }

    pub fn resource_id(self, value: &str) -> (r: ReservationQueryBuilder)
        ensures
            r@ == (BuilderModel { resource_id: Some(value@), ..self@ }),
    {
        ReservationQueryBuilder { resource_id: Some(value.to_owned()), ..self }
    }

    pub fn start(self, value: Timestamp) -> (r: ReservationQueryBuilder)
        ensures
            r@ == (BuilderModel { start: Some(value.seconds), ..self@ }),
    {
        ReservationQueryBuilder { start: Some(value), ..self }
    }

    pub fn end(self, value: Timestamp) -> (r: ReservationQueryBuilder)
        ensures
            r@ == (BuilderModel { end: Some(value.seconds), ..self@ }),
    {
        ReservationQueryBuilder { end: Some(value), ..self }
    }

    pub fn status(self, value: ReservationStatus) -> (r: ReservationQueryBuilder)
        ensures
            r@ == (BuilderModel { status: Some(status_code(value)), ..self@ }),
    {
        ReservationQueryBuilder { status: Some(value.to_i32()), ..self }
    }

    pub fn mode(self, value: TimeComparison) -> (r: ReservationQueryBuilder)
        ensures
            r@ == (BuilderModel { mode: Some(value), ..self@ }),
    {
        ReservationQueryBuilder { mode: Some(value), ..self }
    }

    pub fn page(self, value: i32) -> (r: ReservationQueryBuilder)
        ensures
            r@ == (BuilderModel { page: Some(value), ..self@ }),
    {
        ReservationQueryBuilder { page: Some(value), ..self }
    }

    pub fn pagesize(self, value: i32) -> (r: ReservationQueryBuilder)
        ensures
            r@ == (BuilderModel { pagesize: Some(value), ..self@ }),
    {
        ReservationQueryBuilder { pagesize: Some(value), ..self }
    }

    pub fn desc(self, value: bool) -> (r: ReservationQueryBuilder)
        ensures
            r@ == (BuilderModel { desc: Some(value), ..self@ }),
    {
        ReservationQueryBuilder { desc: Some(value), ..self }
    }

    /// The query this builder describes, defaults applied.  Building never
    /// fails.
    pub fn build(self) -> (r: Result<ReservationQuery, Error>)
        ensures
            r matches Ok(q) && q@ == query_of_builder(self@),
    {
        let q = ReservationQuery {
            user_id: match self.user_id {
                Some(s) => s,
                None => String::new(),
            },
            resource_id: match self.resource_id {
                Some(s) => s,
                None => String::new(),
            },
            start: self.start,
            end: self.end,
            status: match self.status {
                Some(c) => c,
                None => 0,
            },
            mode: match self.mode {
                Some(m) => m,
                None => TimeComparison::Overlaps,
            },
            page: match self.page {
                Some(p) => p,
                None => 1,
            },
            pagesize: match self.pagesize {
                Some(p) => p,
                None => 10,
            },
            desc: match self.desc {
                Some(d) => d,
                None => false,
            },
        };
        Ok(q)
    }
}

/// `None` for an empty optional text filter, the text itself otherwise.
pub fn str_to_option(s: &str) -> (r: Option<&str>)
    ensures
        s@.len() == 0 ==> r is None,
        s@.len() > 0 ==> (r matches Some(t) && t@ == s@),
{
    if s.is_empty() {
        None
    } else {
        Some(s)
    }
}

} // verus!
