//! The laws of the reservation engine that relate several operations: what
//! must hold across a pair of calls, proved once and for all inputs from the
//! operations' contracts.

use vstd::prelude::*;
use vstd::seq_lib::*;

use crate::manager::{
    confirm_row, conflicting_index, has_conflict, id_index, matches_query, model_end, model_start,
    new_row, pending_index, query_pred, query_results, returned_reservation, rev_rows, row_window,
    rows_wf, reservation_matches_row, RowModel, QueryModel, TimeComparison,
};
use crate::reservation::{valid_reservation, ReservationModel};
use crate::status::{status_code, ReservationStatus};
use crate::timestamp::spans_overlap;

verus! {

/// A reservation accepted by `reserve` carries a non-empty id, and one
/// submitted `Pending` — as every freshly created reservation is — comes
/// back `Pending`.
pub proof fn lemma_reserved_pending_nonempty_id(
    res: ReservationModel,
    req: ReservationModel,
    id: u64,
)
    requires
        returned_reservation(res, req, id),
        req.status == status_code(ReservationStatus::Pending),
    ensures
        res.id.len() > 0,
        res.status == status_code(ReservationStatus::Pending),
{
}

/// Exclusion after a successful insert: once a reservation's row is in the
/// store, any valid reservation for the same resource whose window overlaps
/// it collides, so a second `reserve` of it must report a conflict — of two
/// overlapping requests, at most one ever succeeds.
pub proof fn lemma_overlapping_window_excluded(
    rows0: Seq<RowModel>,
    rows1: Seq<RowModel>,
    k: int,
    row: RowModel,
    r2: ReservationModel,
)
    requires
        0 <= k <= rows0.len(),
        rows1 == rows0.insert(k, row),
        r2.resource_id == row.resource_id,
        spans_overlap(row.start, row.end, model_start(r2), model_end(r2)),
    ensures
        has_conflict(rows1, r2.resource_id, model_start(r2), model_end(r2)),
{
    rows0.insert_ensures(k, row);
    assert(rows1[k] == row);
    assert(conflicting_index(rows1, r2.resource_id, model_start(r2), model_end(r2), k));
}

/// Both windows of a reported collision carry the rejected reservation's
/// resource.
pub proof fn lemma_conflict_windows_resource(
    rows: Seq<RowModel>,
    rid: Seq<char>,
    start: i64,
    end: i64,
    j: int,
)
    requires
        conflicting_index(rows, rid, start, end, j),
    ensures
        row_window(rows[j]).rid == rid,
{
}

/// The transition `Pending` to `Confirmed` happens at most once: after it,
/// no pending row with that id remains, so a second `change_status` on the
/// same id must report `NotFound`.
pub proof fn lemma_confirm_then_not_pending(
    rows0: Seq<RowModel>,
    next_id: u64,
    j: int,
    idv: nat,
)
    requires
        rows_wf(rows0, next_id),
        pending_index(rows0, idv, j),
    ensures
        forall|t: int| !pending_index(rows0.update(j, confirm_row(rows0[j])), idv, t),
{
    let rows1 = rows0.update(j, confirm_row(rows0[j]));
    assert forall|t: int| !pending_index(rows1, idv, t) by {
        if 0 <= t < rows1.len() {
            if t == j {
                assert(rows1[t].status == ReservationStatus::Confirmed);
            } else {
                assert(rows1[t] == rows0[t]);
                if t < j {
                    assert(rows0[t].id != rows0[j].id);
                } else {
                    assert(rows0[j].id != rows0[t].id);
                }
            }
        }
    }
}

/// A deleted id reads back as absent: once no row carries the id, a `get`
/// of it must report `NotFound`.
pub proof fn lemma_deleted_id_absent(rows: Seq<RowModel>, idv: nat)
    requires
        forall|t: int| 0 <= t < rows.len() ==> (#[trigger] rows[t]).id as nat != idv,
    ensures
        !(exists|j: int| id_index(rows, idv, j)),
{
}

/// Round trip: a valid reservation accepted by `reserve` and fetched back
/// by any id that reads as the fresh one yields every submitted field
/// intact — user, resource, both timestamps at one-second resolution, and
/// the note — and the very status that `reserve` reported persisting.
pub proof fn lemma_reserve_then_get_round_trip(
    rows0: Seq<RowModel>,
    rows1: Seq<RowModel>,
    k: int,
    id: u64,
    req: ReservationModel,
    res: ReservationModel,
    fetched: ReservationModel,
)
    requires
        0 <= k <= rows0.len(),
        forall|t: int| 0 <= t < rows0.len() ==> (#[trigger] rows0[t]).id < id,
        rows1 == rows0.insert(k, new_row(id, req)),
        valid_reservation(req),
        returned_reservation(res, req, id),
        exists|j: int|
            id_index(rows1, id as nat, j) && reservation_matches_row(fetched, rows1[j]),
    ensures
        fetched.user_id == req.user_id,
        fetched.resource_id == req.resource_id,
        fetched.start_time == req.start_time,
        fetched.end_time == req.end_time,
        fetched.note == req.note,
        fetched.status == res.status,
{
    rows0.insert_ensures(k, new_row(id, req));
    let j = choose|j: int|
        id_index(rows1, id as nat, j) && reservation_matches_row(fetched, rows1[j]);
    assert(rows1[j].id == id);
    if j < k {
        assert(rows1[j] == rows0[j]);
        assert(false);
    } else if j > k {
        assert(rows1[j] == rows0[j - 1]);
        assert(false);
    }
    assert(rows1[j] == new_row(id, req));
}

/// No row passes a filter that nothing satisfies.
proof fn lemma_filter_none(s: Seq<RowModel>, pred: spec_fn(RowModel) -> bool)
    requires
        forall|t: int| 0 <= t < s.len() ==> !pred(#[trigger] s[t]),
    ensures
        s.filter(pred) == Seq::<RowModel>::empty(),
    decreases s.len(),
{
    reveal(Seq::filter);
    if s.len() > 0 {
        assert(!pred(s.last()));
        lemma_filter_none(s.drop_last(), pred);
        assert(s.filter(pred) =~= Seq::<RowModel>::empty());
    } else {
        assert(s.filter(pred) =~= Seq::<RowModel>::empty());
    }
}

/// A filter satisfied at exactly one index keeps exactly that element.
proof fn lemma_filter_single(s: Seq<RowModel>, pred: spec_fn(RowModel) -> bool, j: int)
    requires
        0 <= j < s.len(),
        pred(s[j]),
        forall|t: int| 0 <= t < s.len() && t != j ==> !pred(#[trigger] s[t]),
    ensures
        s.filter(pred) == seq![s[j]],
    decreases s.len(),
{
    reveal(Seq::filter);
    if j == s.len() - 1 {
        lemma_filter_none(s.drop_last(), pred);
        assert(s.filter(pred) =~= seq![s[j]]);
    } else {
        lemma_filter_single(s.drop_last(), pred, j);
        assert(s.drop_last()[j] == s[j]);
        assert(!pred(s.last()));
        assert(s.filter(pred) =~= seq![s[j]]);
    }
}

/// A query window strictly before every stored reservation of its resource
/// overlaps none of them: the query comes back empty, whatever the
/// requested page.
pub proof fn lemma_query_before_all_empty(rows: Seq<RowModel>, q: QueryModel, e: i64)
    requires
        q.page >= 1,
        q.pagesize >= 1,
        q.mode == TimeComparison::Overlaps,
        q.resource_id.len() > 0,
        q.end == Some(e),
        forall|t: int|
            0 <= t < rows.len() && (#[trigger] rows[t]).resource_id == q.resource_id ==> e
                <= rows[t].start,
    ensures
        query_results(rows, q) == Seq::<RowModel>::empty(),
{
    assert forall|t: int| 0 <= t < rows.len() implies !query_pred(q)(#[trigger] rows[t]) by {
        if rows[t].resource_id == q.resource_id {
            assert(!(rows[t].start < e));
            assert(!matches_query(rows[t], q));
        } else {
            assert(!matches_query(rows[t], q));
        }
    }
    lemma_filter_none(rows, query_pred(q));
    assert(rev_rows(Seq::<RowModel>::empty()) =~= Seq::<RowModel>::empty());
    assert(query_results(rows, q) =~= Seq::<RowModel>::empty());
}

/// A query whose filters match exactly one stored row returns exactly that
/// row on the first page of any positive size.
pub proof fn lemma_query_single_match(rows: Seq<RowModel>, q: QueryModel, j: int)
    requires
        q.page == 1,
        q.pagesize >= 1,
        !q.desc,
        0 <= j < rows.len(),
        matches_query(rows[j], q),
        forall|t: int| 0 <= t < rows.len() && t != j ==> !matches_query(#[trigger] rows[t], q),
    ensures
        query_results(rows, q) == seq![rows[j]],
{
    assert forall|t: int|
        0 <= t < rows.len() && t != j implies !query_pred(q)(#[trigger] rows[t]) by {
        assert(!matches_query(rows[t], q));
    }
    assert(query_pred(q)(rows[j]));
    lemma_filter_single(rows, query_pred(q), j);
    let f = rows.filter(query_pred(q));
    assert(f == seq![rows[j]]);
    assert(query_results(rows, q) =~= seq![rows[j]]);
}

} // verus!
