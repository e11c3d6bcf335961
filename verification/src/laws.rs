//! The ordering and exclusivity laws of the queue, stated over the table
//! model that the service's contracts speak of.
//!
//! A claim takes exactly the top pending row (`fetch_and_start`'s contract),
//! so the ordering laws here pin which job a claim can return. The
//! exclusivity laws say that once a row stops being pending — and ids are
//! never reused — no run of the table's primitives ever makes its id
//! claimable again, so no id is ever handed to two callers.

use vstd::prelude::*;

use crate::table::{
    claimable, finishable, ids_increasing, is_pending, is_started, is_top_pending,
    lemma_ids_unique, started, RowModel,
};

verus! {

/// The claim candidate is unique: at most one row is the top pending one.
pub proof fn lemma_top_pending_unique(s: Seq<RowModel>, i: int, j: int)
    requires
        is_top_pending(s, i),
        is_top_pending(s, j),
    ensures
        i == j,
{
    if i != j {
        assert(crate::table::beats(s[i], s[j]));
        assert(crate::table::beats(s[j], s[i]));
    }
}

/// Priority ordering: while a strictly higher-priority job is pending, a
/// lower-priority pending job is never the claim candidate, whatever order
/// the two were enqueued in.
pub proof fn lemma_priority_ordering(s: Seq<RowModel>, i: int, j: int, k: int)
    requires
        0 <= i < s.len(),
        0 <= j < s.len(),
        is_pending(s[i]),
        is_pending(s[j]),
        s[i].priority > s[j].priority,
        is_top_pending(s, k),
    ensures
        k != j,
{
    if k == j {
        assert(crate::table::beats(s[j], s[i]));
    }
}

/// FIFO tie-break: among equal-priority pending jobs, one enqueued later —
/// its id is larger — is never the claim candidate while an earlier one is
/// still pending.
pub proof fn lemma_fifo_tie_break(s: Seq<RowModel>, i: int, j: int, k: int)
    requires
        0 <= i < s.len(),
        0 <= j < s.len(),
        is_pending(s[i]),
        is_pending(s[j]),
        s[i].priority == s[j].priority,
        s[i].id < s[j].id,
        is_top_pending(s, k),
    ensures
        k != j,
{
    if k == j {
        assert(crate::table::beats(s[j], s[i]));
    }
}

/// A claim is exclusive: after the conditional update marks the row at `i`
/// started, no row under that id is pending any more.
pub proof fn lemma_claim_makes_unclaimable(s: Seq<RowModel>, i: int, t: i64)
    requires
        ids_increasing(s),
        0 <= i < s.len(),
    ensures
        !claimable(s.update(i, started(s[i], t)), s[i].id),
{
    let s2 = s.update(i, started(s[i], t));
    assert forall|j: int| 0 <= j < s2.len() implies !((#[trigger] s2[j]).id == s[i].id
        && is_pending(s2[j])) by {
        if j != i {
            lemma_ids_unique(s, j, i);
        }
    }
}

/// Exclusivity is preserved by insertion: a fresh row under a different id
/// cannot make an unclaimable id claimable.
pub proof fn lemma_unclaimable_after_insert(s: Seq<RowModel>, r: RowModel, id: u64)
    requires
        !claimable(s, id),
        r.id != id,
    ensures
        !claimable(s.push(r), id),
{
    let s2 = s.push(r);
    assert forall|j: int| 0 <= j < s2.len() implies !((#[trigger] s2[j]).id == id && is_pending(
        s2[j],
    )) by {
        if j < s.len() {
            assert(s2[j] == s[j]);
        }
    }
}

/// Exclusivity is preserved by the conditional update: marking any row
/// started cannot make an unclaimable id claimable.
pub proof fn lemma_unclaimable_after_start(s: Seq<RowModel>, i: int, t: i64, id: u64)
    requires
        !claimable(s, id),
        0 <= i < s.len(),
    ensures
        !claimable(s.update(i, started(s[i], t)), id),
{
    let s2 = s.update(i, started(s[i], t));
    assert forall|j: int| 0 <= j < s2.len() implies !((#[trigger] s2[j]).id == id && is_pending(
        s2[j],
    )) by {
        if j != i {
            assert(s2[j] == s[j]);
        }
    }
}

/// Exclusivity is preserved by the conditional delete: removing a row cannot
/// make an unclaimable id claimable.
pub proof fn lemma_unclaimable_after_remove(s: Seq<RowModel>, i: int, id: u64)
    requires
        !claimable(s, id),
        0 <= i < s.len(),
    ensures
        !claimable(s.remove(i), id),
{
    let s2 = s.remove(i);
    assert forall|j: int| 0 <= j < s2.len() implies !((#[trigger] s2[j]).id == id && is_pending(
        s2[j],
    )) by {
        if j < i {
            assert(s2[j] == s[j]);
        } else {
            assert(s2[j] == s[j + 1]);
        }
    }
}

/// Finish idempotence: deleting the claimed row under `id` leaves no row to
/// finish under `id`, so by `finish_job`'s contract a second completion of
/// the same id fails with `JobAborted` where the first succeeded.
pub proof fn lemma_finish_idempotent(s: Seq<RowModel>, k: int, id: u64)
    requires
        ids_increasing(s),
        0 <= k < s.len(),
        s[k].id == id,
        is_started(s[k]),
    ensures
        !finishable(s.remove(k), id),
{
    let s2 = s.remove(k);
    assert forall|j: int| 0 <= j < s2.len() implies !((#[trigger] s2[j]).id == id && is_started(
        s2[j],
    )) by {
        if j < k {
            assert(s2[j] == s[j]);
            lemma_ids_unique(s, j, k);
        } else {
            assert(s2[j] == s[j + 1]);
            lemma_ids_unique(s, j + 1, k);
        }
    }
}

/// Abort on premature finish: while every row under `id` is still pending —
/// in particular when the job was never claimed — nothing is finishable
/// under `id`, so by `finish_job`'s contract completion fails with
/// `JobAborted` and changes nothing.
pub proof fn lemma_premature_finish_aborts(s: Seq<RowModel>, id: u64)
    requires
        forall|j: int| 0 <= j < s.len() && (#[trigger] s[j]).id == id ==> is_pending(s[j]),
    ensures
        !finishable(s, id),
{
}

} // verus!
