//! The workflow on top of the task table: one task in progress at a time,
//! and a fixed rule for which pending task is started next.

use vstd::prelude::*;
use crate::error::StoreError;
use crate::status::Status;
use crate::store::{
    first_active, has_id, has_status, ids_increasing, is_first_active, is_next_pending,
    lemma_next_pending_unique, next_pending, set_status, single_active, without_cancelled,
    TaskStore,
};
use crate::task::Task;

verus! {

/// What an attempt to start a task came to.
#[derive(Debug, Clone, Copy, PartialEq, Eq, Structural)]
pub enum Advance {
    /// The task with this id is now in progress.
    Started(i64),
    /// Refused: the task with this id is in progress already.
    AlreadyActive(i64),
    /// No id was named and no task is pending.
    NoneWaiting,
    /// The id that was named belongs to no task.
    NotFound(i64),
}

/// What starting a task comes to when nothing is checked first: the named id
/// if it exists, else the pending task that is next in line.
pub open spec fn promote_outcome(rows: Seq<Task>, id: Option<i64>) -> Advance {
    match id {
        Some(x) => if has_id(rows, x) {
            Advance::Started(x)
        } else {
            Advance::NotFound(x)
        },
        None => match next_pending(rows) {
            Some(x) => Advance::Started(x),
            None => Advance::NoneWaiting,
        },
    }
}

/// What an advance comes to: refused while a task is in progress, else as
/// `promote_outcome` says.
pub open spec fn advance_outcome(rows: Seq<Task>, id: Option<i64>) -> Advance {
    match first_active(rows) {
        Some(t) => Advance::AlreadyActive(t.id),
        None => promote_outcome(rows, id),
    }
}

/// The rows after an advance with the given outcome.
pub open spec fn rows_after(rows: Seq<Task>, outcome: Advance) -> Seq<Task> {
    match outcome {
        Advance::Started(x) => set_status(rows, x, Status::InProgress),
        _ => rows,
    }
}

/// The rows after the task in progress, if any, has been set back to pending.
pub open spec fn rows_after_pause(rows: Seq<Task>) -> Seq<Task> {
    match first_active(rows) {
        Some(t) => set_status(rows, t.id, Status::Pending),
        None => rows,
    }
}

/// The id of the task in progress, if any.
pub open spec fn active_id(rows: Seq<Task>) -> Option<i64> {
    match first_active(rows) {
        Some(t) => Some(t.id),
        None => None,
    }
}

/// `first_active` is `None` exactly when no row is in progress.
pub proof fn lemma_first_active_none(rows: Seq<Task>)
    ensures
        first_active(rows) is None <==> !has_status(rows, Status::InProgress),
        first_active(rows) matches Some(t) ==> t.status == Status::InProgress && has_id(rows, t.id)
            && rows.contains(t),
{
    if has_status(rows, Status::InProgress) {
        let i = choose|i: int| 0 <= i < rows.len() && rows[i].status == Status::InProgress;
        lemma_some_first_active(rows, i);
    }
    if exists|i: int| is_first_active(rows, i) {
        let c = choose|i: int| is_first_active(rows, i);
        assert(rows[c].status == Status::InProgress);
        assert(rows[c].id == rows[c].id);
    }
}

/// Where a row in progress stands at `i`, there is a first one at or before `i`.
proof fn lemma_some_first_active(rows: Seq<Task>, i: int)
    requires
        0 <= i < rows.len(),
        rows[i].status == Status::InProgress,
    ensures
        exists|k: int| is_first_active(rows, k),
    decreases i,
{
    if exists|j: int| 0 <= j < i && rows[j].status == Status::InProgress {
        let j = choose|j: int| 0 <= j < i && rows[j].status == Status::InProgress;
        lemma_some_first_active(rows, j);
    } else {
        assert(is_first_active(rows, i));
    }
}

/// Giving rows a status other than in-progress cannot add a second task in progress.
pub proof fn lemma_leaving_keeps_single_active(rows: Seq<Task>, id: i64, status: Status)
    requires
        single_active(rows),
        status != Status::InProgress,
    ensures
        single_active(set_status(rows, id, status)),
{
    let after = set_status(rows, id, status);
    assert forall|i: int, j: int|
        0 <= i < after.len() && 0 <= j < after.len() && after[i].status == Status::InProgress
            && after[j].status == Status::InProgress implies i == j by {
        assert(rows[i].status == Status::InProgress);
        assert(rows[j].status == Status::InProgress);
    }
}

/// Starting one task while none is in progress leaves exactly that one in progress.
pub proof fn lemma_start_gives_single_active(rows: Seq<Task>, id: i64)
    requires
        ids_increasing(rows),
        !has_status(rows, Status::InProgress),
    ensures
        single_active(set_status(rows, id, Status::InProgress)),
{
    let after = set_status(rows, id, Status::InProgress);
    assert forall|i: int, j: int|
        0 <= i < after.len() && 0 <= j < after.len() && after[i].status == Status::InProgress
            && after[j].status == Status::InProgress implies i == j by {
        assert(rows[i].status != Status::InProgress);
        assert(rows[j].status != Status::InProgress);
        if i < j {
            assert(rows[i].id < rows[j].id);
        } else if j < i {
            assert(rows[j].id < rows[i].id);
        }
    }
}

/// Removing the cancelled rows cannot add a second task in progress.
pub proof fn lemma_removal_keeps_single_active(rows: Seq<Task>)
    requires
        ids_increasing(rows),
        ids_increasing(without_cancelled(rows)),
        single_active(rows),
    ensures
        single_active(without_cancelled(rows)),
{
    let kept = without_cancelled(rows);
    let pred = |t: Task| t.status != Status::Cancelled;
    assert forall|i: int, j: int|
        0 <= i < kept.len() && 0 <= j < kept.len() && kept[i].status == Status::InProgress
            && kept[j].status == Status::InProgress implies i == j by {
        rows.lemma_filter_contains_rev(pred, kept[i]);
        rows.lemma_filter_contains_rev(pred, kept[j]);
        assert(kept.contains(kept[i]));
        assert(kept.contains(kept[j]));
        let a = choose|a: int| 0 <= a < rows.len() && rows[a] == kept[i];
        let b = choose|b: int| 0 <= b < rows.len() && rows[b] == kept[j];
        assert(a == b);
        if i < j {
            assert(kept[i].id < kept[j].id);
        } else if j < i {
            assert(kept[j].id < kept[i].id);
        }
    }
}

/// With exactly one pending row, starting the task next in line starts that
/// row and leaves every other row as it was; an advance does the same
/// unless a task is in progress.
pub proof fn lemma_sole_pending_is_started(rows: Seq<Task>, i: int)
    requires
        ids_increasing(rows),
        0 <= i < rows.len(),
        rows[i].status == Status::Pending,
        forall|j: int| 0 <= j < rows.len() && j != i ==> (#[trigger] rows[j]).status != Status::Pending,
    ensures
        promote_outcome(rows, None) == Advance::Started(rows[i].id),
        rows_after(rows, promote_outcome(rows, None)) == rows.update(
            i,
            rows[i].with_status(Status::InProgress),
        ),
        !has_status(rows, Status::InProgress) ==> advance_outcome(rows, None) == promote_outcome(
            rows,
            None,
        ),
{
    assert(is_next_pending(rows, i));
    let c = choose|k: int| is_next_pending(rows, k);
    lemma_next_pending_unique(rows, c, i);
    let id = rows[i].id;
    assert forall|k: int| 0 <= k < rows.len() && k != i implies rows[k].id != id by {
        if k < i {
            assert(rows[k].id < rows[i].id);
        } else {
            assert(rows[i].id < rows[k].id);
        }
    }
    assert(set_status(rows, id, Status::InProgress) =~= rows.update(
        i,
        rows[i].with_status(Status::InProgress),
    ));
    lemma_first_active_none(rows);
}

/// With no pending row, starting the task next in line reports that none is
/// waiting, and neither that nor an advance changes any row.
pub proof fn lemma_none_pending(rows: Seq<Task>)
    requires
        !has_status(rows, Status::Pending),
    ensures
        promote_outcome(rows, None) == Advance::NoneWaiting,
        rows_after(rows, promote_outcome(rows, None)) == rows,
        rows_after(rows, advance_outcome(rows, None)) == rows,
        !has_status(rows, Status::InProgress) ==> advance_outcome(rows, None)
            == Advance::NoneWaiting,
{
    assert forall|i: int| !is_next_pending(rows, i) by {
        if 0 <= i < rows.len() {
            assert(rows[i].status != Status::Pending);
        }
    }
    lemma_first_active_none(rows);
}

/// Starts the named task, or the pending task next in line where none is
/// named, without asking whether another task is in progress.
pub fn promote(store: &mut TaskStore, id: Option<i64>) -> (r: Advance)
    requires
        old(store).well_formed(),
    ensures
        final(store).well_formed(),
        final(store).last_id() == old(store).last_id(),
        r == promote_outcome(old(store).rows(), id),
        final(store).rows() == rows_after(old(store).rows(), r),
{
    let target = match id {
        Some(x) => Some(x),
        None => store.find_next_pending(),
    };
    match target {
        None => Advance::NoneWaiting,
        Some(x) => {
            proof {
                if id is None {
                    let i = choose|i: int|
                        is_next_pending(store.rows(), i) && store.rows()[i].id == x;
                    assert(has_id(store.rows(), x));
                }
            }
            match store.update_status(x, Status::InProgress) {
                Ok(()) => Advance::Started(x),
                Err(_) => Advance::NotFound(x),
            }
        },
    }
}

/// Starts a task unless one is in progress already: the named one, or the
/// pending task next in line.
pub fn advance(store: &mut TaskStore, id: Option<i64>) -> (r: Advance)
    requires
        old(store).well_formed(),
    ensures
        final(store).well_formed(),
        final(store).last_id() == old(store).last_id(),
        r == advance_outcome(old(store).rows(), id),
        final(store).rows() == rows_after(old(store).rows(), r),
        single_active(old(store).rows()) ==> single_active(final(store).rows()),
{
    match store.find_active() {
        Some(t) => Advance::AlreadyActive(t.id),
        None => {
            proof {
                lemma_first_active_none(store.rows());
                match promote_outcome(store.rows(), id) {
                    Advance::Started(x) => lemma_start_gives_single_active(store.rows(), x),
                    _ => {},
                }
            }
            promote(store, id)
        },
    }
}

/// Marks the task completed, whatever its status was. Fails, and changes
/// nothing, when no task has the id.
pub fn complete(store: &mut TaskStore, id: i64) -> (r: Result<(), StoreError>)
    requires
        old(store).well_formed(),
    ensures
        final(store).well_formed(),
        final(store).last_id() == old(store).last_id(),
        r is Ok <==> has_id(old(store).rows(), id),
        r is Ok ==> final(store).rows() == set_status(old(store).rows(), id, Status::Completed),
        r matches Err(e) ==> e == StoreError::NotFound(id) && final(store).rows() == old(
            store,
        ).rows(),
        single_active(old(store).rows()) ==> single_active(final(store).rows()),
{
    proof {
        if single_active(store.rows()) {
            lemma_leaving_keeps_single_active(store.rows(), id, Status::Completed);
        }
    }
    store.update_status(id, Status::Completed)
}

/// Marks the task cancelled, whatever its status was. Fails, and changes
/// nothing, when no task has the id.
pub fn cancel(store: &mut TaskStore, id: i64) -> (r: Result<(), StoreError>)
    requires
        old(store).well_formed(),
    ensures
        final(store).well_formed(),
        final(store).last_id() == old(store).last_id(),
        r is Ok <==> has_id(old(store).rows(), id),
        r is Ok ==> final(store).rows() == set_status(old(store).rows(), id, Status::Cancelled),
        r matches Err(e) ==> e == StoreError::NotFound(id) && final(store).rows() == old(
            store,
        ).rows(),
        single_active(old(store).rows()) ==> single_active(final(store).rows()),
{
    proof {
        if single_active(store.rows()) {
            lemma_leaving_keeps_single_active(store.rows(), id, Status::Cancelled);
        }
    }
    store.update_status(id, Status::Cancelled)
}

/// Sets the task in progress back to pending and returns its id; `None`,
/// and no change, when no task is in progress.
pub fn pause(store: &mut TaskStore) -> (r: Option<i64>)
    requires
        old(store).well_formed(),
    ensures
        final(store).well_formed(),
        final(store).last_id() == old(store).last_id(),
        r == active_id(old(store).rows()),
        final(store).rows() == rows_after_pause(old(store).rows()),
        single_active(old(store).rows()) ==> single_active(final(store).rows()),
{
    match store.find_active() {
        None => None,
        Some(t) => {
            proof {
                lemma_first_active_none(store.rows());
                if single_active(store.rows()) {
                    lemma_leaving_keeps_single_active(store.rows(), t.id, Status::Pending);
                }
            }
            let _ = store.update_status(t.id, Status::Pending);
            Some(t.id)
        },
    }
}

/// Removes the cancelled tasks for good and returns how many there were.
pub fn collect_cancelled(store: &mut TaskStore) -> (removed: usize)
    requires
        old(store).well_formed(),
    ensures
        final(store).well_formed(),
        final(store).last_id() == old(store).last_id(),
        final(store).rows() == without_cancelled(old(store).rows()),
        removed == old(store).rows().len() - final(store).rows().len(),
        single_active(old(store).rows()) ==> single_active(final(store).rows()),
{
    let ghost before = store.rows();
    let removed = store.delete_cancelled();
    proof {
        if single_active(before) {
            lemma_removal_keeps_single_active(before);
        }
    }
    removed
}

} // verus!
