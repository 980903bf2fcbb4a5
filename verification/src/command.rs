//! One request to the tracker, what it reports back, and the row changes
//! that it makes.

use vstd::prelude::*;
use vstd::string::StringExecFns;
use crate::date::{
    current_timestamp, day_offset, due_result, due_timestamp, parsed_date, INPUT_FORMAT,
};
use crate::error::StoreError;
use crate::scheduler::{
    active_id, advance, advance_outcome, cancel, collect_cancelled, complete,
    lemma_first_active_none, lemma_leaving_keeps_single_active, lemma_start_gives_single_active,
    pause, promote, promote_outcome,
    rows_after, rows_after_pause, Advance,
};
use crate::status::Status;
use crate::store::{
    first_active, has_id, has_status, ids_increasing, is_listing, is_next_pending,
    lemma_next_pending_exists, lemma_set_status_one_row, new_row, picked_before, set_status,
    single_active, without_cancelled, Scope, TaskStore,
};
use crate::task::Task;

verus! {

/// A request, with everything it needs already in plain values.
#[derive(Debug)]
#[allow(inconsistent_fields)]
pub enum Command {
    /// Record a new task.
    Add { task: String, priority: Option<i64>, due_at: Option<i64>, created_at: i64 },
    /// List tasks; `all` wins over `completed`.
    List { all: bool, completed: bool },
    /// Start the named task, or the one next in line.
    Next { id: Option<i64> },
    /// Mark a task completed and, if asked, start the next one.
    Done { id: i64, next: bool },
    /// Show the task in progress.
    Show,
    /// Set the task in progress back to pending.
    Pause,
    /// Mark a task cancelled and, if asked, delete the cancelled tasks.
    Cancel { id: i64, delete: bool },
    /// Delete the cancelled tasks.
    Gc,
}

/// What a request came to.
#[derive(Debug)]
pub enum Report {
    Added(Result<i64, StoreError>),
    Listed(Vec<Task>),
    Advanced(Advance),
    Done { done: Result<(), StoreError>, next: Option<Advance> },
    Shown(Option<Task>),
    Paused(Option<i64>),
    Cancelled { cancelled: Result<(), StoreError>, removed: Option<usize> },
    Collected(usize),
}

/// One change to the stored rows.
#[derive(Debug)]
pub enum Change {
    /// A new row at the end.
    Insert(Task),
    /// The row with the id gets the status.
    SetStatus(i64, Status),
    /// Every cancelled row goes.
    DeleteCancelled,
}

/// The listing that the two flags ask for.
pub open spec fn scope_of(all: bool, completed: bool) -> Scope {
    if all {
        Scope::All
    } else if completed {
        Scope::CompletedOnly
    } else {
        Scope::ActiveView
    }
}

/// The rows after one change.
pub open spec fn apply_change(rows: Seq<Task>, change: Change) -> Seq<Task> {
    match change {
        Change::Insert(t) => rows.push(t),
        Change::SetStatus(id, status) => set_status(rows, id, status),
        Change::DeleteCancelled => without_cancelled(rows),
    }
}

/// The rows after a run of changes, made in order.
pub open spec fn replay(rows: Seq<Task>, changes: Seq<Change>) -> Seq<Task>
    decreases changes.len(),
{
    if changes.len() == 0 {
        rows
    } else {
        apply_change(replay(rows, changes.drop_last()), changes.last())
    }
}

/// The rows once a status change has been tried on `id`.
pub open spec fn rows_marked(rows: Seq<Task>, id: i64, status: Status) -> Seq<Task> {
    if has_id(rows, id) {
        set_status(rows, id, status)
    } else {
        rows
    }
}

/// Whether `result` is what a status change on `id` reports: success where
/// a row has the id, else that the id was not found.
pub open spec fn mark_fits(rows: Seq<Task>, id: i64, result: Result<(), StoreError>) -> bool {
    match result {
        Ok(_) => has_id(rows, id),
        Err(e) => !has_id(rows, id) && e == StoreError::NotFound(id),
    }
}

/// The change that an advance with the given outcome makes: the status
/// change of the task that was started, if one was.
pub open spec fn advance_changes(outcome: Advance) -> Seq<Change> {
    match outcome {
        Advance::Started(x) => seq![Change::SetStatus(x, Status::InProgress)],
        _ => Seq::<Change>::empty(),
    }
}

/// The change that a status change on `id` makes: one where a row has the
/// id, none where not.
pub open spec fn mark_changes(rows: Seq<Task>, id: i64, status: Status) -> Seq<Change> {
    if has_id(rows, id) {
        seq![Change::SetStatus(id, status)]
    } else {
        Seq::<Change>::empty()
    }
}

/// The changes that a request makes to the rows, in order, given the rows
/// and the last id before it.
pub open spec fn changes_for(rows: Seq<Task>, last_id: i64, command: Command) -> Seq<Change> {
    match command {
        Command::Add { task, priority, due_at, created_at } => if last_id < i64::MAX {
            seq![
                Change::Insert(new_row((last_id + 1) as i64, task, priority, due_at, created_at)),
            ]
        } else {
            Seq::<Change>::empty()
        },
        Command::List { all, completed } => Seq::<Change>::empty(),
        Command::Next { id } => advance_changes(advance_outcome(rows, id)),
        Command::Done { id, next } => {
            let marked = rows_marked(rows, id, Status::Completed);
            mark_changes(rows, id, Status::Completed) + (if next && first_active(marked) is None {
                advance_changes(promote_outcome(marked, None))
            } else {
                Seq::<Change>::empty()
            })
        },
        Command::Show => Seq::<Change>::empty(),
        Command::Pause => match active_id(rows) {
            Some(id) => seq![Change::SetStatus(id, Status::Pending)],
            None => Seq::<Change>::empty(),
        },
        Command::Cancel { id, delete } => mark_changes(rows, id, Status::Cancelled) + (if delete {
            seq![Change::DeleteCancelled]
        } else {
            Seq::<Change>::empty()
        }),
        Command::Gc => seq![Change::DeleteCancelled],
    }
}

/// The last id handed out after a request: one more after an addition
/// that found an id left, else as before.
pub open spec fn last_id_after_command(last_id: i64, command: Command) -> int {
    if command is Add && last_id < i64::MAX {
        last_id + 1
    } else {
        last_id as int
    }
}

/// How many rows the removal of the cancelled ones takes away.
pub open spec fn cancelled_count(rows: Seq<Task>) -> int {
    rows.len() - without_cancelled(rows).len()
}

/// The rows after a request, given the rows and the last id before it.
pub open spec fn rows_after_command(rows: Seq<Task>, last_id: i64, command: Command) -> Seq<Task> {
    match command {
        Command::Add { task, priority, due_at, created_at } => if last_id < i64::MAX {
            rows.push(new_row((last_id + 1) as i64, task, priority, due_at, created_at))
        } else {
            rows
        },
        Command::List { all, completed } => rows,
        Command::Next { id } => rows_after(rows, advance_outcome(rows, id)),
        Command::Done { id, next } => {
            let marked = rows_marked(rows, id, Status::Completed);
            if next && first_active(marked) is None {
                rows_after(marked, promote_outcome(marked, None))
            } else {
                marked
            }
        },
        Command::Show => rows,
        Command::Pause => rows_after_pause(rows),
        Command::Cancel { id, delete } => {
            let marked = rows_marked(rows, id, Status::Cancelled);
            if delete {
                without_cancelled(marked)
            } else {
                marked
            }
        },
        Command::Gc => without_cancelled(rows),
    }
}

/// Whether `report` is what the request reports on the given rows.
pub open spec fn report_fits(rows: Seq<Task>, last_id: i64, command: Command, report: Report) -> bool {
    match command {
        Command::Add { task, priority, due_at, created_at } => report matches Report::Added(r) && r
            == (if last_id < i64::MAX {
            Ok::<i64, StoreError>((last_id + 1) as i64)
        } else {
            Err::<i64, StoreError>(StoreError::IdsExhausted)
        }),
        Command::List { all, completed } => report matches Report::Listed(v) && is_listing(
            rows,
            scope_of(all, completed),
            v@,
        ),
        Command::Next { id } => report == Report::Advanced(advance_outcome(rows, id)),
        Command::Done { id, next } => {
            let marked = rows_marked(rows, id, Status::Completed);
            report matches Report::Done { done, next: chained } && mark_fits(rows, id, done)
                && chained == (if next && first_active(marked) is None {
                Some(promote_outcome(marked, None))
            } else {
                None
            })
        },
        Command::Show => report == Report::Shown(first_active(rows)),
        Command::Pause => report == Report::Paused(active_id(rows)),
        Command::Cancel { id, delete } => {
            let marked = rows_marked(rows, id, Status::Cancelled);
            report matches Report::Cancelled { cancelled, removed } && mark_fits(
                rows,
                id,
                cancelled,
            ) && (if delete {
                removed matches Some(n) && n == cancelled_count(marked)
            } else {
                removed is None
            })
        },
        Command::Gc => report matches Report::Collected(n) && n == cancelled_count(rows),
    }
}

/// A run of changes extended by one more is replayed by replaying the run
/// and then making that change.
pub proof fn lemma_replay_push(rows: Seq<Task>, changes: Seq<Change>, change: Change)
    ensures
        replay(rows, changes.push(change)) == apply_change(replay(rows, changes), change),
        replay(rows, Seq::<Change>::empty()) == rows,
{
    assert(changes.push(change).drop_last() =~= changes);
}

impl Command {
    /// The request to record a task as the user describes it, stamped with
    /// the current time. The priority is passed on as given; a due date is
    /// read as day.month.year, and one that cannot be read is left out.
    pub fn add(task: &str, priority: Option<i64>, due: Option<String>) -> (command: Command)
        ensures
            command matches Command::Add { task: text, priority: p, due_at, created_at } && text@
                == task@ && p == priority && (due is None ==> due_at is None) && (due matches Some(
                written,
            ) && parsed_date(written@, INPUT_FORMAT@) is None ==> due_at is None) && exists|
                offset: Option<i32>,
            |
                (offset matches Some(o) ==> day_offset(o)) && due_at == #[trigger] due_result(
                    due,
                    offset,
                ),
    {
        let due_at = due_timestamp(due);
        let created_at = current_timestamp();
        Command::Add { task: String::from_str(task), priority, due_at, created_at }
    }
}

impl Scope {
    /// The listing that the two flags ask for: `all` wins, then `completed`,
    /// else the active view.
    pub fn from_flags(all: bool, completed: bool) -> (scope: Scope)
        ensures
            scope == scope_of(all, completed),
    {
        if all {
            Scope::All
        } else if completed {
            Scope::CompletedOnly
        } else {
            Scope::ActiveView
        }
    }
}

/// The change that an advance with the given outcome made, added to `changes`.
fn note_advance(changes: &mut Vec<Change>, outcome: Advance, Ghost(rows): Ghost<Seq<Task>>)
    ensures
        replay(rows, final(changes)@) == rows_after(replay(rows, old(changes)@), outcome),
        final(changes)@ == old(changes)@ + advance_changes(outcome),
{
    match outcome {
        Advance::Started(x) => {
            proof {
                lemma_replay_push(rows, changes@, Change::SetStatus(x, Status::InProgress));
            }
            changes.push(Change::SetStatus(x, Status::InProgress));
        },
        _ => {},
    }
    proof {
        assert(changes@ =~= old(changes)@ + advance_changes(outcome));
    }
}

/// The change that a status change on `id` made, if it went through, added to `changes`.
fn note_mark(
    changes: &mut Vec<Change>,
    result: &Result<(), StoreError>,
    id: i64,
    status: Status,
    Ghost(rows): Ghost<Seq<Task>>,
)
    requires
        mark_fits(replay(rows, old(changes)@), id, *result),
    ensures
        replay(rows, final(changes)@) == rows_marked(replay(rows, old(changes)@), id, status),
        final(changes)@ == (if *result is Ok {
            old(changes)@.push(Change::SetStatus(id, status))
        } else {
            old(changes)@
        }),
{
    match result {
        Ok(()) => {
            proof {
                lemma_replay_push(rows, changes@, Change::SetStatus(id, status));
            }
            changes.push(Change::SetStatus(id, status));
        },
        Err(_) => {},
    }
}

/// Gives the task with the id the status, whatever its status was. Returns
/// whether a task has the id, and the change made to the rows: one status
/// change where a task has it, none where not.
pub fn mark(store: &mut TaskStore, id: i64, status: Status) -> (r: (
    Result<(), StoreError>,
    Vec<Change>,
))
    requires
        old(store).well_formed(),
    ensures
        final(store).well_formed(),
        final(store).last_id() == old(store).last_id(),
        mark_fits(old(store).rows(), id, r.0),
        final(store).rows() == rows_marked(old(store).rows(), id, status),
        replay(old(store).rows(), r.1@) == final(store).rows(),
        r.1@ == mark_changes(old(store).rows(), id, status),
        status != Status::InProgress && single_active(old(store).rows()) ==> single_active(
            final(store).rows(),
        ),
{
    let ghost before = store.rows();
    let mut changes: Vec<Change> = Vec::new();
    proof {
        lemma_replay_push(before, Seq::<Change>::empty(), Change::DeleteCancelled);
        assert(changes@ =~= Seq::<Change>::empty());
        if status != Status::InProgress && single_active(before) {
            lemma_leaving_keeps_single_active(before, id, status);
        }
    }
    let marked = store.update_status(id, status);
    note_mark(&mut changes, &marked, id, status, Ghost(before));
    proof {
        if marked is Ok {
            assert(changes@ =~= seq![Change::SetStatus(id, status)]);
        }
    }
    (marked, changes)
}

/// Carries out one request on the table. Returns what to report and the
/// changes made to the rows, in the order in which they were made.
pub fn execute(store: &mut TaskStore, command: Command) -> (r: (Report, Vec<Change>))
    requires
        old(store).well_formed(),
    ensures
        final(store).well_formed(),
        final(store).last_id() == last_id_after_command(old(store).last_id(), command),
        final(store).rows() == rows_after_command(old(store).rows(), old(store).last_id(), command),
        report_fits(old(store).rows(), old(store).last_id(), command, r.0),
        r.1@ == changes_for(old(store).rows(), old(store).last_id(), command),
        replay(old(store).rows(), r.1@) == final(store).rows(),
        single_active(old(store).rows()) ==> single_active(final(store).rows()),
{
    let ghost before = store.rows();
    let ghost last = store.last_id();
    let ghost asked = command;
    let mut changes: Vec<Change> = Vec::new();
    proof {
        lemma_replay_push(before, Seq::<Change>::empty(), Change::DeleteCancelled);
        assert(changes@ =~= Seq::<Change>::empty());
        assert(replay(before, changes@) == before);
    }
    let report = match command {
        Command::Add { task, priority, due_at, created_at } => {
            let added = store.create(task, priority, due_at, created_at);
            proof {
                if single_active(before) {
                    let after = store.rows();
                    assert forall|i: int, j: int|
                        0 <= i < after.len() && 0 <= j < after.len() && after[i].status
                            == Status::InProgress && after[j].status
                            == Status::InProgress implies i == j by {
                        assert(before[i].status == Status::InProgress);
                        assert(before[j].status == Status::InProgress);
                    }
                }
            }
            if added.is_ok() {
                let n = store.len();
                let row = store.tasks()[n - 1].clone();
                proof {
                    lemma_replay_push(before, changes@, Change::Insert(row));
                }
                changes.push(Change::Insert(row));
            }
            Report::Added(added)
        },
        Command::List { all, completed } => Report::Listed(store.list(Scope::from_flags(all, completed))),
        Command::Next { id } => {
            let outcome = advance(store, id);
            note_advance(&mut changes, outcome, Ghost(before));
            Report::Advanced(outcome)
        },
        Command::Done { id, next } => {
            let done = complete(store, id);
            note_mark(&mut changes, &done, id, Status::Completed, Ghost(before));
            let chained = if next && store.find_active().is_none() {
                proof {
                    match promote_outcome(store.rows(), None) {
                        Advance::Started(x) => lemma_start_gives_single_active(store.rows(), x),
                        _ => {},
                    }
                }
                let outcome = promote(store, None);
                note_advance(&mut changes, outcome, Ghost(before));
                Some(outcome)
            } else {
                None
            };
            Report::Done { done, next: chained }
        },
        Command::Show => Report::Shown(store.find_active()),
        Command::Pause => {
            let paused = pause(store);
            proof {
                lemma_first_active_none(before);
            }
            match paused {
                Some(id) => {
                    proof {
                        lemma_replay_push(before, changes@, Change::SetStatus(id, Status::Pending));
                    }
                    changes.push(Change::SetStatus(id, Status::Pending));
                },
                None => {},
            }
            Report::Paused(paused)
        },
        Command::Cancel { id, delete } => {
            let cancelled = cancel(store, id);
            note_mark(&mut changes, &cancelled, id, Status::Cancelled, Ghost(before));
            let removed = if delete {
                let n = collect_cancelled(store);
                proof {
                    lemma_replay_push(before, changes@, Change::DeleteCancelled);
                }
                changes.push(Change::DeleteCancelled);
                Some(n)
            } else {
                None
            };
            Report::Cancelled { cancelled, removed }
        },
        Command::Gc => {
            let n = collect_cancelled(store);
            proof {
                lemma_replay_push(before, changes@, Change::DeleteCancelled);
            }
            changes.push(Change::DeleteCancelled);
            Report::Collected(n)
        },
    };
    proof {
        lemma_first_active_none(before);
        assert(changes@ =~= changes_for(before, last, asked));
    }
    (report, changes)
}

/// While an id is left, an addition appends one pending row under the next
/// id, leaves every earlier row as it was, and writes that one row.
pub proof fn lemma_add_appends_one(
    rows: Seq<Task>,
    last_id: i64,
    task: String,
    priority: Option<i64>,
    due_at: Option<i64>,
    created_at: i64,
)
    requires
        last_id < i64::MAX,
    ensures
        ({
            let command = Command::Add { task, priority, due_at, created_at };
            let after = rows_after_command(rows, last_id, command);
            &&& after.len() == rows.len() + 1
            &&& after.last().status == Status::Pending
            &&& after.last().id == last_id + 1
            &&& forall|i: int| 0 <= i < rows.len() ==> after[i] == rows[i]
            &&& changes_for(rows, last_id, command) == seq![Change::Insert(after.last())]
            &&& last_id_after_command(last_id, command) == last_id + 1
        }),
{
}

/// With a pending row and none in progress, the request for the next task
/// starts the pending row that is ahead of every other by priority, due date
/// (none last), creation and id, changes that row's status alone, and writes
/// that one change. The result is the row's index.
pub proof fn lemma_next_starts_first_in_line(rows: Seq<Task>, last_id: i64) -> (p: int)
    requires
        ids_increasing(rows),
        has_status(rows, Status::Pending),
        !has_status(rows, Status::InProgress),
    ensures
        is_next_pending(rows, p),
        forall|q: int|
            0 <= q < rows.len() && q != p && rows[q].status == Status::Pending ==> picked_before(
                rows[p],
                #[trigger] rows[q],
            ),
        advance_outcome(rows, None) == Advance::Started(rows[p].id),
        rows_after_command(rows, last_id, Command::Next { id: None }) == rows.update(
            p,
            rows[p].with_status(Status::InProgress),
        ),
        changes_for(rows, last_id, Command::Next { id: None }) == seq![
            Change::SetStatus(rows[p].id, Status::InProgress),
        ],
{
    let p = lemma_next_pending_exists(rows);
    lemma_first_active_none(rows);
    lemma_set_status_one_row(rows, p, Status::InProgress);
    p
}

/// With no pending row, the request for the next task changes no row and
/// writes nothing; it reports that none is waiting unless a task is in
/// progress.
pub proof fn lemma_next_without_pending(rows: Seq<Task>, last_id: i64)
    requires
        !has_status(rows, Status::Pending),
    ensures
        rows_after_command(rows, last_id, Command::Next { id: None }) == rows,
        changes_for(rows, last_id, Command::Next { id: None }) == Seq::<Change>::empty(),
        !has_status(rows, Status::InProgress) ==> advance_outcome(rows, None)
            == Advance::NoneWaiting,
{
    assert forall|i: int| !is_next_pending(rows, i) by {
        if 0 <= i < rows.len() {
            assert(rows[i].status != Status::Pending);
        }
    }
    lemma_first_active_none(rows);
}

/// Completing the task of row `i` sets that row to completed, whatever its
/// status was, leaves every other row as it was, and writes that one change.
pub proof fn lemma_done_completes(rows: Seq<Task>, last_id: i64, i: int)
    requires
        ids_increasing(rows),
        0 <= i < rows.len(),
    ensures
        ({
            let command = Command::Done { id: rows[i].id, next: false };
            &&& rows_after_command(rows, last_id, command) == rows.update(
                i,
                rows[i].with_status(Status::Completed),
            )
            &&& changes_for(rows, last_id, command) == seq![
                Change::SetStatus(rows[i].id, Status::Completed),
            ]
            &&& mark_fits(rows, rows[i].id, Ok(()))
        }),
{
    lemma_set_status_one_row(rows, i, Status::Completed);
    let command = Command::Done { id: rows[i].id, next: false };
    assert(has_id(rows, rows[i].id));
    assert(changes_for(rows, last_id, command) =~= seq![
        Change::SetStatus(rows[i].id, Status::Completed),
    ]);
}

/// Completing an id that no row has changes no row, writes nothing, and is
/// reported as not found.
pub proof fn lemma_done_not_found(rows: Seq<Task>, last_id: i64, id: i64)
    requires
        !has_id(rows, id),
    ensures
        ({
            let command = Command::Done { id, next: false };
            &&& rows_after_command(rows, last_id, command) == rows
            &&& changes_for(rows, last_id, command) == Seq::<Change>::empty()
            &&& forall|done: Result<(), StoreError>|
                mark_fits(rows, id, done) ==> done == Err::<(), StoreError>(
                    StoreError::NotFound(id),
                )
        }),
{
    let command = Command::Done { id, next: false };
    assert(changes_for(rows, last_id, command) =~= Seq::<Change>::empty());
}

} // verus!
