//! The task table held in memory: one row per task, in the order of creation.

use vstd::prelude::*;
use crate::error::StoreError;
use crate::status::Status;
use crate::task::{Task, DEFAULT_PRIORITY};

verus! {

/// Which rows a listing shows.
#[derive(Debug, Clone, Copy, PartialEq, Eq, Structural)]
pub enum Scope {
    /// Every row, in the order of creation.
    All,
    /// The completed rows, in the order of creation.
    CompletedOnly,
    /// The open rows: the one in progress first, then by falling priority.
    ActiveView,
}

/// Ids grow strictly along the rows, so no id occurs twice.
pub open spec fn ids_increasing(rows: Seq<Task>) -> bool {
    forall|i: int, j: int| 0 <= i < j < rows.len() ==> rows[i].id < rows[j].id
}

/// Some row has the id.
pub open spec fn has_id(rows: Seq<Task>, id: i64) -> bool {
    exists|i: int| 0 <= i < rows.len() && rows[i].id == id
}

/// Some row has the status.
pub open spec fn has_status(rows: Seq<Task>, status: Status) -> bool {
    exists|i: int| 0 <= i < rows.len() && rows[i].status == status
}

/// At most one row is in progress.
pub open spec fn single_active(rows: Seq<Task>) -> bool {
    forall|i: int, j: int|
        0 <= i < rows.len() && 0 <= j < rows.len() && rows[i].status == Status::InProgress
            && rows[j].status == Status::InProgress ==> i == j
}

/// The rows after every row with the id has been given the status.
pub open spec fn set_status(rows: Seq<Task>, id: i64, status: Status) -> Seq<Task> {
    rows.map_values(
        |t: Task|
            if t.id == id {
                t.with_status(status)
            } else {
                t
            },
    )
}

/// The rows with the given status, in their order.
pub open spec fn rows_with(rows: Seq<Task>, status: Status) -> Seq<Task> {
    rows.filter(|t: Task| t.status == status)
}

/// The rows that are left once the cancelled ones are gone.
pub open spec fn without_cancelled(rows: Seq<Task>) -> Seq<Task> {
    rows.filter(|t: Task| t.status != Status::Cancelled)
}

/// The row a creation adds.
pub open spec fn new_row(
    id: i64,
    description: String,
    priority: Option<i64>,
    due_at: Option<i64>,
    created_at: i64,
) -> Task {
    Task {
        id,
        task: description,
        status: Status::Pending,
        priority: match priority {
            Some(p) => p,
            None => DEFAULT_PRIORITY,
        },
        created_at,
        due_at,
    }
}

/// An earlier due date goes first; a row without one goes after all that have one.
pub open spec fn due_before(a: Option<i64>, b: Option<i64>) -> bool {
    match (a, b) {
        (Some(x), Some(y)) => x < y,
        (Some(_), None) => true,
        _ => false,
    }
}

/// `a` is taken up ahead of `b`: higher priority, then earlier due date, then
/// earlier creation, then lower id.
pub open spec fn picked_before(a: Task, b: Task) -> bool {
    a.priority > b.priority || (a.priority == b.priority && (due_before(a.due_at, b.due_at) || (
    a.due_at == b.due_at && (a.created_at < b.created_at || (a.created_at == b.created_at && a.id
        < b.id)))))
}

/// Row `i` is pending and is taken up ahead of every other pending row.
pub open spec fn is_next_pending(rows: Seq<Task>, i: int) -> bool {
    &&& 0 <= i < rows.len()
    &&& rows[i].status == Status::Pending
    &&& forall|j: int|
        0 <= j < rows.len() && j != i && rows[j].status == Status::Pending ==> picked_before(
            rows[i],
            #[trigger] rows[j],
        )
}

/// Row `i` is the first row in progress.
pub open spec fn is_first_active(rows: Seq<Task>, i: int) -> bool {
    &&& 0 <= i < rows.len()
    &&& rows[i].status == Status::InProgress
    &&& forall|j: int| 0 <= j < i ==> (#[trigger] rows[j]).status != Status::InProgress
}

/// The row in progress that `find_active` reports: the first one, if any.
pub open spec fn first_active(rows: Seq<Task>) -> Option<Task> {
    if exists|i: int| is_first_active(rows, i) {
        Some(rows[choose|i: int| is_first_active(rows, i)])
    } else {
        None
    }
}

/// The id of the pending row that is taken up next, if any row is pending.
pub open spec fn next_pending(rows: Seq<Task>) -> Option<i64> {
    if exists|i: int| is_next_pending(rows, i) {
        Some(rows[choose|i: int| is_next_pending(rows, i)].id)
    } else {
        None
    }
}

/// No two rows are both the first one in progress.
pub proof fn lemma_first_active_unique(rows: Seq<Task>, i: int, j: int)
    requires
        is_first_active(rows, i),
        is_first_active(rows, j),
    ensures
        i == j,
{
    if i < j {
        assert(rows[i].status != Status::InProgress);
    } else if j < i {
        assert(rows[j].status != Status::InProgress);
    }
}

/// No two rows are both taken up ahead of all other pending rows.
pub proof fn lemma_next_pending_unique(rows: Seq<Task>, i: int, j: int)
    requires
        is_next_pending(rows, i),
        is_next_pending(rows, j),
    ensures
        i == j,
{
    if i != j {
        assert(picked_before(rows[i], rows[j]));
        assert(picked_before(rows[j], rows[i]));
    }
}

/// `a` is listed above `b` in the active view: in progress before pending,
/// then higher priority, then lower id.
pub open spec fn shown_before(a: Task, b: Task) -> bool {
    a.status.spec_code() > b.status.spec_code() || (a.status == b.status && (a.priority
        > b.priority || (a.priority == b.priority && a.id < b.id)))
}

/// `view` holds exactly the open rows, each once, in listing order.
pub open spec fn is_active_view(rows: Seq<Task>, view: Seq<Task>) -> bool {
    &&& forall|i: int, j: int| 0 <= i < j < view.len() ==> shown_before(view[i], view[j])
    &&& forall|t: Task| view.contains(t) <==> rows.contains(t) && t.status.is_open()
}

/// What a listing of `rows` under `scope` must be.
pub open spec fn is_listing(rows: Seq<Task>, scope: Scope, out: Seq<Task>) -> bool {
    match scope {
        Scope::All => out == rows,
        Scope::CompletedOnly => out == rows_with(rows, Status::Completed),
        Scope::ActiveView => is_active_view(rows, out),
    }
}

/// Rows and a last id that go together as a table: ids grow along the rows
/// and none exceeds the last id handed out.
pub open spec fn is_table(rows: Seq<Task>, last_id: i64) -> bool {
    &&& ids_increasing(rows)
    &&& forall|i: int| 0 <= i < rows.len() ==> (#[trigger] rows[i]).id <= last_id
}

/// The last id handed out, for a table that is taken over from storage:
/// what storage remembers as handed out, or the last row's id where that is
/// higher; 0 at the least for a table without rows.
pub open spec fn restored_last_id(rows: Seq<Task>, handed_out: i64) -> i64 {
    let top = if rows.len() == 0 {
        0i64
    } else {
        rows.last().id
    };
    if handed_out > top {
        handed_out
    } else {
        top
    }
}

/// The task table.
pub struct TaskStore {
    tasks: Vec<Task>,
    last_id: i64,
}

impl TaskStore {
    /// The rows, oldest first.
    pub closed spec fn rows(&self) -> Seq<Task> {
        self.tasks@
    }

    /// The highest id handed out so far.
    pub closed spec fn last_id(&self) -> i64 {
        self.last_id
    }

    /// Ids grow along the rows and none exceeds the last one handed out.
    pub open spec fn well_formed(&self) -> bool {
        &&& ids_increasing(self.rows())
        &&& forall|i: int| 0 <= i < self.rows().len() ==> (#[trigger] self.rows()[i]).id <= self.last_id()
    }

    /// An empty table whose first row will get id 1.
    pub fn new() -> (s: TaskStore)
        ensures
            s.well_formed(),
            s.rows() == Seq::<Task>::empty(),
            s.last_id() == 0,
    {
        TaskStore { tasks: Vec::new(), last_id: 0 }
    }

    /// Takes over rows read from storage, together with the highest id that
    /// storage remembers as handed out. The rows must come in strictly
    /// increasing id order. No id up to `handed_out` is handed out again,
    /// whether or not its row is still there.
    pub fn restore(rows: Vec<Task>, handed_out: i64) -> (r: Result<TaskStore, StoreError>)
        ensures
            match r {
                Ok(s) => ids_increasing(rows@) && s.well_formed() && s.rows() == rows@
                    && s.last_id() == restored_last_id(rows@, handed_out),
                Err(e) => !ids_increasing(rows@) && e == StoreError::Unordered,
            },
    {
        let mut store = match TaskStore::from_rows(rows) {
            Ok(store) => store,
            Err(e) => {
                return Err(e);
            },
        };
        if handed_out > store.last_id {
            store.last_id = handed_out;
        }
        Ok(store)
    }

    /// Takes over rows where nothing is remembered of ids handed out
    /// before. They must come in strictly increasing id order; the next id
    /// follows the last row's.
    pub fn from_rows(rows: Vec<Task>) -> (r: Result<TaskStore, StoreError>)
        ensures
            match r {
                Ok(s) => ids_increasing(rows@) && s.well_formed() && s.rows() == rows@ && s.last_id()
                    == (if rows@.len() == 0 {
                    0i64
                } else {
                    rows@.last().id
                }),
                Err(e) => !ids_increasing(rows@) && e == StoreError::Unordered,
            },
    {
        let n = rows.len();
        if n == 0 {
            return Ok(TaskStore { tasks: rows, last_id: 0 });
        }
        let mut k: usize = 1;
        while k < n
            invariant
                n == rows.len(),
                1 <= k <= n,
                ids_increasing(rows@.take(k as int)),
            decreases n - k,
        {
            if rows[k - 1].id >= rows[k].id {
                proof {
                    assert(!(rows@[k - 1].id < rows@[k as int].id));
                }
                return Err(StoreError::Unordered);
            }
            proof {
                let a = rows@.take(k as int);
                let b = rows@.take(k as int + 1);
                assert forall|i: int, j: int| 0 <= i < j < b.len() implies b[i].id < b[j].id by {
                    if j < k {
                        assert(a[i].id < a[j].id);
                    } else if i < k - 1 {
                        assert(a[i].id < a[k - 1].id);
                    }
                }
            }
            k += 1;
        }
        proof {
            assert(rows@.take(n as int) =~= rows@);
        }
        let last_id = rows[n - 1].id;
        Ok(TaskStore { tasks: rows, last_id })
    }

    /// The number of rows.
    pub fn len(&self) -> (n: usize)
        ensures
            n == self.rows().len(),
    {
        self.tasks.len()
    }

    /// The rows as they are stored.
    pub fn tasks(&self) -> (rows: &Vec<Task>)
        ensures
            rows@ == self.rows(),
    {
        &self.tasks
    }
}

/// Decides `picked_before` on two rows.
pub fn precedes(a: &Task, b: &Task) -> (r: bool)
    ensures
        r == picked_before(*a, *b),
{
    if a.priority != b.priority {
        return a.priority > b.priority;
    }
    match (a.due_at, b.due_at) {
        (Some(x), Some(y)) => {
            if x != y {
                return x < y;
            }
        },
        (Some(_), None) => {
            return true;
        },
        (None, Some(_)) => {
            return false;
        },
        (None, None) => {},
    }
    if a.created_at != b.created_at {
        return a.created_at < b.created_at;
    }
    a.id < b.id
}

/// Decides `shown_before` on two rows.
pub fn lists_above(a: &Task, b: &Task) -> (r: bool)
    ensures
        r == shown_before(*a, *b),
{
    let ca = a.status.code();
    let cb = b.status.code();
    if ca != cb {
        return ca > cb;
    }
    if a.priority != b.priority {
        return a.priority > b.priority;
    }
    a.id < b.id
}

impl TaskStore {
    /// Adds a pending row under the next id and returns that id. The priority
    /// is 3 where none is given. Fails only when the ids are used up.
    pub fn create(
        &mut self,
        description: String,
        priority: Option<i64>,
        due_at: Option<i64>,
        created_at: i64,
    ) -> (r: Result<i64, StoreError>)
        requires
            old(self).well_formed(),
        ensures
            final(self).well_formed(),
            match r {
                Ok(id) => {
                    &&& old(self).last_id() < i64::MAX
                    &&& id == old(self).last_id() + 1
                    &&& !has_id(old(self).rows(), id)
                    &&& final(self).last_id() == id
                    &&& final(self).rows() == old(self).rows().push(
                        new_row(id, description, priority, due_at, created_at),
                    )
                    &&& final(self).rows().len() == old(self).rows().len() + 1
                    &&& final(self).rows().last().status == Status::Pending
                },
                Err(e) => {
                    &&& old(self).last_id() == i64::MAX
                    &&& e == StoreError::IdsExhausted
                    &&& final(self).rows() == old(self).rows()
                    &&& final(self).last_id() == old(self).last_id()
                },
            },
    {
        if self.last_id == i64::MAX {
            return Err(StoreError::IdsExhausted);
        }
        let id = self.last_id + 1;
        let row = Task {
            id,
            task: description,
            status: Status::Pending,
            priority: match priority {
                Some(p) => p,
                None => DEFAULT_PRIORITY,
            },
            created_at,
            due_at,
        };
        self.tasks.push(row);
        self.last_id = id;
        Ok(id)
    }

    /// Gives the row with the id the status, whatever its status was.
    /// Fails, and changes nothing, when no row has the id.
    pub fn update_status(&mut self, id: i64, status: Status) -> (r: Result<(), StoreError>)
        requires
            old(self).well_formed(),
        ensures
            final(self).well_formed(),
            final(self).last_id() == old(self).last_id(),
            match r {
                Ok(()) => has_id(old(self).rows(), id) && final(self).rows() == set_status(
                    old(self).rows(),
                    id,
                    status,
                ),
                Err(e) => !has_id(old(self).rows(), id) && e == StoreError::NotFound(id)
                    && final(self).rows() == old(self).rows(),
            },
    {
        let n = self.tasks.len();
        let mut k: usize = 0;
        while k < n
            invariant
                n == self.tasks.len(),
                k <= n,
                old(self).well_formed(),
                self.tasks@ == old(self).tasks@,
                self.last_id == old(self).last_id,
                forall|i: int| 0 <= i < k ==> (#[trigger] self.tasks@[i]).id != id,
            decreases n - k,
        {
            if self.tasks[k].id == id {
                let mut row = self.tasks[k].clone();
                row.status = status;
                self.tasks.set(k, row);
                proof {
                    let before = old(self).tasks@;
                    let after = self.tasks@;
                    assert(before[k as int].id == id);
                    assert forall|i: int| 0 <= i < before.len() implies after[i] == (if before[i].id
                        == id {
                        before[i].with_status(status)
                    } else {
                        before[i]
                    }) by {
                        if i != k {
                            if i < k {
                                assert(before[i].id < before[k as int].id);
                            } else {
                                assert(before[k as int].id < before[i].id);
                            }
                        }
                    }
                    assert(after =~= set_status(before, id, status));
                    assert forall|i: int, j: int| 0 <= i < j < after.len() implies after[i].id
                        < after[j].id by {
                        assert(before[i].id < before[j].id);
                    }
                    assert forall|i: int| 0 <= i < after.len() implies (#[trigger] after[i]).id
                        <= self.last_id by {
                        assert(before[i].id <= self.last_id);
                    }
                }
                return Ok(());
            }
            k += 1;
        }
        Err(StoreError::NotFound(id))
    }

    /// The row in progress, if there is one: the first such row.
    pub fn find_active(&self) -> (r: Option<Task>)
        ensures
            r == first_active(self.rows()),
            match r {
                Some(t) => exists|i: int| is_first_active(self.rows(), i) && self.rows()[i] == t,
                None => !has_status(self.rows(), Status::InProgress),
            },
    {
        let n = self.tasks.len();
        let mut k: usize = 0;
        while k < n
            invariant
                n == self.tasks.len(),
                k <= n,
                forall|j: int| 0 <= j < k ==> (#[trigger] self.tasks@[j]).status != Status::InProgress,
            decreases n - k,
        {
            if self.tasks[k].status == Status::InProgress {
                proof {
                    assert(is_first_active(self.rows(), k as int));
                    let c = choose|i: int| is_first_active(self.rows(), i);
                    lemma_first_active_unique(self.rows(), c, k as int);
                }
                return Some(self.tasks[k].clone());
            }
            k += 1;
        }
        proof {
            assert forall|i: int| !is_first_active(self.rows(), i) by {
                if 0 <= i < self.rows().len() {
                    assert(self.tasks@[i].status != Status::InProgress);
                }
            }
        }
        None
    }

    /// The id of the pending row to take up next: highest priority, then
    /// earliest due date (rows without one last), then earliest creation,
    /// then lowest id. `None` when no row is pending.
    pub fn find_next_pending(&self) -> (r: Option<i64>)
        requires
            self.well_formed(),
        ensures
            r == next_pending(self.rows()),
            match r {
                Some(id) => exists|i: int| is_next_pending(self.rows(), i) && self.rows()[i].id == id,
                None => !has_status(self.rows(), Status::Pending),
            },
    {
        let n = self.tasks.len();
        let mut best: Option<usize> = None;
        let mut k: usize = 0;
        while k < n
            invariant
                n == self.tasks.len(),
                k <= n,
                self.well_formed(),
                match best {
                    Some(b) => {
                        &&& b < k
                        &&& self.tasks@[b as int].status == Status::Pending
                        &&& forall|j: int|
                            0 <= j < k && j != b && self.tasks@[j].status == Status::Pending
                                ==> picked_before(self.tasks@[b as int], #[trigger] self.tasks@[j])
                    },
                    None => forall|j: int|
                        0 <= j < k ==> (#[trigger] self.tasks@[j]).status != Status::Pending,
                },
            decreases n - k,
        {
            if self.tasks[k].status == Status::Pending {
                match best {
                    None => {
                        best = Some(k);
                    },
                    Some(b) => {
                        proof {
                            assert(self.rows()[b as int].id < self.rows()[k as int].id);
                        }
                        if precedes(&self.tasks[k], &self.tasks[b]) {
                            best = Some(k);
                        }
                    },
                }
            }
            k += 1;
        }
        match best {
            Some(b) => {
                proof {
                    assert(is_next_pending(self.rows(), b as int));
                    let c = choose|i: int| is_next_pending(self.rows(), i);
                    lemma_next_pending_unique(self.rows(), c, b as int);
                }
                Some(self.tasks[b].id)
            },
            None => {
                proof {
                    assert forall|i: int| !is_next_pending(self.rows(), i) by {
                        if 0 <= i < self.rows().len() {
                            assert(self.tasks@[i].status != Status::Pending);
                        }
                    }
                }
                None
            },
        }
    }
}

impl TaskStore {
    /// Copies of the rows that have the status, in their order.
    pub fn select_status(&self, status: Status) -> (out: Vec<Task>)
        ensures
            out@ == rows_with(self.rows(), status),
    {
        let n = self.tasks.len();
        let mut out: Vec<Task> = Vec::new();
        let mut k: usize = 0;
        proof {
            reveal(Seq::filter);
            assert(self.tasks@.take(0) =~= Seq::<Task>::empty());
        }
        while k < n
            invariant
                n == self.tasks.len(),
                k <= n,
                out@ == rows_with(self.tasks@.take(k as int), status),
            decreases n - k,
        {
            proof {
                reveal(Seq::filter);
                let next = self.tasks@.take(k as int + 1);
                assert(next.drop_last() =~= self.tasks@.take(k as int));
                assert(next.last() == self.tasks@[k as int]);
            }
            if self.tasks[k].status == status {
                out.push(self.tasks[k].clone());
            }
            k += 1;
        }
        proof {
            assert(self.tasks@.take(n as int) =~= self.tasks@);
        }
        out
    }

    /// Copies of the open rows in listing order: the row in progress first,
    /// then by falling priority, rows of equal rank by rising id.
    pub fn active_view(&self) -> (out: Vec<Task>)
        requires
            self.well_formed(),
        ensures
            is_active_view(self.rows(), out@),
    {
        let n = self.tasks.len();
        let mut out: Vec<Task> = Vec::new();
        let mut k: usize = 0;
        while k < n
            invariant
                n == self.tasks.len(),
                k <= n,
                self.well_formed(),
                forall|i: int, j: int| 0 <= i < j < out@.len() ==> shown_before(out@[i], out@[j]),
                forall|q: int|
                    0 <= q < out@.len() ==> (#[trigger] out@[q]).status.is_open() && exists|j: int|
                        0 <= j < k && self.tasks@[j] == out@[q],
                forall|j: int|
                    0 <= j < k && (#[trigger] self.tasks@[j]).status.is_open() ==> out@.contains(
                        self.tasks@[j],
                    ),
            decreases n - k,
        {
            let st = self.tasks[k].status;
            if st == Status::Pending || st == Status::InProgress {
                let len = out.len();
                let mut p: usize = 0;
                while p < len && !lists_above(&self.tasks[k], &out[p])
                    invariant
                        len == out@.len(),
                        p <= len,
                        k < self.tasks@.len(),
                        forall|q: int|
                            0 <= q < p ==> !shown_before(self.tasks@[k as int], #[trigger] out@[q]),
                    decreases len - p,
                {
                    p += 1;
                }
                let ghost before = out@;
                let ghost row = self.tasks@[k as int];
                out.insert(p, self.tasks[k].clone());
                proof {
                    let after = out@;
                    assert(after == before.insert(p as int, row));
                    assert forall|q: int| 0 <= q < before.len() implies (#[trigger] before[q]).id
                        < row.id by {
                        let j = choose|j: int| 0 <= j < k && self.tasks@[j] == before[q];
                        assert(self.rows()[j].id < self.rows()[k as int].id);
                    }
                    assert forall|i: int, j: int| 0 <= i < j < after.len() implies shown_before(
                        after[i],
                        after[j],
                    ) by {
                        if j < p {
                            assert(shown_before(before[i], before[j]));
                        } else if j == p {
                            assert(!shown_before(row, before[i]));
                            assert(before[i].id < row.id);
                        } else if i < p {
                            assert(shown_before(before[i], before[j - 1]));
                        } else if i == p {
                            assert(shown_before(row, before[p as int]));
                            if j - 1 > p {
                                assert(shown_before(before[p as int], before[j - 1]));
                            }
                        } else {
                            assert(shown_before(before[i - 1], before[j - 1]));
                        }
                    }
                    assert forall|q: int| 0 <= q < after.len() implies (#[trigger] after[q]).status.is_open()
                        && exists|j: int| 0 <= j < k + 1 && self.tasks@[j] == after[q] by {
                        if q < p {
                            assert(after[q] == before[q]);
                            let j = choose|j: int| 0 <= j < k && self.tasks@[j] == before[q];
                            assert(0 <= j < k + 1 && self.tasks@[j] == after[q]);
                        } else if q == p {
                            assert(self.tasks@[k as int] == after[q]);
                        } else {
                            assert(after[q] == before[q - 1]);
                            let j = choose|j: int| 0 <= j < k && self.tasks@[j] == before[q - 1];
                            assert(0 <= j < k + 1 && self.tasks@[j] == after[q]);
                        }
                    }
                    assert forall|j: int|
                        0 <= j < k + 1 && (#[trigger] self.tasks@[j]).status.is_open() implies after.contains(
                        self.tasks@[j],
                    ) by {
                        if j == k {
                            assert(after[p as int] == self.tasks@[j]);
                        } else {
                            assert(before.contains(self.tasks@[j]));
                            let q = choose|q: int| 0 <= q < before.len() && before[q] == self.tasks@[j];
                            if q < p {
                                assert(after[q] == self.tasks@[j]);
                            } else {
                                assert(after[q + 1] == self.tasks@[j]);
                            }
                        }
                    }
                }
            }
            k += 1;
        }
        proof {
            let rows = self.rows();
            assert forall|t: Task| out@.contains(t) <==> rows.contains(t) && t.status.is_open() by {
                if out@.contains(t) {
                    let q = choose|q: int| 0 <= q < out@.len() && out@[q] == t;
                    let j = choose|j: int| 0 <= j < k && self.tasks@[j] == out@[q];
                    assert(rows[j] == t);
                }
                if rows.contains(t) && t.status.is_open() {
                    let j = choose|j: int| 0 <= j < rows.len() && rows[j] == t;
                    assert(out@.contains(self.tasks@[j]));
                }
            }
        }
        out
    }

    /// The rows a listing shows under `scope`, as copies.
    pub fn list(&self, scope: Scope) -> (out: Vec<Task>)
        requires
            self.well_formed(),
        ensures
            is_listing(self.rows(), scope, out@),
    {
        match scope {
            Scope::All => self.tasks.clone(),
            Scope::CompletedOnly => self.select_status(Status::Completed),
            Scope::ActiveView => self.active_view(),
        }
    }

    /// Removes every cancelled row for good and returns how many there were.
    /// The other rows stay as they are, in their order.
    pub fn delete_cancelled(&mut self) -> (removed: usize)
        requires
            old(self).well_formed(),
        ensures
            final(self).well_formed(),
            final(self).last_id() == old(self).last_id(),
            final(self).rows() == without_cancelled(old(self).rows()),
            removed == old(self).rows().len() - final(self).rows().len(),
    {
        let n = self.tasks.len();
        let mut kept: Vec<Task> = Vec::new();
        let mut k: usize = 0;
        proof {
            reveal(Seq::filter);
            assert(self.tasks@.take(0) =~= Seq::<Task>::empty());
        }
        while k < n
            invariant
                n == self.tasks.len(),
                k <= n,
                self.tasks@ == old(self).tasks@,
                self.last_id == old(self).last_id,
                old(self).well_formed(),
                kept@ == without_cancelled(self.tasks@.take(k as int)),
                kept@.len() <= k,
                ids_increasing(kept@),
                forall|q: int|
                    0 <= q < kept@.len() ==> k > 0 && (#[trigger] kept@[q]).id <= self.tasks@[k
                        - 1].id,
            decreases n - k,
        {
            proof {
                reveal(Seq::filter);
                let next = self.tasks@.take(k as int + 1);
                assert(next.drop_last() =~= self.tasks@.take(k as int));
                assert(next.last() == self.tasks@[k as int]);
                if k > 0 {
                    assert(old(self).rows()[k - 1].id < old(self).rows()[k as int].id);
                }
            }
            if self.tasks[k].status != Status::Cancelled {
                kept.push(self.tasks[k].clone());
            }
            k += 1;
        }
        proof {
            assert(self.tasks@.take(n as int) =~= self.tasks@);
            assert forall|q: int| 0 <= q < kept@.len() implies (#[trigger] kept@[q]).id
                <= self.last_id by {
                assert(old(self).rows()[n - 1].id <= old(self).last_id());
            }
        }
        let removed = n - kept.len();
        self.tasks = kept;
        removed
    }
}

/// An empty table has no task in progress, and where exactly one row is
/// in progress, that row is the one `first_active` gives.
pub proof fn lemma_first_active_sole(rows: Seq<Task>, i: int)
    ensures
        rows.len() == 0 ==> first_active(rows) is None,
        (0 <= i < rows.len() && rows[i].status == Status::InProgress && forall|j: int|
            0 <= j < rows.len() && j != i ==> (#[trigger] rows[j]).status != Status::InProgress)
            ==> first_active(rows) == Some(rows[i]),
{
    if 0 <= i < rows.len() && rows[i].status == Status::InProgress && forall|j: int|
        0 <= j < rows.len() && j != i ==> (#[trigger] rows[j]).status != Status::InProgress {
        assert(is_first_active(rows, i));
        let c = choose|k: int| is_first_active(rows, k);
        lemma_first_active_unique(rows, c, i);
    }
}

/// The active view shows open rows only, the completed listing completed
/// rows only, and the full listing every row.
pub proof fn lemma_listing_statuses(rows: Seq<Task>, scope: Scope, out: Seq<Task>, i: int)
    requires
        is_listing(rows, scope, out),
        0 <= i < out.len(),
    ensures
        rows.contains(out[i]),
        scope == Scope::ActiveView ==> out[i].status == Status::Pending || out[i].status
            == Status::InProgress,
        scope == Scope::CompletedOnly ==> out[i].status == Status::Completed,
        scope == Scope::All ==> out == rows,
{
    match scope {
        Scope::All => {},
        Scope::CompletedOnly => {
            let pred = |t: Task| t.status == Status::Completed;
            rows.lemma_filter_pred(pred, i);
            assert(out.contains(out[i]));
            rows.lemma_filter_contains_rev(pred, out[i]);
        },
        Scope::ActiveView => {
            assert(out.contains(out[i]));
        },
    }
}

/// Every row that a listing must show is in it: each open row in the active
/// view, each completed row in the completed listing.
pub proof fn lemma_listing_complete(rows: Seq<Task>, scope: Scope, out: Seq<Task>, j: int)
    requires
        is_listing(rows, scope, out),
        0 <= j < rows.len(),
    ensures
        scope == Scope::ActiveView && rows[j].status.is_open() ==> out.contains(rows[j]),
        scope == Scope::CompletedOnly && rows[j].status == Status::Completed ==> out.contains(
            rows[j],
        ),
        scope == Scope::All ==> out.contains(rows[j]),
{
    match scope {
        Scope::All => {
            assert(out[j] == rows[j]);
        },
        Scope::CompletedOnly => {
            let pred = |t: Task| t.status == Status::Completed;
            if rows[j].status == Status::Completed {
                rows.lemma_filter_contains(pred, j);
            }
        },
        Scope::ActiveView => {
            assert(rows.contains(rows[j]));
        },
    }
}

/// Where no row is cancelled, removing the cancelled rows changes nothing.
pub proof fn lemma_nothing_to_remove(rows: Seq<Task>)
    requires
        !has_status(rows, Status::Cancelled),
    ensures
        without_cancelled(rows) == rows,
    decreases rows.len(),
{
    reveal(Seq::filter);
    if rows.len() > 0 {
        let front = rows.drop_last();
        assert forall|i: int| 0 <= i < front.len() implies front[i].status
            != Status::Cancelled by {
            assert(rows[i].status != Status::Cancelled);
        }
        lemma_nothing_to_remove(front);
        assert(rows.last() == rows[rows.len() - 1]);
        assert(rows.last().status != Status::Cancelled);
        assert(front.push(rows.last()) =~= rows);
    }
}

/// Cancelling row `i` of a table without cancelled rows and then removing
/// the cancelled rows takes away exactly that row.
pub proof fn lemma_cancel_then_remove(rows: Seq<Task>, i: int)
    requires
        ids_increasing(rows),
        0 <= i < rows.len(),
        !has_status(rows, Status::Cancelled),
    ensures
        without_cancelled(set_status(rows, rows[i].id, Status::Cancelled)) == rows.remove(i),
        without_cancelled(set_status(rows, rows[i].id, Status::Cancelled)).len() == rows.len() - 1,
    decreases rows.len(),
{
    reveal(Seq::filter);
    let id = rows[i].id;
    let marked = set_status(rows, id, Status::Cancelled);
    let front = rows.drop_last();
    let last = rows.len() - 1;
    assert(marked.drop_last() =~= set_status(front, id, Status::Cancelled));
    assert forall|k: int| 0 <= k < front.len() implies front[k].status != Status::Cancelled by {
        assert(rows[k].status != Status::Cancelled);
    }
    if i == last {
        assert forall|k: int| 0 <= k < front.len() implies front[k].id != id by {
            assert(rows[k].id < rows[last].id);
        }
        assert(set_status(front, id, Status::Cancelled) =~= front);
        lemma_nothing_to_remove(front);
        assert(marked.last().status == Status::Cancelled);
        assert(rows.remove(i) =~= front);
    } else {
        assert(rows[i].id < rows[last].id);
        assert(marked.last() == rows[last]);
        assert(rows[last].status != Status::Cancelled);
        assert forall|a: int, b: int| 0 <= a < b < front.len() implies front[a].id
            < front[b].id by {
            assert(rows[a].id < rows[b].id);
        }
        assert(front[i].id == id);
        lemma_cancel_then_remove(front, i);
        assert(front.remove(i).push(rows[last]) =~= rows.remove(i));
    }
}

/// Removing the cancelled rows keeps every other row and nothing else.
pub proof fn lemma_removal_keeps_others(rows: Seq<Task>, t: Task)
    ensures
        without_cancelled(rows).contains(t) <==> rows.contains(t) && t.status != Status::Cancelled,
{
    let pred = |t: Task| t.status != Status::Cancelled;
    if without_cancelled(rows).contains(t) {
        rows.lemma_filter_contains_rev(pred, t);
    }
    if rows.contains(t) && t.status != Status::Cancelled {
        let j = choose|j: int| 0 <= j < rows.len() && rows[j] == t;
        rows.lemma_filter_contains(pred, j);
    }
}

/// Two sequences in listing order that hold the same rows are the same
/// sequence.
proof fn lemma_listing_order_unique(a: Seq<Task>, b: Seq<Task>)
    requires
        forall|i: int, j: int| 0 <= i < j < a.len() ==> shown_before(a[i], a[j]),
        forall|i: int, j: int| 0 <= i < j < b.len() ==> shown_before(b[i], b[j]),
        forall|t: Task| a.contains(t) <==> b.contains(t),
    ensures
        a == b,
    decreases a.len(),
{
    if a.len() == 0 {
        if b.len() > 0 {
            assert(b.contains(b[0]));
        }
        assert(a =~= b);
    } else {
        assert(a.contains(a[0]));
        let j = choose|j: int| 0 <= j < b.len() && b[j] == a[0];
        assert(b.contains(b[0]));
        let k = choose|k: int| 0 <= k < a.len() && a[k] == b[0];
        if j > 0 {
            assert(shown_before(b[0], b[j]));
            if k > 0 {
                assert(shown_before(a[0], a[k]));
            }
        }
        assert(a[0] == b[0]);
        let ta = a.skip(1);
        let tb = b.skip(1);
        assert forall|t: Task| ta.contains(t) <==> tb.contains(t) by {
            if ta.contains(t) {
                let i = choose|i: int| 0 <= i < ta.len() && ta[i] == t;
                assert(a[i + 1] == t);
                assert(shown_before(a[0], a[i + 1]));
                assert(a.contains(t));
                let m = choose|m: int| 0 <= m < b.len() && b[m] == t;
                assert(m > 0);
                assert(tb[m - 1] == t);
            }
            if tb.contains(t) {
                let i = choose|i: int| 0 <= i < tb.len() && tb[i] == t;
                assert(b[i + 1] == t);
                assert(shown_before(b[0], b[i + 1]));
                assert(b.contains(t));
                let m = choose|m: int| 0 <= m < a.len() && a[m] == t;
                assert(m > 0);
                assert(ta[m - 1] == t);
            }
        }
        assert forall|i: int, j: int| 0 <= i < j < ta.len() implies shown_before(ta[i], ta[j]) by {
            assert(shown_before(a[i + 1], a[j + 1]));
        }
        assert forall|i: int, j: int| 0 <= i < j < tb.len() implies shown_before(tb[i], tb[j]) by {
            assert(shown_before(b[i + 1], b[j + 1]));
        }
        lemma_listing_order_unique(ta, tb);
        assert(a =~= seq![a[0]] + ta);
        assert(b =~= seq![b[0]] + tb);
    }
}

/// The rows fix each listing: two listings of the same rows under the same
/// scope are equal.
pub proof fn lemma_listing_unique(rows: Seq<Task>, scope: Scope, a: Seq<Task>, b: Seq<Task>)
    requires
        is_listing(rows, scope, a),
        is_listing(rows, scope, b),
    ensures
        a == b,
{
    if scope == Scope::ActiveView {
        lemma_listing_order_unique(a, b);
    }
}

/// Among the first `k` rows, where one of them is pending, one pending row
/// is taken up ahead of every other pending one; the result is its index.
pub proof fn lemma_first_in_line(rows: Seq<Task>, k: int) -> (b: int)
    requires
        ids_increasing(rows),
        0 <= k <= rows.len(),
        exists|j: int| 0 <= j < k && rows[j].status == Status::Pending,
    ensures
        0 <= b < k,
        rows[b].status == Status::Pending,
        forall|j: int|
            0 <= j < k && j != b && rows[j].status == Status::Pending ==> picked_before(
                rows[b],
                #[trigger] rows[j],
            ),
    decreases k,
{
    if exists|j: int| 0 <= j < k - 1 && rows[j].status == Status::Pending {
        let b0 = lemma_first_in_line(rows, k - 1);
        assert(rows[b0].id < rows[k - 1].id);
        if rows[k - 1].status == Status::Pending && picked_before(rows[k - 1], rows[b0]) {
            k - 1
        } else {
            b0
        }
    } else {
        let j = choose|j: int| 0 <= j < k && rows[j].status == Status::Pending;
        assert(j == k - 1);
        k - 1
    }
}

/// Where a row is pending, `next_pending` gives the id of the pending row
/// that is taken up ahead of every other; the result is its index.
pub proof fn lemma_next_pending_exists(rows: Seq<Task>) -> (b: int)
    requires
        ids_increasing(rows),
        has_status(rows, Status::Pending),
    ensures
        is_next_pending(rows, b),
        next_pending(rows) == Some(rows[b].id),
{
    let b = lemma_first_in_line(rows, rows.len() as int);
    assert(is_next_pending(rows, b));
    let c = choose|i: int| is_next_pending(rows, i);
    lemma_next_pending_unique(rows, c, b);
    b
}

/// Giving the status to the id of row `i` changes that row alone.
pub proof fn lemma_set_status_one_row(rows: Seq<Task>, i: int, status: Status)
    requires
        ids_increasing(rows),
        0 <= i < rows.len(),
    ensures
        set_status(rows, rows[i].id, status) == rows.update(i, rows[i].with_status(status)),
{
    let id = rows[i].id;
    assert forall|k: int| 0 <= k < rows.len() && k != i implies rows[k].id != id by {
        if k < i {
            assert(rows[k].id < rows[i].id);
        } else {
            assert(rows[i].id < rows[k].id);
        }
    }
    assert(set_status(rows, id, status) =~= rows.update(i, rows[i].with_status(status)));
}

} // verus!
