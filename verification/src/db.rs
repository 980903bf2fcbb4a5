//! The task table kept in a SQLite database: rows are read into a
//! `TaskStore`, the operation is carried out there, and the changes it made
//! are written back.

use vstd::prelude::*;
use crate::command::{execute, mark, report_fits, scope_of, Change, Command, Report};
use crate::error::StoreError;
use crate::scheduler::{advance_outcome, lemma_first_active_none, Advance};
use crate::status::Status;
use crate::store::{
    first_active, has_id, ids_increasing, is_listing, is_table, restored_last_id, Scope,
    TaskStore,
};
use crate::task::Task;

verus! {

/// `rusqlite::Connection`, carried through as an opaque value.
#[verifier::external_type_specification]
#[verifier::external_body]
pub struct ExConnection(rusqlite::Connection);

/// `rusqlite::Statement`, carried through as an opaque value.
#[verifier::external_type_specification]
#[verifier::external_body]
pub struct ExStatement<'conn>(rusqlite::Statement<'conn>);

/// `rusqlite::Row`, carried through as an opaque value.
#[verifier::external_type_specification]
#[verifier::external_body]
pub struct ExRow<'stmt>(rusqlite::Row<'stmt>);

/// `rusqlite::Error`, carried through as an opaque value.
#[verifier::external_type_specification]
#[verifier::external_body]
pub struct ExSqlError(rusqlite::Error);

/// Creates the table on first use. SQLite keeps, beside a table whose id
/// column is declared in this way, the highest id that the table ever held.
pub const TABLE_DDL: &'static str = "
    CREATE TABLE IF NOT EXISTS tasks (
        id INTEGER PRIMARY KEY AUTOINCREMENT,
        task TEXT NOT NULL,
        status INTEGER NOT NULL DEFAULT 0,
        priority INTEGER NOT NULL DEFAULT 3,
        created_at INT NOT NULL,
        due_at INT
    );";

/// Reads every row, oldest first.
pub const SELECT_ROWS: &'static str =
    "SELECT id, task, status, priority, created_at, due_at FROM tasks ORDER BY id;";

/// Asks whether the database keeps a sequence at all: one row where it
/// does, none where the table was created without one.
pub const SELECT_SEQUENCE_TABLE: &'static str =
    "SELECT name FROM sqlite_master WHERE type = 'table' AND name = 'sqlite_sequence';";

/// Reads the highest id that the table ever held: one row with one column,
/// or no row while the table has never held a row.
pub const SELECT_SEQUENCE: &'static str = "SELECT seq FROM sqlite_sequence WHERE name = 'tasks';";

/// Writes one new row.
pub const INSERT_ROW: &'static str =
    "INSERT INTO tasks (id, task, status, priority, created_at, due_at) VALUES (?1, ?2, ?3, ?4, ?5, ?6);";

/// Gives the row with an id a status.
pub const UPDATE_STATUS: &'static str = "UPDATE tasks SET status = ?1 WHERE id = ?2";

/// Removes the rows that have a status.
pub const DELETE_STATUS: &'static str = "DELETE FROM tasks WHERE status = ?1";

/// The number of columns of a stored row.
pub const COLUMNS: usize = 6;

/// A value as the database holds it.
#[derive(Debug)]
pub enum SqlValue {
    Null,
    Integer(i64),
    Text(String),
    /// A real number or a blob: nothing the task table stores.
    Other,
}

/// Values that can be handed to a statement: nulls, integers and texts.
pub open spec fn bindable(values: Seq<SqlValue>) -> bool {
    forall|i: int| 0 <= i < values.len() ==> !((#[trigger] values[i]) is Other)
}

/// Calls `rusqlite::Connection::execute` with the values as positional
/// parameters, in order. Gives back the number of rows that the statement
/// changed, or the database's error. Nothing is claimed of either. Only
/// bindable values are taken: `Other` has nothing to be handed over as.
#[verifier::external_body]
fn run_statement(conn: &rusqlite::Connection, sql: &str, values: &Vec<SqlValue>) -> Result<
    usize,
    rusqlite::Error,
>
    requires
        bindable(values@),
{
    let params = values.iter().map(
        |value|
            match value {
                SqlValue::Null => rusqlite::types::Value::Null,
                SqlValue::Integer(i) => rusqlite::types::Value::Integer(*i),
                SqlValue::Text(s) => rusqlite::types::Value::Text(s.clone()),
                SqlValue::Other => rusqlite::types::Value::Null,
            },
    );
    conn.execute(sql, rusqlite::params_from_iter(params))
}

/// Calls `rusqlite::Connection::prepare`. Nothing is claimed of the
/// statement or of the error.
#[verifier::external_body]
fn prepare<'conn>(conn: &'conn rusqlite::Connection, sql: &str) -> Result<
    rusqlite::Statement<'conn>,
    rusqlite::Error,
> {
    conn.prepare(sql)
}

/// Calls `rusqlite::Statement::query_map` without parameters, reading the
/// first `width` columns of each result row with `read_row`, and collects
/// the rows. Nothing is claimed of what comes back.
#[verifier::external_body]
fn query_rows(statement: &mut rusqlite::Statement<'_>, width: usize) -> Result<
    Vec<Vec<SqlValue>>,
    rusqlite::Error,
> {
    let rows = statement.query_map([], |row| read_row(row, width))?;
    rows.collect()
}

/// Calls `rusqlite::Row::get` for the column at `index`. Gives the column's
/// value, or the error for an index past the last column. Nothing is
/// claimed of the value.
#[verifier::external_body]
fn column(row: &rusqlite::Row<'_>, index: usize) -> Result<SqlValue, rusqlite::Error> {
    match row.get::<usize, rusqlite::types::Value>(index)? {
        rusqlite::types::Value::Null => Ok(SqlValue::Null),
        rusqlite::types::Value::Integer(i) => Ok(SqlValue::Integer(i)),
        rusqlite::types::Value::Text(s) => Ok(SqlValue::Text(s)),
        rusqlite::types::Value::Real(_) => Ok(SqlValue::Other),
        rusqlite::types::Value::Blob(_) => Ok(SqlValue::Other),
    }
}

/// Calls `rusqlite::Connection::open`: opens the database file at `path`,
/// creating it where there is none; the path `:memory:` gives a database
/// that lives in memory. Nothing is claimed of the outcome.
#[verifier::external_body]
fn open(path: &str) -> Result<rusqlite::Connection, rusqlite::Error> {
    rusqlite::Connection::open(path)
}

/// Calls `to_string` on a `rusqlite::Error`: the database's own message.
/// Nothing is claimed of the text.
#[verifier::external_body]
fn describe(error: &rusqlite::Error) -> String {
    error.to_string()
}

/// The first `width` columns of a result row, in order. Fails where the
/// row has fewer columns or one of them cannot be read.
fn read_row(row: &rusqlite::Row<'_>, width: usize) -> (r: Result<Vec<SqlValue>, rusqlite::Error>)
    ensures
        r matches Ok(values) ==> values@.len() == width,
{
    let mut values: Vec<SqlValue> = Vec::new();
    let mut index: usize = 0;
    while index < width
        invariant
            index <= width,
            values@.len() == index,
        decreases width - index,
    {
        match column(row, index) {
            Ok(value) => values.push(value),
            Err(e) => {
                return Err(e);
            },
        }
        index += 1;
    }
    Ok(values)
}

/// Whether six values have the types of a stored row: five integers and a
/// text, the due date possibly null.
pub open spec fn row_shape(values: Seq<SqlValue>) -> bool {
    &&& values.len() == COLUMNS
    &&& values[0] is Integer
    &&& values[1] is Text
    &&& values[2] is Integer
    &&& values[3] is Integer
    &&& values[4] is Integer
    &&& (values[5] is Integer || values[5] is Null)
}

/// The task that the values of a stored row stand for.
pub open spec fn decoded_row(values: Seq<SqlValue>) -> Result<Task, StoreError> {
    if !row_shape(values) {
        Err(StoreError::BadRow)
    } else {
        match Status::spec_from_code(values[2]->Integer_0 as int) {
            None => Err(StoreError::BadStatus(values[2]->Integer_0)),
            Some(status) => Ok(
                Task {
                    id: values[0]->Integer_0,
                    task: values[1]->Text_0,
                    status,
                    priority: values[3]->Integer_0,
                    created_at: values[4]->Integer_0,
                    due_at: match values[5] {
                        SqlValue::Integer(t) => Some(t),
                        _ => None,
                    },
                },
            ),
        }
    }
}

/// The values under which a task is stored.
pub open spec fn encoded_row(task: Task) -> Seq<SqlValue> {
    seq![
        SqlValue::Integer(task.id),
        SqlValue::Text(task.task),
        SqlValue::Integer(task.status.spec_code() as i64),
        SqlValue::Integer(task.priority),
        SqlValue::Integer(task.created_at),
        match task.due_at {
            Some(t) => SqlValue::Integer(t),
            None => SqlValue::Null,
        },
    ]
}

/// A task that is stored and read back is the same task.
pub proof fn lemma_row_round_trip(task: Task)
    ensures
        decoded_row(encoded_row(task)) == Ok::<Task, StoreError>(task),
{
    let values = encoded_row(task);
    assert(row_shape(values));
    assert(Status::spec_from_code(task.status.spec_code()) == Some(task.status));
}

/// Turns the values of a stored row into a task. A row of another shape is
/// rejected, and so is a status code outside `0..=3`.
pub fn decode_row(values: &Vec<SqlValue>) -> (r: Result<Task, StoreError>)
    ensures
        r == decoded_row(values@),
{
    if values.len() != COLUMNS {
        return Err(StoreError::BadRow);
    }
    let id = match &values[0] {
        SqlValue::Integer(i) => *i,
        _ => {
            return Err(StoreError::BadRow);
        },
    };
    let task = match &values[1] {
        SqlValue::Text(s) => s.clone(),
        _ => {
            return Err(StoreError::BadRow);
        },
    };
    let code = match &values[2] {
        SqlValue::Integer(i) => *i,
        _ => {
            return Err(StoreError::BadRow);
        },
    };
    let priority = match &values[3] {
        SqlValue::Integer(i) => *i,
        _ => {
            return Err(StoreError::BadRow);
        },
    };
    let created_at = match &values[4] {
        SqlValue::Integer(i) => *i,
        _ => {
            return Err(StoreError::BadRow);
        },
    };
    let due_at = match &values[5] {
        SqlValue::Integer(i) => Some(*i),
        SqlValue::Null => None,
        _ => {
            return Err(StoreError::BadRow);
        },
    };
    match Status::from_code(code) {
        None => Err(StoreError::BadStatus(code)),
        Some(status) => Ok(Task { id, task, status, priority, created_at, due_at }),
    }
}

/// Turns a task into the values under which it is stored.
pub fn encode_row(task: &Task) -> (values: Vec<SqlValue>)
    ensures
        values@ == encoded_row(*task),
        bindable(values@),
{
    let mut values: Vec<SqlValue> = Vec::new();
    values.push(SqlValue::Integer(task.id));
    values.push(SqlValue::Text(task.task.clone()));
    values.push(SqlValue::Integer(task.status.code()));
    values.push(SqlValue::Integer(task.priority));
    values.push(SqlValue::Integer(task.created_at));
    values.push(
        match task.due_at {
            Some(t) => SqlValue::Integer(t),
            None => SqlValue::Null,
        },
    );
    proof {
        assert(values@ =~= encoded_row(*task));
    }
    values
}

/// The tasks that stored rows stand for, where every row stands for one.
pub open spec fn decoded_rows(rows: Seq<Vec<SqlValue>>) -> Seq<Task> {
    Seq::new(rows.len(), |i: int| decoded_row(rows[i]@)->Ok_0)
}

/// Turns stored rows into tasks; fails on the first row that stands for none.
pub fn decode_rows(rows: &Vec<Vec<SqlValue>>) -> (r: Result<Vec<Task>, StoreError>)
    ensures
        match r {
            Ok(tasks) => tasks@ == decoded_rows(rows@) && forall|i: int|
                0 <= i < rows@.len() ==> decoded_row(#[trigger] rows@[i]@) is Ok,
            Err(e) => exists|i: int|
                0 <= i < rows@.len() && decoded_row(rows@[i]@) == Err::<Task, StoreError>(e)
                    && forall|j: int| 0 <= j < i ==> decoded_row(#[trigger] rows@[j]@) is Ok,
        },
{
    let n = rows.len();
    let mut tasks: Vec<Task> = Vec::new();
    let mut k: usize = 0;
    while k < n
        invariant
            n == rows@.len(),
            k <= n,
            tasks@.len() == k,
            forall|i: int| 0 <= i < k ==> decoded_row(#[trigger] rows@[i]@) is Ok,
            forall|i: int| 0 <= i < k ==> tasks@[i] == decoded_row(rows@[i]@)->Ok_0,
        decreases n - k,
    {
        match decode_row(&rows[k]) {
            Ok(task) => tasks.push(task),
            Err(e) => {
                return Err(e);
            },
        }
        k += 1;
    }
    proof {
        assert(tasks@ =~= decoded_rows(rows@));
    }
    Ok(tasks)
}

/// The library's error for a failure of the database.
fn storage_error(error: rusqlite::Error) -> (e: StoreError)
    ensures
        e is Storage,
{
    StoreError::Storage(describe(&error))
}

/// Runs a statement and turns a failure into the library's error.
fn run(conn: &rusqlite::Connection, sql: &str, values: &Vec<SqlValue>) -> (r: Result<
    usize,
    StoreError,
>)
    requires
        bindable(values@),
    ensures
        r matches Err(e) ==> e is Storage,
{
    match run_statement(conn, sql, values) {
        Ok(n) => Ok(n),
        Err(e) => Err(storage_error(e)),
    }
}

/// Creates the task table, and with it the stored sequence of its ids,
/// unless it is there already.
pub fn create_schema(conn: &rusqlite::Connection) -> (r: Result<(), StoreError>)
    ensures
        r matches Err(e) ==> e is Storage,
{
    let none: Vec<SqlValue> = Vec::new();
    match run(conn, TABLE_DDL, &none) {
        Ok(_) => Ok(()),
        Err(e) => Err(e),
    }
}

/// Runs a query and gives the first `width` columns of every result row.
fn query(conn: &rusqlite::Connection, sql: &str, width: usize) -> (r: Result<
    Vec<Vec<SqlValue>>,
    StoreError,
>)
    ensures
        r matches Err(e) ==> e is Storage,
{
    let mut statement = match prepare(conn, sql) {
        Ok(statement) => statement,
        Err(e) => {
            return Err(storage_error(e));
        },
    };
    match query_rows(&mut statement, width) {
        Ok(rows) => Ok(rows),
        Err(e) => Err(storage_error(e)),
    }
}

/// The highest id that the table ever held, as the stored sequence gives
/// it: 0 where no row is stored for it, the integer of the first row's one
/// column else.
pub open spec fn decoded_sequence(stored: Seq<Vec<SqlValue>>) -> Result<i64, StoreError> {
    if stored.len() == 0 {
        Ok(0i64)
    } else if stored[0]@.len() == 1 && stored[0]@[0] is Integer {
        Ok(stored[0]@[0]->Integer_0)
    } else {
        Err(StoreError::BadRow)
    }
}

/// Reads the highest id that the table ever held out of what the sequence
/// query gave.
pub fn decode_sequence(stored: &Vec<Vec<SqlValue>>) -> (r: Result<i64, StoreError>)
    ensures
        r == decoded_sequence(stored@),
{
    if stored.len() == 0 {
        return Ok(0);
    }
    if stored[0].len() != 1 {
        return Err(StoreError::BadRow);
    }
    match &stored[0][0] {
        SqlValue::Integer(seq) => Ok(*seq),
        _ => Err(StoreError::BadRow),
    }
}

/// Reads the highest id that the database remembers as held by the table:
/// 0 where it keeps no sequence, as in a file whose table was created
/// without one, or none for this table yet.
fn load_sequence(conn: &rusqlite::Connection) -> (r: Result<i64, StoreError>)
    ensures
        r matches Err(e) ==> e is Storage || e is BadRow,
{
    let kept = query(conn, SELECT_SEQUENCE_TABLE, 1)?;
    if kept.len() == 0 {
        return Ok(0);
    }
    let sequence = query(conn, SELECT_SEQUENCE, 1)?;
    decode_sequence(&sequence)
}

/// Reads the whole table into a `TaskStore`. The rows come in rising id
/// order. The last id handed out is the highest id that the table ever
/// held, as SQLite remembers it, so that the id of a deleted task is not
/// handed out again; it is never below the last row's id. In a file whose
/// table was created without a sequence SQLite remembers nothing, and the
/// last id is the last row's. Fails where the database fails, where a
/// stored row stands for no task, and where the rows do not come in rising
/// id order.
pub fn load_store(conn: &rusqlite::Connection) -> (r: Result<TaskStore, StoreError>)
    ensures
        r matches Ok(store) ==> store.well_formed() && exists|handed_out: i64|
            store.last_id() == #[trigger] restored_last_id(store.rows(), handed_out),
        r matches Err(e) ==> e is Storage || e is BadRow || e is BadStatus || e is Unordered,
{
    let stored = query(conn, SELECT_ROWS, COLUMNS)?;
    let tasks = decode_rows(&stored)?;
    let handed_out = load_sequence(conn)?;
    TaskStore::restore(tasks, handed_out)
}

/// The text of the statement that writes a change.
pub open spec fn statement_text(change: Change) -> Seq<char> {
    match change {
        Change::Insert(_) => INSERT_ROW@,
        Change::SetStatus(_, _) => UPDATE_STATUS@,
        Change::DeleteCancelled => DELETE_STATUS@,
    }
}

/// The values that the statement of a change is run with: the row's six
/// values for an insertion, the status code and the id for a status change,
/// the code of `Cancelled` for the removal of the cancelled rows.
pub open spec fn statement_values(change: Change) -> Seq<SqlValue> {
    match change {
        Change::Insert(task) => encoded_row(task),
        Change::SetStatus(id, status) => seq![
            SqlValue::Integer(status.spec_code() as i64),
            SqlValue::Integer(id),
        ],
        Change::DeleteCancelled => seq![SqlValue::Integer(Status::Cancelled.spec_code() as i64)],
    }
}

/// The statement that writes a change, and the values to run it with.
pub fn statement_for(change: &Change) -> (r: (&'static str, Vec<SqlValue>))
    ensures
        r.0@ == statement_text(*change),
        r.1@ == statement_values(*change),
        bindable(r.1@),
{
    match change {
        Change::Insert(task) => (INSERT_ROW, encode_row(task)),
        Change::SetStatus(id, status) => {
            let mut values: Vec<SqlValue> = Vec::new();
            values.push(SqlValue::Integer(status.code()));
            values.push(SqlValue::Integer(*id));
            proof {
                assert(values@ =~= statement_values(*change));
            }
            (UPDATE_STATUS, values)
        },
        Change::DeleteCancelled => {
            let mut values: Vec<SqlValue> = Vec::new();
            values.push(SqlValue::Integer(Status::Cancelled.code()));
            proof {
                assert(values@ =~= statement_values(*change));
            }
            (DELETE_STATUS, values)
        },
    }
}

/// Writes one change to the database, by the statement and the values that
/// `statement_for` gives, and reports the number of rows that the statement
/// changed. Fails only where the database does.
pub fn write_change(conn: &rusqlite::Connection, change: &Change) -> (r: Result<usize, StoreError>)
    ensures
        r matches Err(e) ==> e is Storage,
{
    let (sql, values) = statement_for(change);
    run(conn, sql, &values)
}

/// Writes a run of changes to the database, in order, and gives for each
/// the number of rows that its statement changed; stops at the first
/// failure. With nothing to write it succeeds; else it fails only where
/// the database does.
pub fn write_changes(conn: &rusqlite::Connection, changes: &Vec<Change>) -> (r: Result<
    Vec<usize>,
    StoreError,
>)
    ensures
        changes@.len() == 0 ==> r is Ok,
        r matches Ok(counts) ==> counts@.len() == changes@.len(),
        r matches Err(e) ==> e is Storage,
{
    let n = changes.len();
    let mut counts: Vec<usize> = Vec::new();
    let mut k: usize = 0;
    while k < n
        invariant
            n == changes@.len(),
            k <= n,
            counts@.len() == k,
        decreases n - k,
    {
        match write_change(conn, &changes[k]) {
            Ok(changed) => counts.push(changed),
            Err(e) => {
                return Err(e);
            },
        }
        k += 1;
    }
    Ok(counts)
}

/// Carries out one request against the database: reads the table, carries
/// the request out on it with `execute`, and writes the changes that
/// `execute` gave. The report is what the request reports on the table
/// that was read.
pub fn run_command(conn: &rusqlite::Connection, command: Command) -> (r: Result<Report, StoreError>)
    ensures
        r matches Ok(report) ==> exists|rows: Seq<Task>, last_id: i64|
            is_table(rows, last_id) && report_fits(rows, last_id, command, report),
        r matches Err(e) ==> e is Storage || e is BadRow || e is BadStatus || e is Unordered,
{
    let mut store = load_store(conn)?;
    let ghost rows = store.rows();
    let ghost last_id = store.last_id();
    let (report, changes) = execute(&mut store, command);
    write_changes(conn, &changes)?;
    proof {
        assert(is_table(rows, last_id) && report_fits(rows, last_id, command, report));
    }
    Ok(report)
}

/// Opens the database at `path` and creates the task table on first use.
pub fn init_db(path: &str) -> (r: Result<rusqlite::Connection, StoreError>)
    ensures
        r matches Err(e) ==> e is Storage,
{
    let conn = match open(path) {
        Ok(conn) => conn,
        Err(e) => {
            return Err(storage_error(e));
        },
    };
    match create_schema(&conn) {
        Ok(()) => Ok(conn),
        Err(e) => Err(e),
    }
}

/// Records a new pending task and gives its id. The priority is 3 where
/// none is given; a due date that cannot be read leaves the task without one.
pub fn add_task(conn: &rusqlite::Connection, task: &str, priority: Option<i64>, due: Option<String>) -> (r:
    Result<i64, StoreError>)
    ensures
        r matches Ok(id) ==> exists|rows: Seq<Task>, last_id: i64|
            is_table(rows, last_id) && last_id < i64::MAX && id == last_id + 1,
        r matches Err(e) ==> e is IdsExhausted || e is Storage || e is BadRow || e is BadStatus
            || e is Unordered,
{
    match run_command(conn, Command::add(task, priority, due)) {
        Ok(Report::Added(added)) => added,
        Ok(_) => unreached(),
        Err(e) => Err(e),
    }
}

/// The tasks to show: every task where `all` is set, else the completed
/// ones where `completed` is set, else the open ones in listing order.
pub fn list_tasks(conn: &rusqlite::Connection, all: bool, completed: bool) -> (r: Result<
    Vec<Task>,
    StoreError,
>)
    ensures
        r matches Ok(tasks) ==> exists|rows: Seq<Task>|
            ids_increasing(rows) && is_listing(rows, scope_of(all, completed), tasks@),
        r matches Err(e) ==> e is Storage || e is BadRow || e is BadStatus || e is Unordered,
{
    let store = load_store(conn)?;
    let tasks = store.list(Scope::from_flags(all, completed));
    proof {
        assert(ids_increasing(store.rows()));
    }
    Ok(tasks)
}

/// What a status update reports, given how many rows the statement
/// changed: that the id was not found where it changed none.
pub fn update_outcome(id: i64, changed: usize) -> (r: Result<usize, StoreError>)
    ensures
        changed == 0 ==> r == Err::<usize, StoreError>(StoreError::NotFound(id)),
        changed != 0 ==> r == Ok::<usize, StoreError>(changed),
{
    if changed == 0 {
        Err(StoreError::NotFound(id))
    } else {
        Ok(changed)
    }
}

/// Whether `r` is what a status update on `id` may report, given the rows
/// that were read, if the read went through. Where no row has the id, it
/// reports that the id was not found. Where a row has it, it reports the
/// rows changed, at least one, unless the write fails or changes none.
pub open spec fn update_fits(read: Option<Seq<Task>>, id: i64, r: Result<usize, StoreError>) -> bool {
    match read {
        None => r matches Err(e) && (e is Storage || e is BadRow || e is BadStatus
            || e is Unordered),
        Some(rows) => ids_increasing(rows) && (if has_id(rows, id) {
            match r {
                Ok(n) => n >= 1,
                Err(e) => e == StoreError::NotFound(id) || e is Storage,
            }
        } else {
            r == Err::<usize, StoreError>(StoreError::NotFound(id))
        }),
    }
}

/// Gives the task with the id the status, whatever its status was, and
/// reports how many rows were changed: at least one. The table is read,
/// the status is changed there with `mark`, and the change that `mark`
/// gave is written. Reports that the id was not found where the table read
/// holds no such row, and then writes nothing, or where the statement
/// changed no row; else fails only where reading or writing does.
pub fn update_task_status(conn: &rusqlite::Connection, id: i64, status: Status) -> (r: Result<
    usize,
    StoreError,
>)
    ensures
        r matches Ok(n) ==> n >= 1,
        exists|read: Option<Seq<Task>>| #[trigger] update_fits(read, id, r),
        r matches Err(e) ==> e == StoreError::NotFound(id) || e is Storage || e is BadRow
            || e is BadStatus || e is Unordered,
{
    let mut store = match load_store(conn) {
        Ok(store) => store,
        Err(e) => {
            proof {
                assert(update_fits(None, id, Err::<usize, StoreError>(e)));
            }
            return Err(e);
        },
    };
    let ghost rows = store.rows();
    let (marked, changes) = mark(&mut store, id, status);
    match marked {
        Ok(()) => {},
        Err(e) => {
            proof {
                assert(update_fits(Some(rows), id, Err::<usize, StoreError>(e)));
            }
            return Err(e);
        },
    }
    let counts = match write_changes(conn, &changes) {
        Ok(counts) => counts,
        Err(e) => {
            proof {
                assert(update_fits(Some(rows), id, Err::<usize, StoreError>(e)));
            }
            return Err(e);
        },
    };
    let r = update_outcome(id, counts[0]);
    proof {
        assert(update_fits(Some(rows), id, r));
    }
    r
}

/// Marks the task completed, whatever its status was, and reports how
/// many rows were changed: at least one. Reports that the id was not found
/// where no task has it; else fails only where reading or writing does.
pub fn mark_task_done(conn: &rusqlite::Connection, id: i64) -> (r: Result<usize, StoreError>)
    ensures
        r matches Ok(n) ==> n >= 1,
        exists|read: Option<Seq<Task>>| #[trigger] update_fits(read, id, r),
        r matches Err(e) ==> e == StoreError::NotFound(id) || e is Storage || e is BadRow
            || e is BadStatus || e is Unordered,
{
    update_task_status(conn, id, Status::Completed)
}

/// Sets the given task back to pending and reports how many rows were
/// changed: at least one. Reports that the id was not found where no task
/// has it; else fails only where reading or writing does.
pub fn mark_task_pending(conn: &rusqlite::Connection, task: Task) -> (r: Result<usize, StoreError>)
    ensures
        r matches Ok(n) ==> n >= 1,
        exists|read: Option<Seq<Task>>| #[trigger] update_fits(read, task.id, r),
        r matches Err(e) ==> e == StoreError::NotFound(task.id) || e is Storage || e is BadRow
            || e is BadStatus || e is Unordered,
{
    update_task_status(conn, task.id, Status::Pending)
}

/// Marks the task cancelled, whatever its status was, and reports how
/// many rows were changed: at least one. Reports that the id was not found
/// where no task has it; else fails only where reading or writing does.
pub fn mark_task_cancelled(conn: &rusqlite::Connection, id: i64) -> (r: Result<usize, StoreError>)
    ensures
        r matches Ok(n) ==> n >= 1,
        exists|read: Option<Seq<Task>>| #[trigger] update_fits(read, id, r),
        r matches Err(e) ==> e == StoreError::NotFound(id) || e is Storage || e is BadRow
            || e is BadStatus || e is Unordered,
{
    update_task_status(conn, id, Status::Cancelled)
}

/// Starts the named task, or the pending task next in line where none is
/// named. Refused while a task is in progress. The outcome is that of an
/// advance on the table that was read.
pub fn select_next_task(conn: &rusqlite::Connection, id: Option<i64>) -> (r: Result<
    Advance,
    StoreError,
>)
    ensures
        r matches Ok(outcome) ==> exists|rows: Seq<Task>|
            ids_increasing(rows) && outcome == advance_outcome(rows, id),
        r matches Ok(outcome) ==> match id {
            Some(x) => outcome == Advance::Started(x) || outcome == Advance::NotFound(x)
                || outcome is AlreadyActive,
            None => !(outcome is NotFound),
        },
        r matches Err(e) ==> e is Storage || e is BadRow || e is BadStatus || e is Unordered,
{
    match run_command(conn, Command::Next { id }) {
        Ok(Report::Advanced(outcome)) => Ok(outcome),
        Ok(_) => unreached(),
        Err(e) => Err(e),
    }
}

/// The task in progress, if there is one: the first row in progress of the
/// table that was read. Fails where the table cannot be read.
pub fn get_current_active_task(conn: &rusqlite::Connection) -> (r: Result<
    Option<Task>,
    StoreError,
>)
    ensures
        r matches Ok(active) ==> exists|rows: Seq<Task>|
            ids_increasing(rows) && active == first_active(rows),
        r matches Ok(Some(task)) ==> task.status == Status::InProgress,
        r matches Err(e) ==> e is Storage || e is BadRow || e is BadStatus || e is Unordered,
{
    match run_command(conn, Command::Show) {
        Ok(Report::Shown(active)) => {
            proof {
                let (rows, last_id) = choose|rows: Seq<Task>, last_id: i64|
                    is_table(rows, last_id) && report_fits(
                        rows,
                        last_id,
                        Command::Show,
                        Report::Shown(active),
                    );
                lemma_first_active_none(rows);
                assert(ids_increasing(rows) && active == first_active(rows));
            }
            Ok(active)
        },
        Ok(_) => unreached(),
        Err(e) => Err(e),
    }
}

/// Deletes the cancelled tasks for good and reports how many rows the
/// database removed. The change written is the one that `execute` gives
/// for the removal.
pub fn collect_garbage(conn: &rusqlite::Connection) -> (r: Result<usize, StoreError>)
    ensures
        r matches Err(e) ==> e is Storage || e is BadRow || e is BadStatus || e is Unordered,
{
    let mut store = load_store(conn)?;
    let (report, changes) = execute(&mut store, Command::Gc);
    let counts = write_changes(conn, &changes)?;
    Ok(counts[0])
}

} // verus!
