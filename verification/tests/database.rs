use rusqlite::Connection;
use td::command::{Command, Report};
use td::db::{
    add_task, collect_garbage, create_schema, decode_row, decode_sequence, encode_row,
    get_current_active_task, update_task_status,
    init_db, list_tasks, load_store, mark_task_cancelled, mark_task_done, mark_task_pending,
    run_command, select_next_task, statement_for, update_outcome, write_change, write_changes,
    SqlValue, DELETE_STATUS, INSERT_ROW, TABLE_DDL, UPDATE_STATUS,
};
use td::command::Change;
use td::error::StoreError;
use td::scheduler::Advance;
use td::status::Status;
use td::task::Task;

fn init_test_db() -> Connection {
    let conn = Connection::open_in_memory().unwrap();
    conn.execute(TABLE_DDL, []).unwrap();
    conn
}

fn task_from_row(row: &rusqlite::Row) -> rusqlite::Result<Task> {
    Ok(Task {
        id: row.get(0)?,
        task: row.get(1)?,
        status: Status::from_code(row.get::<_, i64>(2)?).unwrap(),
        priority: row.get(3)?,
        created_at: row.get(4)?,
        due_at: row.get(5)?,
    })
}

fn get_single_task(conn: &Connection) -> Task {
    conn.query_row("SELECT * FROM tasks", [], |row| task_from_row(row)).unwrap()
}

fn count_tasks(conn: &Connection) -> usize {
    let mut statement = conn.prepare("SELECT COUNT(*) FROM tasks").unwrap();
    let count: i64 = statement.query_row([], |row| row.get(0)).unwrap();
    count as usize
}

#[test]
fn test_add_tasks() {
    let conn = init_test_db();

    add_task(&conn, "Test task", None, None).unwrap();

    assert_eq!(count_tasks(&conn), 1);

    add_task(&conn, "Test task", None, None).unwrap();
    add_task(&conn, "Test task", None, None).unwrap();
    add_task(&conn, "Test task", None, None).unwrap();

    assert_eq!(count_tasks(&conn), 4);
}

#[test]
fn test_mark_done() {
    let conn = init_test_db();

    add_task(&conn, "Test task", None, None).unwrap();
    mark_task_done(&conn, 1).unwrap();

    let task = get_single_task(&conn);

    assert_eq!(task.status, Status::Completed)
}

#[test]
fn test_select_next_task() {
    let conn = init_test_db();

    add_task(&conn, "Test task", None, None).unwrap();
    select_next_task(&conn, None).unwrap();

    let task = get_single_task(&conn);

    assert_eq!(task.status, Status::InProgress)
}

#[test]
fn test_select_next_task_from_multiple() {
    let conn = init_test_db();

    add_task(&conn, "Test task", Some(1), None).unwrap(); // id 1
    add_task(&conn, "Test task", None, None).unwrap(); // id 2
    add_task(&conn, "Test task", Some(5), None).unwrap(); // id 3
    add_task(&conn, "Test task", Some(4), None).unwrap(); // id 4

    select_next_task(&conn, None).unwrap();

    let task = conn
        .query_row("SELECT * FROM tasks WHERE status = 1;", [], |row| task_from_row(row))
        .unwrap();

    assert_eq!(task.status, Status::InProgress);
    assert_eq!(task.id, 3);
}

#[test]
fn test_no_next_task_to_select() {
    let conn = init_test_db();

    add_task(&conn, "Test task", None, None).unwrap();
    mark_task_done(&conn, 1).unwrap();
    let outcome = select_next_task(&conn, None).unwrap();
    assert_eq!(outcome, Advance::NoneWaiting);

    let count: i64 = conn
        .query_row("SELECT COUNT(*) FROM tasks WHERE status = 1;", [], |row| row.get(0))
        .unwrap();

    assert_eq!(count, 0)
}

#[test]
fn test_cancel_and_gc() {
    let conn = init_test_db();

    add_task(&conn, "Test task", None, None).unwrap();

    mark_task_cancelled(&conn, 1).unwrap();
    assert_eq!(collect_garbage(&conn).unwrap(), 1);

    assert_eq!(count_tasks(&conn), 0)
}

#[test]
fn added_task_is_pending_with_default_priority() {
    let conn = init_test_db();
    let id = add_task(&conn, "Write report", None, None).unwrap();
    assert_eq!(id, 1);
    let task = get_single_task(&conn);
    assert_eq!(task.id, 1);
    assert_eq!(task.task, "Write report");
    assert_eq!(task.status, Status::Pending);
    assert_eq!(task.priority, 3);
    assert_eq!(task.due_at, None);
}

#[test]
fn unreadable_due_date_leaves_task_without_one() {
    let conn = init_test_db();
    add_task(&conn, "a", Some(2), Some("not a date".to_string())).unwrap();
    let task = get_single_task(&conn);
    assert_eq!(task.due_at, None);
    assert_eq!(task.priority, 2);
}

#[test]
fn due_date_is_stored_and_shown_again() {
    let conn = init_test_db();
    add_task(&conn, "a", None, Some("02.09.2025".to_string())).unwrap();
    let task = get_single_task(&conn);
    let due = task.due_at.unwrap();
    assert_eq!(td::date::timestamp_to_local_str(due).unwrap(), "2025-09-02");
}

#[test]
fn mark_done_on_missing_id_reports_not_found() {
    let conn = init_test_db();
    add_task(&conn, "a", None, None).unwrap();
    let r = mark_task_done(&conn, 42);
    assert!(matches!(r, Err(StoreError::NotFound(42))));
    assert_eq!(get_single_task(&conn).status, Status::Pending);
}

#[test]
fn mark_done_works_whatever_the_status_was() {
    let conn = init_test_db();
    add_task(&conn, "a", None, None).unwrap();
    mark_task_cancelled(&conn, 1).unwrap();
    assert_eq!(mark_task_done(&conn, 1).unwrap(), 1);
    assert_eq!(get_single_task(&conn).status, Status::Completed);
}

#[test]
fn pause_sets_the_active_task_back() {
    let conn = init_test_db();
    add_task(&conn, "a", None, None).unwrap();
    assert_eq!(select_next_task(&conn, None).unwrap(), Advance::Started(1));
    let active = get_current_active_task(&conn).unwrap().unwrap();
    assert_eq!(active.id, 1);
    assert_eq!(active.status, Status::InProgress);
    mark_task_pending(&conn, active).unwrap();
    assert_eq!(get_single_task(&conn).status, Status::Pending);
    assert!(get_current_active_task(&conn).unwrap().is_none());
}

#[test]
fn advance_is_refused_while_a_task_is_active() {
    let conn = init_test_db();
    add_task(&conn, "a", None, None).unwrap();
    add_task(&conn, "b", None, None).unwrap();
    assert_eq!(select_next_task(&conn, None).unwrap(), Advance::Started(1));
    assert_eq!(select_next_task(&conn, None).unwrap(), Advance::AlreadyActive(1));
    assert_eq!(select_next_task(&conn, Some(2)).unwrap(), Advance::AlreadyActive(1));
    let count: i64 = conn
        .query_row("SELECT COUNT(*) FROM tasks WHERE status = 1;", [], |row| row.get(0))
        .unwrap();
    assert_eq!(count, 1);
}

#[test]
fn advance_to_missing_id_reports_not_found() {
    let conn = init_test_db();
    add_task(&conn, "a", None, None).unwrap();
    assert_eq!(select_next_task(&conn, Some(9)).unwrap(), Advance::NotFound(9));
    assert_eq!(get_single_task(&conn).status, Status::Pending);
}

#[test]
fn earlier_due_date_breaks_a_priority_tie_in_the_database() {
    let conn = init_test_db();
    add_task(&conn, "no due", Some(4), None).unwrap();
    add_task(&conn, "late", Some(4), Some("10.10.2025".to_string())).unwrap();
    add_task(&conn, "early", Some(4), Some("01.10.2025".to_string())).unwrap();
    assert_eq!(select_next_task(&conn, None).unwrap(), Advance::Started(3));
}

#[test]
fn listing_scopes_in_the_database() {
    let conn = init_test_db();
    add_task(&conn, "a", Some(1), None).unwrap();
    add_task(&conn, "b", Some(5), None).unwrap();
    add_task(&conn, "c", Some(3), None).unwrap();
    add_task(&conn, "d", Some(2), None).unwrap();
    mark_task_done(&conn, 1).unwrap();
    mark_task_cancelled(&conn, 4).unwrap();
    select_next_task(&conn, Some(3)).unwrap();

    let all: Vec<i64> = list_tasks(&conn, true, false).unwrap().iter().map(|t| t.id).collect();
    assert_eq!(all, vec![1, 2, 3, 4]);
    let all_wins: Vec<i64> = list_tasks(&conn, true, true).unwrap().iter().map(|t| t.id).collect();
    assert_eq!(all_wins, vec![1, 2, 3, 4]);
    let done: Vec<i64> = list_tasks(&conn, false, true).unwrap().iter().map(|t| t.id).collect();
    assert_eq!(done, vec![1]);
    let open: Vec<i64> = list_tasks(&conn, false, false).unwrap().iter().map(|t| t.id).collect();
    assert_eq!(open, vec![3, 2]);
}

#[test]
fn garbage_collection_keeps_other_tasks() {
    let conn = init_test_db();
    add_task(&conn, "a", None, None).unwrap();
    add_task(&conn, "b", None, None).unwrap();
    add_task(&conn, "c", None, None).unwrap();
    mark_task_cancelled(&conn, 2).unwrap();
    mark_task_done(&conn, 3).unwrap();
    assert_eq!(collect_garbage(&conn).unwrap(), 1);
    assert_eq!(count_tasks(&conn), 2);
    let left: Vec<(i64, Status)> =
        list_tasks(&conn, true, false).unwrap().iter().map(|t| (t.id, t.status)).collect();
    assert_eq!(left, vec![(1, Status::Pending), (3, Status::Completed)]);
    assert_eq!(collect_garbage(&conn).unwrap(), 0);
}

#[test]
fn init_db_creates_the_table_once() {
    let conn = init_db(":memory:").unwrap();
    assert_eq!(count_tasks(&conn), 0);
    create_schema(&conn).unwrap();
    add_task(&conn, "a", None, None).unwrap();
    create_schema(&conn).unwrap();
    assert_eq!(count_tasks(&conn), 1);
}

#[test]
fn storage_failure_is_reported() {
    let conn = Connection::open_in_memory().unwrap();
    assert!(matches!(add_task(&conn, "a", None, None), Err(StoreError::Storage(_))));
    assert!(matches!(list_tasks(&conn, false, false), Err(StoreError::Storage(_))));
    assert!(matches!(mark_task_done(&conn, 1), Err(StoreError::Storage(_))));
    assert!(matches!(collect_garbage(&conn), Err(StoreError::Storage(_))));
    assert!(matches!(get_current_active_task(&conn), Err(StoreError::Storage(_))));
    assert!(matches!(select_next_task(&conn, None), Err(StoreError::Storage(_))));
}

#[test]
fn stored_status_outside_the_codes_is_rejected() {
    let conn = init_test_db();
    conn.execute(
        "INSERT INTO tasks (task, status, priority, created_at) VALUES ('x', 7, 3, 0)",
        [],
    )
    .unwrap();
    assert!(matches!(load_store(&conn), Err(StoreError::BadStatus(7))));
    assert!(matches!(list_tasks(&conn, true, false), Err(StoreError::BadStatus(7))));
}

#[test]
fn stored_row_of_wrong_type_is_rejected() {
    let conn = init_test_db();
    conn.execute(
        "INSERT INTO tasks (task, status, priority, created_at) VALUES ('x', 0, 'high', 0)",
        [],
    )
    .unwrap();
    assert!(matches!(load_store(&conn), Err(StoreError::BadRow)));
}

#[test]
fn load_store_reads_rows_in_id_order() {
    let conn = init_test_db();
    add_task(&conn, "a", Some(1), None).unwrap();
    add_task(&conn, "b", Some(2), Some("02.09.2025".to_string())).unwrap();
    let store = load_store(&conn).unwrap();
    assert_eq!(store.len(), 2);
    assert_eq!(store.tasks()[0].id, 1);
    assert_eq!(store.tasks()[0].task, "a");
    assert_eq!(store.tasks()[1].id, 2);
    assert_eq!(store.tasks()[1].priority, 2);
    assert!(store.tasks()[1].due_at.is_some());
}

#[test]
fn row_codec_round_trip() {
    let task = Task {
        id: 12,
        task: "say \"hi\"".to_string(),
        status: Status::Cancelled,
        priority: -2,
        created_at: 1_700_000_000,
        due_at: Some(1_800_000_000),
    };
    let values = encode_row(&task);
    assert_eq!(values.len(), 6);
    assert!(matches!(values[0], SqlValue::Integer(12)));
    assert!(matches!(values[2], SqlValue::Integer(3)));
    assert!(matches!(values[5], SqlValue::Integer(1_800_000_000)));
    let back = decode_row(&values).unwrap();
    assert_eq!(back.id, 12);
    assert_eq!(back.task, "say \"hi\"");
    assert_eq!(back.status, Status::Cancelled);
    assert_eq!(back.priority, -2);
    assert_eq!(back.created_at, 1_700_000_000);
    assert_eq!(back.due_at, Some(1_800_000_000));
}

#[test]
fn decode_row_rejects_bad_rows() {
    let short = vec![SqlValue::Integer(1)];
    assert!(matches!(decode_row(&short), Err(StoreError::BadRow)));
    let bad_status = vec![
        SqlValue::Integer(1),
        SqlValue::Text("a".to_string()),
        SqlValue::Integer(4),
        SqlValue::Integer(3),
        SqlValue::Integer(0),
        SqlValue::Null,
    ];
    assert!(matches!(decode_row(&bad_status), Err(StoreError::BadStatus(4))));
    let negative_status = vec![
        SqlValue::Integer(1),
        SqlValue::Text("a".to_string()),
        SqlValue::Integer(-1),
        SqlValue::Integer(3),
        SqlValue::Integer(0),
        SqlValue::Null,
    ];
    assert!(matches!(decode_row(&negative_status), Err(StoreError::BadStatus(-1))));
    let bad_due = vec![
        SqlValue::Integer(1),
        SqlValue::Text("a".to_string()),
        SqlValue::Integer(0),
        SqlValue::Integer(3),
        SqlValue::Integer(0),
        SqlValue::Other,
    ];
    assert!(matches!(decode_row(&bad_due), Err(StoreError::BadRow)));
}

#[test]
fn update_outcome_turns_zero_rows_into_not_found() {
    assert!(matches!(update_outcome(5, 0), Err(StoreError::NotFound(5))));
    assert!(matches!(update_outcome(5, 1), Ok(1)));
    assert!(matches!(update_outcome(5, 3), Ok(3)));
}

#[test]
fn run_command_done_with_next_chains_into_the_next_task() {
    let conn = init_test_db();
    add_task(&conn, "a", Some(2), None).unwrap();
    add_task(&conn, "b", Some(5), None).unwrap();
    add_task(&conn, "c", Some(4), None).unwrap();
    let report = run_command(&conn, Command::Next { id: None }).unwrap();
    assert!(matches!(report, Report::Advanced(Advance::Started(2))));
    let report = run_command(&conn, Command::Done { id: 2, next: true }).unwrap();
    assert!(matches!(
        report,
        Report::Done { done: Ok(()), next: Some(Advance::Started(3)) }
    ));
    let statuses: Vec<Status> =
        list_tasks(&conn, true, false).unwrap().iter().map(|t| t.status).collect();
    assert_eq!(statuses, vec![Status::Pending, Status::Completed, Status::InProgress]);
}

#[test]
fn run_command_cancel_with_delete_removes_the_task() {
    let conn = init_test_db();
    add_task(&conn, "a", None, None).unwrap();
    add_task(&conn, "b", None, None).unwrap();
    let report = run_command(&conn, Command::Cancel { id: 1, delete: true }).unwrap();
    assert!(matches!(report, Report::Cancelled { cancelled: Ok(()), removed: Some(1) }));
    assert_eq!(count_tasks(&conn), 1);
    assert_eq!(get_single_task(&conn).id, 2);
}

#[test]
fn run_command_add_show_pause_gc() {
    let conn = init_test_db();
    let report = run_command(
        &conn,
        Command::Add { task: "a".to_string(), priority: Some(4), due_at: Some(99), created_at: 7 },
    )
    .unwrap();
    assert!(matches!(report, Report::Added(Ok(1))));
    let task = get_single_task(&conn);
    assert_eq!(task.priority, 4);
    assert_eq!(task.due_at, Some(99));
    assert_eq!(task.created_at, 7);
    assert!(matches!(run_command(&conn, Command::Show).unwrap(), Report::Shown(None)));
    assert!(matches!(run_command(&conn, Command::Pause).unwrap(), Report::Paused(None)));
    run_command(&conn, Command::Next { id: Some(1) }).unwrap();
    match run_command(&conn, Command::Show).unwrap() {
        Report::Shown(Some(t)) => assert_eq!(t.id, 1),
        other => panic!("unexpected report {:?}", other),
    }
    assert!(matches!(run_command(&conn, Command::Pause).unwrap(), Report::Paused(Some(1))));
    assert_eq!(get_single_task(&conn).status, Status::Pending);
    assert!(matches!(run_command(&conn, Command::Gc).unwrap(), Report::Collected(0)));
    match run_command(&conn, Command::List { all: false, completed: false }).unwrap() {
        Report::Listed(tasks) => assert_eq!(tasks.len(), 1),
        other => panic!("unexpected report {:?}", other),
    }
}

#[test]
fn statement_for_each_change() {
    let task = Task {
        id: 4,
        task: "a".to_string(),
        status: Status::Pending,
        priority: 2,
        created_at: 10,
        due_at: None,
    };
    let (sql, values) = statement_for(&Change::Insert(task));
    assert_eq!(sql, INSERT_ROW);
    assert_eq!(values.len(), 6);
    assert!(matches!(values[0], SqlValue::Integer(4)));
    assert!(matches!(&values[1], SqlValue::Text(s) if s == "a"));
    assert!(matches!(values[2], SqlValue::Integer(0)));
    assert!(matches!(values[3], SqlValue::Integer(2)));
    assert!(matches!(values[4], SqlValue::Integer(10)));
    assert!(matches!(values[5], SqlValue::Null));
    let (sql, values) = statement_for(&Change::SetStatus(9, Status::Completed));
    assert_eq!(sql, UPDATE_STATUS);
    assert!(matches!(values[..], [SqlValue::Integer(2), SqlValue::Integer(9)]));
    let (sql, values) = statement_for(&Change::DeleteCancelled);
    assert_eq!(sql, DELETE_STATUS);
    assert!(matches!(values[..], [SqlValue::Integer(3)]));
}

#[test]
fn write_change_reports_changed_rows() {
    let conn = init_test_db();
    add_task(&conn, "a", None, None).unwrap();
    add_task(&conn, "b", None, None).unwrap();
    assert_eq!(write_change(&conn, &Change::SetStatus(1, Status::Cancelled)).unwrap(), 1);
    assert_eq!(write_change(&conn, &Change::SetStatus(7, Status::Cancelled)).unwrap(), 0);
    assert_eq!(write_change(&conn, &Change::DeleteCancelled).unwrap(), 1);
    assert_eq!(count_tasks(&conn), 1);
    assert_eq!(get_single_task(&conn).id, 2);
}

#[test]
fn write_changes_in_order_and_with_nothing_to_write() {
    let conn = init_test_db();
    assert!(write_changes(&conn, &vec![]).is_ok());
    let closed = Connection::open_in_memory().unwrap();
    assert!(write_changes(&closed, &vec![]).is_ok());
    assert!(matches!(
        write_changes(&closed, &vec![Change::DeleteCancelled]),
        Err(StoreError::Storage(_))
    ));
    add_task(&conn, "a", None, None).unwrap();
    let changes = vec![
        Change::SetStatus(1, Status::InProgress),
        Change::SetStatus(1, Status::Cancelled),
        Change::DeleteCancelled,
    ];
    write_changes(&conn, &changes).unwrap();
    assert_eq!(count_tasks(&conn), 0);
}

#[test]
fn load_store_continues_ids_after_the_last_row() {
    let conn = init_test_db();
    assert_eq!(load_store(&conn).unwrap().len(), 0);
    add_task(&conn, "a", None, None).unwrap();
    add_task(&conn, "b", None, None).unwrap();
    let mut store = load_store(&conn).unwrap();
    assert_eq!(store.create("c".to_string(), None, None, 0).unwrap(), 3);
}

#[test]
fn id_of_a_deleted_task_is_not_handed_out_again() {
    let conn = init_test_db();
    assert_eq!(add_task(&conn, "a", None, None).unwrap(), 1);
    assert_eq!(add_task(&conn, "b", None, None).unwrap(), 2);
    mark_task_cancelled(&conn, 2).unwrap();
    assert_eq!(collect_garbage(&conn).unwrap(), 1);
    assert_eq!(add_task(&conn, "c", None, None).unwrap(), 3);
    let ids: Vec<i64> = list_tasks(&conn, true, false).unwrap().iter().map(|t| t.id).collect();
    assert_eq!(ids, vec![1, 3]);
}

#[test]
fn ids_go_on_after_every_task_is_deleted() {
    let conn = init_test_db();
    add_task(&conn, "a", None, None).unwrap();
    add_task(&conn, "b", None, None).unwrap();
    mark_task_cancelled(&conn, 1).unwrap();
    mark_task_cancelled(&conn, 2).unwrap();
    assert_eq!(collect_garbage(&conn).unwrap(), 2);
    assert_eq!(count_tasks(&conn), 0);
    assert_eq!(add_task(&conn, "c", None, None).unwrap(), 3);
    let report = run_command(&conn, Command::Cancel { id: 3, delete: true }).unwrap();
    assert!(matches!(report, Report::Cancelled { cancelled: Ok(()), removed: Some(1) }));
    assert_eq!(add_task(&conn, "d", None, None).unwrap(), 4);
    assert_eq!(get_single_task(&conn).id, 4);
}

#[test]
fn ids_follow_rows_that_were_stored_by_other_means() {
    let conn = init_test_db();
    conn.execute(
        "INSERT INTO tasks (id, task, status, priority, created_at) VALUES (10, 'x', 0, 3, 0)",
        [],
    )
    .unwrap();
    assert_eq!(add_task(&conn, "a", None, None).unwrap(), 11);
}

#[test]
fn decode_sequence_each_case() {
    assert!(matches!(decode_sequence(&vec![]), Ok(0)));
    assert!(matches!(decode_sequence(&vec![vec![SqlValue::Integer(7)]]), Ok(7)));
    assert!(matches!(
        decode_sequence(&vec![vec![SqlValue::Integer(7)], vec![SqlValue::Integer(9)]]),
        Ok(7)
    ));
    assert!(matches!(decode_sequence(&vec![vec![SqlValue::Null]]), Err(StoreError::BadRow)));
    assert!(matches!(decode_sequence(&vec![vec![]]), Err(StoreError::BadRow)));
    assert!(matches!(
        decode_sequence(&vec![vec![SqlValue::Integer(1), SqlValue::Integer(2)]]),
        Err(StoreError::BadRow)
    ));
}

#[test]
fn table_without_a_stored_sequence_is_read_by_its_rows() {
    let conn = Connection::open_in_memory().unwrap();
    conn.execute(
        "CREATE TABLE tasks (id INTEGER PRIMARY KEY, task TEXT NOT NULL,
         status INTEGER NOT NULL DEFAULT 0, priority INTEGER NOT NULL DEFAULT 3,
         created_at INT NOT NULL, due_at INT)",
        [],
    )
    .unwrap();
    assert_eq!(load_store(&conn).unwrap().len(), 0);
    assert_eq!(add_task(&conn, "a", None, None).unwrap(), 1);
    conn.execute(
        "INSERT INTO tasks (id, task, status, priority, created_at) VALUES (5, 'x', 0, 4, 0)",
        [],
    )
    .unwrap();
    assert_eq!(add_task(&conn, "b", Some(5), None).unwrap(), 6);
    create_schema(&conn).unwrap();
    assert_eq!(select_next_task(&conn, None).unwrap(), Advance::Started(6));
    let ids: Vec<i64> = list_tasks(&conn, false, false).unwrap().iter().map(|t| t.id).collect();
    assert_eq!(ids, vec![6, 5, 1]);
    assert_eq!(mark_task_done(&conn, 6).unwrap(), 1);
    assert!(get_current_active_task(&conn).unwrap().is_none());
}

#[test]
fn active_task_of_an_empty_table_is_none() {
    let conn = init_test_db();
    assert!(get_current_active_task(&conn).unwrap().is_none());
    add_task(&conn, "a", None, None).unwrap();
    assert!(get_current_active_task(&conn).unwrap().is_none());
}

#[test]
fn update_task_status_sets_any_status() {
    let conn = init_test_db();
    add_task(&conn, "a", None, None).unwrap();
    add_task(&conn, "b", None, None).unwrap();
    assert_eq!(update_task_status(&conn, 2, Status::InProgress).unwrap(), 1);
    assert_eq!(update_task_status(&conn, 2, Status::Pending).unwrap(), 1);
    assert_eq!(update_task_status(&conn, 1, Status::Cancelled).unwrap(), 1);
    let statuses: Vec<Status> =
        list_tasks(&conn, true, false).unwrap().iter().map(|t| t.status).collect();
    assert_eq!(statuses, vec![Status::Cancelled, Status::Pending]);
    assert!(matches!(
        update_task_status(&conn, 3, Status::Completed),
        Err(StoreError::NotFound(3))
    ));
    assert_eq!(count_tasks(&conn), 2);
}

#[test]
fn write_changes_reports_a_count_for_each_change() {
    let conn = init_test_db();
    add_task(&conn, "a", None, None).unwrap();
    add_task(&conn, "b", None, None).unwrap();
    let changes = vec![
        Change::SetStatus(1, Status::Cancelled),
        Change::SetStatus(9, Status::Cancelled),
        Change::SetStatus(2, Status::Cancelled),
        Change::DeleteCancelled,
    ];
    assert_eq!(write_changes(&conn, &changes).unwrap(), vec![1, 0, 1, 2]);
    assert_eq!(write_changes(&conn, &vec![]).unwrap(), Vec::<usize>::new());
}
