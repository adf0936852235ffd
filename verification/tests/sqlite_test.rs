//! Reading and writing the tables of my-task.

use rusqlite::Connection;

use my_task_sync::date::Date;
use my_task_sync::error::Error;
use my_task_sync::model::{Status, Task};
use my_task_sync::session::Session;
use my_task_sync::sql::SqlFailure;
use my_task_sync::sqlite;
use my_task_sync::statement::Statement;

const SCHEMA: &str = "
    CREATE TABLE projects (
        id    INTEGER PRIMARY KEY AUTOINCREMENT,
        name  TEXT    NOT NULL UNIQUE
    );
    CREATE TABLE tasks (
        id         INTEGER PRIMARY KEY AUTOINCREMENT,
        title      TEXT    NOT NULL,
        status     TEXT    NOT NULL DEFAULT 'open'
                   CHECK(status IN ('open', 'done', 'closed')),
        source     TEXT    NOT NULL DEFAULT 'private',
        project_id INTEGER REFERENCES projects(id),
        due        TEXT,
        done_at    TEXT,
        created    TEXT    NOT NULL,
        updated    TEXT    NOT NULL,
        important  INTEGER NOT NULL DEFAULT 0
    );
    CREATE TABLE task_reminds (
        id        INTEGER PRIMARY KEY AUTOINCREMENT,
        task_id   INTEGER NOT NULL REFERENCES tasks(id),
        remind_at TEXT NOT NULL
    );
";

/// A database file with the tables, a session on it, and a second connection
/// to look at it.
struct Db {
    _dir: tempfile::TempDir,
    session: Session,
    conn: Connection,
}

fn make_my_task_db() -> Db {
    let dir = tempfile::tempdir().unwrap();
    let path = dir.path().join("tasks.db");
    let conn = Connection::open(&path).unwrap();
    conn.execute_batch(SCHEMA).unwrap();
    let session = Session::new(Connection::open(&path).unwrap());
    Db { _dir: dir, session, conn }
}

fn insert_raw_task(
    conn: &Connection,
    title: &str,
    status: &str,
    project_id: Option<i64>,
    updated: &str,
    created: &str,
) -> i64 {
    conn.execute(
        "INSERT INTO tasks (title, status, source, project_id, due, done_at, created, updated, important)
         VALUES (?1, ?2, 'cli', ?3, NULL, NULL, ?4, ?5, 0)",
        (title, status, project_id, created, updated),
    )
    .unwrap();
    conn.last_insert_rowid()
}

fn d(y: i32, m: u32, day: u32) -> Date {
    Date::from_ymd(y, m, day).expect("valid date")
}

#[test]
fn resolve_project_creates_new_row_and_returns_id() {
    let mut db = make_my_task_db();
    let id = sqlite::resolve_project(&mut db.session, "personal").expect("resolve new project");
    let (found_id, name): (i64, String) = db
        .conn
        .query_row("SELECT id, name FROM projects", [], |row| Ok((row.get(0)?, row.get(1)?)))
        .expect("row exists");
    assert_eq!(found_id, id);
    assert_eq!(name, "personal");
}

#[test]
fn resolve_project_returns_existing_id_when_name_already_present() {
    let mut db = make_my_task_db();
    db.conn
        .execute("INSERT INTO projects (name) VALUES (?1)", ("work",))
        .unwrap();
    let existing_id: i64 = db
        .conn
        .query_row("SELECT id FROM projects WHERE name = 'work'", [], |r| r.get(0))
        .unwrap();
    let id = sqlite::resolve_project(&mut db.session, "work").expect("resolve existing");
    assert_eq!(id, existing_id);
    let count: i64 = db
        .conn
        .query_row("SELECT COUNT(*) FROM projects", [], |r| r.get(0))
        .unwrap();
    assert_eq!(count, 1, "no duplicate inserted");
}

#[test]
fn insert_task_persists_row_and_returns_sqlite_id() {
    let mut db = make_my_task_db();
    let task = Task {
        id: 0,
        title: "買い物".into(),
        status: Status::Open,
        source: "web".into(),
        project: Some("personal".into()),
        due: Some(d(2026, 4, 15)),
        done_at: None,
        created: d(2026, 4, 12),
        updated: d(2026, 4, 12),
        important: false,
    };
    let new_id = sqlite::insert_task(&mut db.session, &task).expect("insert_task");
    assert!(new_id > 0, "sqlite rowid should be positive");
    let (title, status, project_name): (String, String, Option<String>) = db
        .conn
        .query_row(
            "SELECT t.title, t.status, p.name
             FROM tasks t LEFT JOIN projects p ON t.project_id = p.id
             WHERE t.id = ?1",
            (new_id,),
            |r| Ok((r.get(0)?, r.get(1)?, r.get(2)?)),
        )
        .unwrap();
    assert_eq!(title, "買い物");
    assert_eq!(status, "open");
    assert_eq!(project_name.as_deref(), Some("personal"));
}

#[test]
fn update_task_overwrites_fields_of_existing_row() {
    let mut db = make_my_task_db();
    let id = insert_raw_task(&db.conn, "original", "open", None, "2026-04-10", "2026-04-10");
    let task = Task {
        id,
        title: "renamed".into(),
        status: Status::Done,
        source: "cli".into(),
        project: None,
        due: None,
        done_at: Some(d(2026, 4, 12)),
        created: d(2026, 4, 10),
        updated: d(2026, 4, 12),
        important: true,
    };
    sqlite::update_task(&mut db.session, &task).expect("update_task");
    let (title, status, done_at, important, updated): (String, String, Option<String>, i64, String) =
        db.conn
            .query_row(
                "SELECT title, status, done_at, important, updated FROM tasks WHERE id = ?1",
                (id,),
                |r| Ok((r.get(0)?, r.get(1)?, r.get(2)?, r.get(3)?, r.get(4)?)),
            )
            .unwrap();
    assert_eq!(title, "renamed");
    assert_eq!(status, "done");
    assert_eq!(done_at.as_deref(), Some("2026-04-12"));
    assert_eq!(important, 1);
    assert_eq!(updated, "2026-04-12");
}

#[test]
fn read_tasks_since_excludes_rows_at_or_before_given_date() {
    let mut db = make_my_task_db();
    insert_raw_task(&db.conn, "old", "open", None, "2026-04-10", "2026-04-10");
    insert_raw_task(&db.conn, "mid", "open", None, "2026-04-11", "2026-04-11");
    insert_raw_task(&db.conn, "new", "open", None, "2026-04-12", "2026-04-12");
    let tasks = sqlite::read_tasks_since(&mut db.session, "2026-04-11").expect("read_tasks_since");
    assert_eq!(tasks.len(), 1, "only strictly newer row returned");
    assert_eq!(tasks[0].title, "new");
}

#[test]
fn read_tasks_since_empty_date_returns_all() {
    let mut db = make_my_task_db();
    insert_raw_task(&db.conn, "a", "open", None, "2026-04-10", "2026-04-10");
    insert_raw_task(&db.conn, "b", "open", None, "2026-04-12", "2026-04-12");
    let tasks = sqlite::read_tasks_since(&mut db.session, "").expect("read_tasks_since empty");
    assert_eq!(tasks.len(), 2);
}

#[test]
fn read_all_tasks_returns_every_row_with_project_name_joined() {
    let mut db = make_my_task_db();
    let pid = sqlite::resolve_project(&mut db.session, "work").unwrap();
    insert_raw_task(&db.conn, "with-project", "open", Some(pid), "2026-04-12", "2026-04-12");
    insert_raw_task(&db.conn, "no-project", "open", None, "2026-04-12", "2026-04-12");
    let tasks = sqlite::read_all_tasks(&mut db.session).expect("read_all_tasks");
    assert_eq!(tasks.len(), 2);
    let with = tasks.iter().find(|t| t.title == "with-project").unwrap();
    assert_eq!(with.project.as_deref(), Some("work"));
    let without = tasks.iter().find(|t| t.title == "no-project").unwrap();
    assert!(without.project.is_none());
}

#[test]
fn read_reminds_for_tasks_groups_by_task_id_only_for_requested() {
    let mut db = make_my_task_db();
    let t1 = insert_raw_task(&db.conn, "t1", "open", None, "2026-04-12", "2026-04-12");
    let t2 = insert_raw_task(&db.conn, "t2", "open", None, "2026-04-12", "2026-04-12");
    let t3 = insert_raw_task(&db.conn, "t3", "open", None, "2026-04-12", "2026-04-12");
    for &(tid, date) in &[
        (t1, "2026-04-14"),
        (t1, "2026-04-15"),
        (t2, "2026-04-20"),
        (t3, "2026-04-30"),
    ] {
        db.conn
            .execute(
                "INSERT INTO task_reminds (task_id, remind_at) VALUES (?1, ?2)",
                (tid, date),
            )
            .unwrap();
    }
    let map = sqlite::read_reminds_for_tasks(&mut db.session, &vec![t1, t2])
        .expect("read_reminds_for_tasks");
    assert_eq!(map.len(), 2, "only requested ids appear in map");
    assert_eq!(map.get(&t1).map(Vec::len), Some(2));
    assert_eq!(map.get(&t2).map(Vec::len), Some(1));
    assert!(!map.contains_key(&t3), "t3 must not be included");
    assert_eq!(sqlite::take_reminds(&map, t1), vec![d(2026, 4, 14), d(2026, 4, 15)]);
    assert!(sqlite::take_reminds(&map, t3).is_empty());
}

#[test]
fn read_reminds_for_tasks_returns_empty_map_when_no_reminds() {
    let mut db = make_my_task_db();
    let t1 = insert_raw_task(&db.conn, "t1", "open", None, "2026-04-12", "2026-04-12");
    let map = sqlite::read_reminds_for_tasks(&mut db.session, &vec![t1]).unwrap();
    let reminds = map.get(&t1).cloned().unwrap_or_default();
    assert!(reminds.is_empty());
}

#[test]
fn read_reminds_for_tasks_handles_empty_input_slice() {
    let mut db = make_my_task_db();
    let map = sqlite::read_reminds_for_tasks(&mut db.session, &vec![]).unwrap();
    assert!(map.is_empty());
}

#[test]
fn tasks_read_back_as_they_were_written() {
    let mut db = make_my_task_db();
    let task = Task {
        id: 0,
        title: "quote ' and ; DROP".into(),
        status: Status::Closed,
        source: "cli".into(),
        project: Some("p".into()),
        due: Some(d(2026, 4, 15)),
        done_at: Some(d(2026, 4, 16)),
        created: d(2026, 4, 12),
        updated: d(2026, 4, 13),
        important: true,
    };
    let id = sqlite::insert_task(&mut db.session, &task).unwrap();
    let read = sqlite::read_task_by_id(&mut db.session, id).unwrap().unwrap();
    assert_eq!(read.id, id);
    assert_eq!(read.title, task.title);
    assert_eq!(read.status, Status::Closed);
    assert_eq!(read.source, "cli");
    assert_eq!(read.project.as_deref(), Some("p"));
    assert_eq!(read.due, task.due);
    assert_eq!(read.done_at, task.done_at);
    assert_eq!(read.created, task.created);
    assert_eq!(read.updated, task.updated);
    assert!(read.important);
    assert!(sqlite::read_task_by_id(&mut db.session, id + 1).unwrap().is_none());
}

#[test]
fn tasks_can_be_inserted_under_a_given_id() {
    let mut db = make_my_task_db();
    let row = sqlite::TaskRow {
        title: "t",
        status: "open",
        source: "web",
        project: None,
        due: None,
        done_at: None,
        created: d(2026, 4, 12),
        updated: d(2026, 4, 12),
        important: false,
    };
    assert_eq!(sqlite::insert_task_row(&mut db.session, &row, Some(77)).unwrap(), 77);
    assert_eq!(sqlite::insert_task_row(&mut db.session, &row, None).unwrap(), 78);
    let again = sqlite::insert_task_row(&mut db.session, &row, Some(77)).unwrap_err();
    assert!(matches!(again, Error::Sqlite(SqlFailure::Constraint(_))));
}

#[test]
fn words_that_are_no_status_are_refused_by_the_database() {
    let mut db = make_my_task_db();
    let row = sqlite::TaskRow {
        title: "t",
        status: "bogus",
        source: "web",
        project: None,
        due: None,
        done_at: None,
        created: d(2026, 4, 12),
        updated: d(2026, 4, 12),
        important: false,
    };
    let err = sqlite::insert_task_row(&mut db.session, &row, None).unwrap_err();
    assert!(matches!(err, Error::Sqlite(SqlFailure::Constraint(_))));
    assert!(err.message().starts_with("sqlite error: CHECK constraint failed"));
}

#[test]
fn filters_narrow_the_tasks() {
    let mut db = make_my_task_db();
    let pid = sqlite::resolve_project(&mut db.session, "home").unwrap();
    insert_raw_task(&db.conn, "a", "open", Some(pid), "2026-04-10", "2026-04-01");
    insert_raw_task(&db.conn, "b", "done", None, "2026-04-12", "2026-04-01");
    insert_raw_task(&db.conn, "c", "open", None, "2026-04-14", "2026-04-01");
    let mut titles = |status, since, project, limit| -> Vec<String> {
        sqlite::read_tasks_filtered(&mut db.session, status, since, project, limit)
            .unwrap()
            .into_iter()
            .map(|t| t.title)
            .collect()
    };
    assert_eq!(titles(None, None, None, None), ["a", "b", "c"]);
    assert_eq!(titles(Some("open"), None, None, None), ["a", "c"]);
    assert_eq!(titles(None, Some(d(2026, 4, 12)), None, None), ["b", "c"]);
    assert_eq!(titles(None, None, Some("home"), None), ["a"]);
    assert_eq!(titles(None, None, None, Some(2)), ["a", "b"]);
    assert_eq!(titles(None, None, None, Some(0)), Vec::<String>::new());
    assert_eq!(titles(Some("open"), Some(d(2026, 4, 11)), None, Some(5)), ["c"]);
}

#[test]
fn rows_that_hold_something_else_are_reported() {
    let mut db = make_my_task_db();
    let id = insert_raw_task(&db.conn, "t", "open", None, "soon", "2026-04-01");
    let err = sqlite::read_task_by_id(&mut db.session, id).unwrap_err();
    assert_eq!(
        err.message(),
        "sqlite error: Conversion error from type Text at index: 8, input contains invalid characters"
    );
    assert!(sqlite::read_all_tasks(&mut db.session).is_err());
    db.conn
        .execute("UPDATE tasks SET updated = '2026-04-02', title = x'00ff' WHERE id = ?1", (id,))
        .unwrap();
    let err = sqlite::read_task_by_id(&mut db.session, id).unwrap_err();
    assert_eq!(
        err.message(),
        "sqlite error: Invalid column type Blob at index: 1, name: title"
    );
    db.conn
        .execute("UPDATE tasks SET title = 'ok', important = 0.5 WHERE id = ?1", (id,))
        .unwrap();
    let err = sqlite::read_task_by_id(&mut db.session, id).unwrap_err();
    assert_eq!(
        err.message(),
        "sqlite error: Invalid column type Real at index: 9, name: important"
    );
    db.conn
        .execute(
            "UPDATE tasks SET title = CAST(x'ff' AS TEXT), important = 0 WHERE id = ?1",
            (id,),
        )
        .unwrap();
    let err = sqlite::read_task_by_id(&mut db.session, id).unwrap_err();
    assert!(err
        .message()
        .starts_with("sqlite error: Conversion error from type Text at index: 1, invalid utf-8"));
}

#[test]
fn reminders_that_hold_no_date_are_reported() {
    let mut db = make_my_task_db();
    let id = insert_raw_task(&db.conn, "t", "open", None, "2026-04-02", "2026-04-01");
    db.conn
        .execute("INSERT INTO task_reminds (task_id, remind_at) VALUES (?1, 'so\"on')", (id,))
        .unwrap();
    let err = sqlite::read_reminds_for_tasks(&mut db.session, &vec![id]).unwrap_err();
    assert_eq!(
        err.message(),
        "config error: invalid date \"so\\\"on\" in SQLite: input contains invalid characters"
    );
}

#[test]
fn reminders_are_replaced_as_a_whole() {
    let mut db = make_my_task_db();
    let a = insert_raw_task(&db.conn, "a", "open", None, "2026-04-02", "2026-04-01");
    let b = insert_raw_task(&db.conn, "b", "open", None, "2026-04-02", "2026-04-01");
    sqlite::replace_reminds(&mut db.session, b, &vec![d(2026, 1, 1)]).unwrap();
    sqlite::replace_reminds(&mut db.session, a, &vec![d(2026, 4, 3), d(2026, 4, 2)]).unwrap();
    sqlite::replace_reminds(
        &mut db.session,
        a,
        &vec![d(2026, 5, 3), d(2026, 5, 1), d(2026, 5, 3)],
    )
    .unwrap();
    let map = sqlite::read_reminds_for_tasks(&mut db.session, &vec![a, b]).unwrap();
    assert_eq!(
        sqlite::take_reminds(&map, a),
        vec![d(2026, 5, 1), d(2026, 5, 3), d(2026, 5, 3)]
    );
    assert_eq!(sqlite::take_reminds(&map, b), vec![d(2026, 1, 1)]);
    sqlite::replace_reminds(&mut db.session, a, &vec![]).unwrap();
    let map = sqlite::read_reminds_for_tasks(&mut db.session, &vec![a]).unwrap();
    assert!(sqlite::take_reminds(&map, a).is_empty());
}

#[test]
fn projects_are_read_and_written() {
    let mut db = make_my_task_db();
    let p = sqlite::insert_project(&mut db.session, "alpha").unwrap();
    let q = sqlite::insert_project(&mut db.session, "beta").unwrap();
    assert_eq!((p.name.as_str(), q.name.as_str()), ("alpha", "beta"));
    let twice = sqlite::insert_project(&mut db.session, "alpha").unwrap_err();
    assert!(matches!(twice, Error::Sqlite(SqlFailure::Constraint(_))));
    let found = sqlite::read_project_by_name(&mut db.session, "beta").unwrap().unwrap();
    assert_eq!(found.id, q.id);
    assert!(sqlite::read_project_by_name(&mut db.session, "Beta").unwrap().is_none());
    sqlite::update_project_name(&mut db.session, q.id, "gamma").unwrap();
    let found = sqlite::read_project_by_id(&mut db.session, q.id).unwrap().unwrap();
    assert_eq!(found.name, "gamma");
    insert_raw_task(&db.conn, "t", "open", Some(p.id), "2026-04-02", "2026-04-01");
    assert_eq!(sqlite::count_tasks_for_project(&mut db.session, p.id).unwrap(), 1);
    assert_eq!(sqlite::count_tasks_for_project(&mut db.session, q.id).unwrap(), 0);
    sqlite::delete_project(&mut db.session, q.id).unwrap();
    assert!(sqlite::read_project_by_id(&mut db.session, q.id).unwrap().is_none());
    let all = sqlite::read_projects(&mut db.session).unwrap();
    assert_eq!(all.len(), 1);
    assert_eq!(all[0].name, "alpha");
}

#[test]
fn statements_have_their_text() {
    assert_eq!(
        Statement::RemindsOfTasks(3).text(),
        "SELECT task_id, remind_at FROM task_reminds WHERE task_id IN (?,?,?) ORDER BY task_id, remind_at"
    );
    assert_eq!(
        Statement::RemindsOfTasks(1).text(),
        "SELECT task_id, remind_at FROM task_reminds WHERE task_id IN (?) ORDER BY task_id, remind_at"
    );
    assert_eq!(Statement::Begin.text(), "BEGIN DEFERRED");
}

#[test]
fn flags_are_stored_as_integers() {
    assert_eq!(sqlite::bool_to_int(true), 1);
    assert_eq!(sqlite::bool_to_int(false), 0);
}

#[test]
fn the_clock_moves_forward() {
    let mut session = Session::new(Connection::open_in_memory().unwrap());
    let before = chrono::Utc::now();
    let a = session.now().parts();
    let b = session.now().parts();
    assert!((before.timestamp(), before.timestamp_subsec_nanos()) <= a);
    assert!(a <= b);
}

#[test]
fn a_missing_table_is_reported() {
    let mut session = Session::new(Connection::open_in_memory().unwrap());
    let err = sqlite::read_projects(&mut session).unwrap_err();
    assert!(err.message().starts_with("sqlite error: no such table: projects"));
    assert_eq!(err.into_response(), (500, "internal error".to_string()));
}
