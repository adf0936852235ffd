//! The handlers of `/api/tasks`.

use rusqlite::Connection;

use my_task_sync::date::{Date, Timestamp};
use my_task_sync::error::Error;
use my_task_sync::http::tasks::{create_task, get_task, list_tasks, patch_task, ListParams};
use my_task_sync::json::{Json, Number};
use my_task_sync::model::{TaskCreateDto, TaskDto, TaskListResponse};
use my_task_sync::session::Session;
use my_task_sync::sqlite;

const SCHEMA: &str = "
    CREATE TABLE projects (
        id    INTEGER PRIMARY KEY AUTOINCREMENT,
        name  TEXT    NOT NULL UNIQUE
    );
    CREATE TABLE tasks (
        id         INTEGER PRIMARY KEY AUTOINCREMENT,
        title      TEXT    NOT NULL,
        status     TEXT    NOT NULL DEFAULT 'open'
                   CHECK(status IN ('open', 'done', 'closed')),
        source     TEXT    NOT NULL DEFAULT 'private',
        project_id INTEGER REFERENCES projects(id),
        due        TEXT,
        done_at    TEXT,
        created    TEXT    NOT NULL,
        updated    TEXT    NOT NULL,
        important  INTEGER NOT NULL DEFAULT 0
    );
    CREATE TABLE task_reminds (
        id        INTEGER PRIMARY KEY AUTOINCREMENT,
        task_id   INTEGER NOT NULL REFERENCES tasks(id),
        remind_at TEXT NOT NULL
    );
";

/// A database file with the tables, a session on it, and a second connection
/// to look at it.
struct Db {
    _dir: tempfile::TempDir,
    session: Session,
    conn: Connection,
}

fn make_my_task_db() -> Db {
    let dir = tempfile::tempdir().unwrap();
    let path = dir.path().join("tasks.db");
    let conn = Connection::open(&path).unwrap();
    conn.execute_batch(SCHEMA).unwrap();
    let session = Session::new(Connection::open(&path).unwrap());
    Db { _dir: dir, session, conn }
}

fn insert_raw_task(
    conn: &Connection,
    title: &str,
    status: &str,
    project_id: Option<i64>,
    updated: &str,
    created: &str,
) -> i64 {
    conn.execute(
        "INSERT INTO tasks (title, status, source, project_id, due, done_at, created, updated, important)
         VALUES (?1, ?2, 'cli', ?3, NULL, NULL, ?4, ?5, 0)",
        (title, status, project_id, created, updated),
    )
    .unwrap();
    conn.last_insert_rowid()
}

fn now() -> Timestamp {
    Session::new(Connection::open_in_memory().unwrap()).now()
}

fn convert(value: serde_json::Value) -> Json {
    match value {
        serde_json::Value::Null => Json::Null,
        serde_json::Value::Bool(b) => Json::Bool(b),
        serde_json::Value::Number(n) => Json::Number(Number {
            unsigned: n.as_u64(),
            text: n.to_string(),
        }),
        serde_json::Value::String(s) => Json::Text(s),
        serde_json::Value::Array(items) => Json::Array(items.into_iter().map(convert).collect()),
        serde_json::Value::Object(map) => {
            Json::Object(map.into_iter().map(|(k, v)| (k, convert(v))).collect())
        }
    }
}

fn json(text: &str) -> Json {
    convert(serde_json::from_str(text).unwrap())
}

fn d(s: &str) -> Date {
    Date::parse(s).unwrap()
}

fn ts(s: &str) -> Timestamp {
    Timestamp::parse(s).unwrap()
}

fn dto(title: &str) -> TaskCreateDto {
    TaskCreateDto {
        title: title.into(),
        status: "open".into(),
        source: "web".into(),
        project_name: None,
        due: None,
        done_at: None,
        important: false,
        updated_at: ts("2026-04-18T10:00:00Z"),
        created_at: ts("2026-04-18T10:00:00Z"),
        reminds: vec![],
    }
}

fn seed_three_tasks(db: &mut Db) -> (i64, i64, i64) {
    let pid_home = sqlite::resolve_project(&mut db.session, "home").expect("create project home");
    let t1 = insert_raw_task(&db.conn, "t1", "open", Some(pid_home), "2026-04-10", "2026-04-01");
    let t2 = insert_raw_task(&db.conn, "t2", "done", None, "2026-04-12", "2026-04-02");
    let t3 = insert_raw_task(&db.conn, "t3", "closed", Some(pid_home), "2026-04-14", "2026-04-03");
    db.conn
        .execute("INSERT INTO task_reminds (task_id, remind_at) VALUES (?1, '2026-04-20')", (t1,))
        .unwrap();
    db.conn
        .execute("INSERT INTO task_reminds (task_id, remind_at) VALUES (?1, '2026-04-21')", (t2,))
        .unwrap();
    (t1, t2, t3)
}

fn list(db: &mut Db, params: ListParams) -> TaskListResponse {
    list_tasks(&mut db.session, &params).unwrap()
}

fn titles(response: &TaskListResponse) -> Vec<&str> {
    response.tasks.iter().map(|t| t.title.as_str()).collect()
}

fn patched(db: &mut Db, n: i64, body: &str) -> TaskDto {
    patch_task(&mut db.session, n, &json(body)).unwrap().task
}

fn refused(db: &mut Db, n: i64, body: &str) -> String {
    match patch_task(&mut db.session, n, &json(body)) {
        Err(Error::BadRequest(msg)) => msg,
        other => panic!("expected a refusal, got {other:?}"),
    }
}

fn count(db: &Db, table: &str) -> i64 {
    db.conn
        .query_row(&format!("SELECT COUNT(*) FROM {table}"), [], |r| r.get(0))
        .unwrap()
}

// ---------- GET /api/tasks ----------

#[test]
fn returns_200_and_empty_array_when_db_is_empty() {
    let mut db = make_my_task_db();
    let before = now().parts();
    let response = list(&mut db, ListParams::default());
    assert_eq!(response.tasks.len(), 0);
    assert!(response.server_time.parts() >= before);
}

#[test]
fn returns_all_rows_with_project_name_and_reminds_joined() {
    let mut db = make_my_task_db();
    seed_three_tasks(&mut db);
    let response = list(&mut db, ListParams::default());
    let tasks = &response.tasks;
    assert_eq!(tasks.len(), 3);
    assert_eq!(tasks[0].title, "t1");
    assert_eq!(tasks[0].task_number, 1);
    assert_eq!(tasks[0].project_name.as_deref(), Some("home"));
    assert_eq!(tasks[0].reminds.len(), 1);
    assert_eq!(tasks[0].reminds[0], d("2026-04-20"));
    assert_eq!(tasks[1].title, "t2");
    assert!(tasks[1].project_name.is_none());
    assert_eq!(tasks[1].reminds[0], d("2026-04-21"));
    assert_eq!(tasks[2].title, "t3");
    assert_eq!(tasks[2].reminds.len(), 0);
}

#[test]
fn status_filter_returns_only_matching_rows() {
    let mut db = make_my_task_db();
    seed_three_tasks(&mut db);
    let response = list(
        &mut db,
        ListParams { status: Some("done".into()), ..ListParams::default() },
    );
    assert_eq!(response.tasks.len(), 1);
    assert_eq!(response.tasks[0].status, "done");
    assert_eq!(response.tasks[0].title, "t2");
}

#[test]
fn since_filter_includes_the_day_itself() {
    let mut db = make_my_task_db();
    seed_three_tasks(&mut db);
    let mut since = |s: &str| {
        let params = ListParams { since: Some(s.into()), ..ListParams::default() };
        let response = list(&mut db, params);
        titles(&response).join(" ")
    };
    assert_eq!(since("2026-04-12T23:59:59Z"), "t2 t3");
    assert_eq!(since("2026-04-10T00:00:00Z"), "t1 t2 t3");
    assert_eq!(since("2026-04-13T00:00:00Z"), "t3");
    assert_eq!(since("2026-04-13T00:00:00+09:00"), "t2 t3");
    assert_eq!(since("2026-04-15T00:00:00Z"), "");
}

#[test]
fn project_filter_returns_only_matching_rows() {
    let mut db = make_my_task_db();
    seed_three_tasks(&mut db);
    let response = list(
        &mut db,
        ListParams { project: Some("home".into()), ..ListParams::default() },
    );
    assert_eq!(response.tasks.len(), 2);
    assert_eq!(titles(&response), ["t1", "t3"]);
}

#[test]
fn limit_caps_the_row_count() {
    let mut db = make_my_task_db();
    seed_three_tasks(&mut db);
    let response = list(&mut db, ListParams { limit: Some(2), ..ListParams::default() });
    assert_eq!(response.tasks.len(), 2);
    assert_eq!(titles(&response), ["t1", "t2"]);
}

#[test]
fn lists_hold_five_hundred_tasks_by_default() {
    let mut db = make_my_task_db();
    db.conn.execute_batch("BEGIN").unwrap();
    for i in 0..501 {
        insert_raw_task(&db.conn, &format!("t{i}"), "open", None, "2026-04-10", "2026-04-01");
    }
    db.conn.execute_batch("COMMIT").unwrap();
    assert_eq!(list(&mut db, ListParams::default()).tasks.len(), 500);
    let all = ListParams { limit: Some(1000), ..ListParams::default() };
    assert_eq!(list(&mut db, all).tasks.len(), 501);
}

#[test]
fn filters_can_combine() {
    let mut db = make_my_task_db();
    seed_three_tasks(&mut db);
    let response = list(
        &mut db,
        ListParams {
            status: Some("closed".into()),
            project: Some("home".into()),
            ..ListParams::default()
        },
    );
    assert_eq!(response.tasks.len(), 1);
    assert_eq!(response.tasks[0].title, "t3");
}

#[test]
fn invalid_status_returns_400() {
    let mut db = make_my_task_db();
    let params = ListParams { status: Some("bogus".into()), ..ListParams::default() };
    let (status, message) = list_tasks(&mut db.session, &params).unwrap_err().into_response();
    assert_eq!(status, 400);
    assert!(message.contains("status"));
    assert_eq!(
        message,
        "invalid status \"bogus\": expected one of [\"open\", \"done\", \"closed\"]"
    );
}

#[test]
fn invalid_since_date_returns_400() {
    let mut db = make_my_task_db();
    for text in ["not-a-date", "2026-04-10"] {
        let params = ListParams { since: Some(text.into()), ..ListParams::default() };
        let (status, message) = list_tasks(&mut db.session, &params).unwrap_err().into_response();
        assert_eq!(status, 400);
        assert!(message.contains("since"));
        assert_eq!(
            message,
            format!("invalid since {text:?}: expected RFC 3339 datetime (e.g. 2026-04-18T13:00:00Z)")
        );
    }
}

#[test]
fn server_time_can_be_sent_back_as_since() {
    let mut db = make_my_task_db();
    let created = create_task(&mut db.session, &json("{}"), Ok(dto("t"))).unwrap().1;
    let today = patched(&mut db, created.task.task_number, "{}");
    let first = list(&mut db, ListParams::default());
    let since = ListParams {
        since: Some(first.server_time.to_rfc3339()),
        ..ListParams::default()
    };
    let second = list(&mut db, since);
    assert_eq!(second.tasks.len(), 1);
    assert_eq!(second.tasks[0].updated_at, today.updated_at);
}

// ---------- GET /api/tasks/{n} ----------

#[test]
fn one_task_is_given_with_its_reminders() {
    let mut db = make_my_task_db();
    let (t1, _, t3) = seed_three_tasks(&mut db);
    let response = get_task(&mut db.session, t1).unwrap();
    assert_eq!(response.task.title, "t1");
    assert_eq!(response.task.reminds, vec![d("2026-04-20")]);
    assert!(get_task(&mut db.session, t3).unwrap().task.reminds.is_empty());
}

#[test]
fn a_task_that_does_not_exist_is_not_found() {
    let mut db = make_my_task_db();
    let err = get_task(&mut db.session, 99).unwrap_err();
    assert_eq!(err.into_response(), (404, "not found".to_string()));
}

// ---------- POST /api/tasks ----------

#[test]
fn a_created_task_reads_back() {
    let mut db = make_my_task_db();
    let sent = TaskCreateDto {
        title: "買い物".into(),
        status: "done".into(),
        source: "web".into(),
        project_name: Some("home".into()),
        due: Some(d("2026-05-01")),
        done_at: Some(d("2026-04-18")),
        important: true,
        updated_at: ts("2026-04-18T23:30:00Z"),
        created_at: ts("2026-04-17T01:00:00+09:00"),
        reminds: vec![d("2026-04-30"), d("2026-04-20"), d("2026-04-30")],
    };
    let (status, created) = create_task(&mut db.session, &json("{}"), Ok(sent)).unwrap();
    assert_eq!(status, 201);
    let task = &created.task;
    assert_eq!(task.task_number, 1);
    assert_eq!(task.title, "買い物");
    assert_eq!(task.status, "done");
    assert_eq!(task.source, "web");
    assert_eq!(task.project_name.as_deref(), Some("home"));
    assert_eq!(task.due, Some(d("2026-05-01")));
    assert_eq!(task.done_at, Some(d("2026-04-18")));
    assert!(task.important);
    assert_eq!(task.updated_at, ts("2026-04-18T00:00:00Z"));
    assert_eq!(task.created_at, ts("2026-04-16T00:00:00Z"));
    assert_eq!(task.reminds, vec![d("2026-04-20"), d("2026-04-30"), d("2026-04-30")]);
    let read = get_task(&mut db.session, 1).unwrap().task;
    assert_eq!(format!("{read:?}"), format!("{task:?}"));
}

#[test]
fn created_tasks_share_projects() {
    let mut db = make_my_task_db();
    for title in ["a", "b"] {
        let sent = TaskCreateDto { project_name: Some("home".into()), ..dto(title) };
        create_task(&mut db.session, &json("{}"), Ok(sent)).unwrap();
    }
    assert_eq!(count(&db, "projects"), 1);
    assert_eq!(count(&db, "tasks"), 2);
}

#[test]
fn numbers_grow_with_every_task() {
    let mut db = make_my_task_db();
    let mut create = |title: &str| {
        create_task(&mut db.session, &json("{}"), Ok(dto(title))).unwrap().1.task.task_number
    };
    let (a, b) = (create("a"), create("b"));
    assert!(0 < a && a < b);
    db.conn.execute("DELETE FROM tasks WHERE id = ?1", (b,)).unwrap();
    let c = create_task(&mut db.session, &json("{}"), Ok(dto("c"))).unwrap().1.task.task_number;
    assert!(b < c, "the number of a task that is gone is not given again");
}

#[test]
fn a_body_with_a_task_number_is_refused() {
    let mut db = make_my_task_db();
    let err = create_task(&mut db.session, &json(r#"{"taskNumber": 5}"#), Ok(dto("t"))).unwrap_err();
    assert_eq!(
        err.into_response(),
        (400, "taskNumber must not be in request body (server assigns SQLite rowid)".to_string())
    );
    let null = create_task(&mut db.session, &json(r#"{"taskNumber": null}"#), Ok(dto("t")));
    assert_eq!(null.unwrap_err().into_response().0, 400);
    assert_eq!(count(&db, "tasks"), 0);
}

#[test]
fn a_body_that_cannot_be_read_is_refused() {
    let mut db = make_my_task_db();
    let err = create_task(&mut db.session, &json("[]"), Err("missing field `title`".into()))
        .unwrap_err();
    assert_eq!(
        err.into_response(),
        (400, "invalid task body: missing field `title`".to_string())
    );
}

#[test]
fn a_new_task_needs_a_status() {
    let mut db = make_my_task_db();
    let sent = TaskCreateDto { status: "bogus".into(), ..dto("t") };
    let err = create_task(&mut db.session, &json("{}"), Ok(sent)).unwrap_err();
    assert_eq!(
        err.into_response(),
        (
            400,
            "invalid status \"bogus\": expected one of [\"open\", \"done\", \"closed\"]".to_string()
        )
    );
    assert_eq!(count(&db, "tasks"), 0);
}

#[test]
fn a_creation_that_fails_leaves_nothing_behind() {
    let mut db = make_my_task_db();
    db.conn.execute_batch("DROP TABLE task_reminds").unwrap();
    let sent = TaskCreateDto { project_name: Some("home".into()), ..dto("t") };
    let err = create_task(&mut db.session, &json("{}"), Ok(sent)).unwrap_err();
    assert_eq!(err.into_response(), (500, "internal error".to_string()));
    assert_eq!(count(&db, "tasks"), 0);
    assert_eq!(count(&db, "projects"), 0);
    db.conn
        .execute_batch(
            "CREATE TABLE task_reminds (id INTEGER PRIMARY KEY, task_id INTEGER, remind_at TEXT)",
        )
        .unwrap();
    assert!(create_task(&mut db.session, &json("{}"), Ok(dto("t"))).is_ok());
}

// ---------- PATCH /api/tasks/{n} ----------

#[test]
fn fields_that_are_sent_are_changed() {
    let mut db = make_my_task_db();
    let (t1, _, _) = seed_three_tasks(&mut db);
    let task = patched(
        &mut db,
        t1,
        r#"{"title": "new", "status": "closed", "source": "web", "projectName": "work",
            "due": "2026-06-01", "doneAt": "2026-05-01", "important": true,
            "updatedAt": "2026-05-02T12:00:00Z", "createdAt": "2026-03-01T00:00:00Z",
            "reminds": ["2026-05-31", "2026-05-30"]}"#,
    );
    assert_eq!(task.title, "new");
    assert_eq!(task.status, "closed");
    assert_eq!(task.source, "web");
    assert_eq!(task.project_name.as_deref(), Some("work"));
    assert_eq!(task.due, Some(d("2026-06-01")));
    assert_eq!(task.done_at, Some(d("2026-05-01")));
    assert!(task.important);
    assert_eq!(task.updated_at, ts("2026-05-02T00:00:00Z"));
    assert_eq!(task.created_at, ts("2026-03-01T00:00:00Z"));
    assert_eq!(task.reminds, vec![d("2026-05-30"), d("2026-05-31")]);
    let read = get_task(&mut db.session, t1).unwrap().task;
    assert_eq!(format!("{read:?}"), format!("{task:?}"));
}

#[test]
fn an_empty_body_only_touches_the_task() {
    let mut db = make_my_task_db();
    let (t1, t2, _) = seed_three_tasks(&mut db);
    let before = now().date_naive();
    let task = patched(&mut db, t1, "{}");
    assert_eq!(task.title, "t1");
    assert_eq!(task.status, "open");
    assert_eq!(task.source, "cli");
    assert_eq!(task.project_name.as_deref(), Some("home"));
    assert!(task.due.is_none());
    assert_eq!(task.created_at, ts("2026-04-01T00:00:00Z"));
    assert_eq!(task.reminds, vec![d("2026-04-20")]);
    let day = task.updated_at.date_naive();
    assert!(!before.is_after(&day));
    assert!(!day.is_after(&now().date_naive()));
    assert_eq!(get_task(&mut db.session, t2).unwrap().task.title, "t2");
}

#[test]
fn null_clears_what_may_be_empty() {
    let mut db = make_my_task_db();
    let (t1, _, _) = seed_three_tasks(&mut db);
    patched(&mut db, t1, r#"{"due": "2026-06-01", "doneAt": "2026-05-01"}"#);
    let task = patched(&mut db, t1, r#"{"projectName": null, "due": null, "doneAt": null}"#);
    assert!(task.project_name.is_none());
    assert!(task.due.is_none());
    assert!(task.done_at.is_none());
    let task = patched(&mut db, t1, r#"{"reminds": []}"#);
    assert!(task.reminds.is_empty());
}

#[test]
fn bodies_that_cannot_be_applied_are_refused() {
    let mut db = make_my_task_db();
    let (n, _, _) = seed_three_tasks(&mut db);
    let mut msg = |body: &str| refused(&mut db, n, body);
    assert_eq!(msg("[]"), "body must be a JSON object");
    assert_eq!(
        msg(r#"{"taskNumber": 1, "zzz": 1}"#),
        "taskNumber must not be in request body (URL path is authoritative)"
    );
    assert_eq!(msg(r#"{"reminders": []}"#), "unknown field: \"reminders\"");
    assert_eq!(msg(r#"{"status": 1}"#), "status must be a string");
    assert_eq!(
        msg(r#"{"status": "x"}"#),
        "invalid status \"x\": expected one of [\"open\", \"done\", \"closed\"]"
    );
    assert_eq!(msg(r#"{"title": null}"#), "title must be a string");
    assert_eq!(msg(r#"{"source": 3}"#), "source must be a string");
    assert_eq!(msg(r#"{"projectName": 3}"#), "projectName must be a string or null");
    assert_eq!(msg(r#"{"due": 3}"#), "due must be a date string or null");
    assert_eq!(msg(r#"{"due": "soon"}"#), "due must be YYYY-MM-DD or null");
    assert_eq!(msg(r#"{"doneAt": "soon"}"#), "doneAt must be YYYY-MM-DD or null");
    assert_eq!(msg(r#"{"important": "yes"}"#), "important must be a boolean");
    assert_eq!(
        msg(r#"{"createdAt": "2026-04-01"}"#),
        "createdAt must be an RFC 3339 datetime (e.g. 2026-04-18T13:00:00Z)"
    );
    assert_eq!(
        msg(r#"{"updatedAt": null}"#),
        "updatedAt must be an RFC 3339 datetime string"
    );
    assert_eq!(msg(r#"{"reminds": null}"#), "reminds must be an array");
    assert_eq!(msg(r#"{"reminds": [1]}"#), "reminds items must be YYYY-MM-DD strings");
    assert_eq!(
        msg(r#"{"reminds": ["2026-04-01", "x"]}"#),
        "invalid remind date: \"x\""
    );
}

#[test]
fn a_refused_patch_changes_nothing() {
    let mut db = make_my_task_db();
    let (n, _, _) = seed_three_tasks(&mut db);
    refused(&mut db, n, r#"{"title": "gone", "projectName": "extra", "reminds": ["x"]}"#);
    let task = get_task(&mut db.session, n).unwrap().task;
    assert_eq!(task.title, "t1");
    assert_eq!(task.updated_at, ts("2026-04-10T00:00:00Z"));
    assert_eq!(task.reminds, vec![d("2026-04-20")]);
    assert_eq!(count(&db, "projects"), 1);
}

#[test]
fn patching_a_task_that_does_not_exist_is_not_found() {
    let mut db = make_my_task_db();
    let err = patch_task(&mut db.session, 99, &json(r#"{"title": 5}"#)).unwrap_err();
    assert!(matches!(err, Error::NotFound));
    assert_eq!(count(&db, "tasks"), 0);
}

#[test]
fn a_locked_database_is_an_internal_error() {
    let mut db = make_my_task_db();
    let (n, _, _) = seed_three_tasks(&mut db);
    db.conn.execute_batch("BEGIN EXCLUSIVE").unwrap();
    let err = patch_task(&mut db.session, n, &json("{}")).unwrap_err();
    assert_eq!(err.into_response(), (500, "internal error".to_string()));
    db.conn.execute_batch("ROLLBACK").unwrap();
    assert!(patch_task(&mut db.session, n, &json("{}")).is_ok());
}
