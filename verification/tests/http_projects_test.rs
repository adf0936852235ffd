//! The handlers of `/api/projects`.

use rusqlite::Connection;

use my_task_sync::date::Timestamp;
use my_task_sync::error::Error;
use my_task_sync::http::projects::{
    create_project, delete_project, list_projects, parse_name_from_body, update_project,
};
use my_task_sync::http::tasks::create_task;
use my_task_sync::json::{Json, Number};
use my_task_sync::model::TaskCreateDto;
use my_task_sync::session::Session;
use my_task_sync::sqlite;

const SCHEMA: &str = "
    CREATE TABLE projects (
        id    INTEGER PRIMARY KEY AUTOINCREMENT,
        name  TEXT    NOT NULL UNIQUE
    );
    CREATE TABLE tasks (
        id         INTEGER PRIMARY KEY AUTOINCREMENT,
        title      TEXT    NOT NULL,
        status     TEXT    NOT NULL DEFAULT 'open'
                   CHECK(status IN ('open', 'done', 'closed')),
        source     TEXT    NOT NULL DEFAULT 'private',
        project_id INTEGER REFERENCES projects(id),
        due        TEXT,
        done_at    TEXT,
        created    TEXT    NOT NULL,
        updated    TEXT    NOT NULL,
        important  INTEGER NOT NULL DEFAULT 0
    );
    CREATE TABLE task_reminds (
        id        INTEGER PRIMARY KEY AUTOINCREMENT,
        task_id   INTEGER NOT NULL REFERENCES tasks(id),
        remind_at TEXT NOT NULL
    );
";

/// A database file with the tables, a session on it, and a second connection
/// to look at it.
struct Db {
    _dir: tempfile::TempDir,
    session: Session,
    conn: Connection,
}

fn make_my_task_db() -> Db {
    let dir = tempfile::tempdir().unwrap();
    let path = dir.path().join("tasks.db");
    let conn = Connection::open(&path).unwrap();
    conn.execute_batch(SCHEMA).unwrap();
    let session = Session::new(Connection::open(&path).unwrap());
    Db { _dir: dir, session, conn }
}

fn insert_raw_task(
    conn: &Connection,
    title: &str,
    status: &str,
    project_id: Option<i64>,
    updated: &str,
    created: &str,
) -> i64 {
    conn.execute(
        "INSERT INTO tasks (title, status, source, project_id, due, done_at, created, updated, important)
         VALUES (?1, ?2, 'cli', ?3, NULL, NULL, ?4, ?5, 0)",
        (title, status, project_id, created, updated),
    )
    .unwrap();
    conn.last_insert_rowid()
}

fn now() -> Timestamp {
    Session::new(Connection::open_in_memory().unwrap()).now()
}

fn convert(value: serde_json::Value) -> Json {
    match value {
        serde_json::Value::Null => Json::Null,
        serde_json::Value::Bool(b) => Json::Bool(b),
        serde_json::Value::Number(n) => Json::Number(Number {
            unsigned: n.as_u64(),
            text: n.to_string(),
        }),
        serde_json::Value::String(s) => Json::Text(s),
        serde_json::Value::Array(items) => Json::Array(items.into_iter().map(convert).collect()),
        serde_json::Value::Object(map) => {
            Json::Object(map.into_iter().map(|(k, v)| (k, convert(v))).collect())
        }
    }
}

fn json(text: &str) -> Json {
    convert(serde_json::from_str(text).unwrap())
}

fn names(db: &mut Db) -> Vec<String> {
    list_projects(&mut db.session).unwrap().projects.into_iter().map(|p| p.name).collect()
}

fn post(db: &mut Db, body: &str) -> (u16, String) {
    create_project(&mut db.session, &json(body)).unwrap_err().into_response()
}

// ---------- GET ----------

#[test]
fn returns_empty_array_when_no_projects() {
    let mut db = make_my_task_db();
    let before = now().parts();
    let response = list_projects(&mut db.session).unwrap();
    assert_eq!(response.projects.len(), 0);
    assert!(response.server_time.parts() >= before);
}

#[test]
fn returns_all_projects_ordered_by_insertion() {
    let mut db = make_my_task_db();
    sqlite::resolve_project(&mut db.session, "home").unwrap();
    sqlite::resolve_project(&mut db.session, "work").unwrap();
    sqlite::resolve_project(&mut db.session, "hobby").unwrap();
    let projects = list_projects(&mut db.session).unwrap().projects;
    assert_eq!(projects.len(), 3);
    assert_eq!(projects[0].id, 1);
    assert_eq!(projects[0].name, "home");
    assert_eq!(projects[1].id, 2);
    assert_eq!(projects[1].name, "work");
    assert_eq!(projects[2].id, 3);
    assert_eq!(projects[2].name, "hobby");
}

#[test]
fn project_transparently_created_via_post_task_is_visible_here() {
    let mut db = make_my_task_db();
    let at = Timestamp::parse("2026-04-18T10:00:00Z").unwrap();
    let dto = TaskCreateDto {
        title: "t".into(),
        status: "open".into(),
        source: "web".into(),
        project_name: Some("new-proj".into()),
        due: None,
        done_at: None,
        important: false,
        updated_at: at,
        created_at: at,
        reminds: vec![],
    };
    let (status, _) = create_task(&mut db.session, &json("{}"), Ok(dto)).unwrap();
    assert_eq!(status, 201);
    let projects = list_projects(&mut db.session).unwrap().projects;
    assert_eq!(projects.len(), 1);
    assert_eq!(projects[0].name, "new-proj");
}

// ---------- POST ----------

#[test]
fn post_creates_project_and_returns_201() {
    let mut db = make_my_task_db();
    let before = now().parts();
    let (status, response) =
        create_project(&mut db.session, &json(r#"{"name": "alpha"}"#)).unwrap();
    assert_eq!(status, 201);
    assert_eq!(response.project.name, "alpha");
    assert!(response.project.id > 0);
    assert!(response.server_time.parts() >= before);
    assert_eq!(names(&mut db), ["alpha"]);
}

#[test]
fn post_trims_surrounding_whitespace_before_insert() {
    let mut db = make_my_task_db();
    let (status, response) =
        create_project(&mut db.session, &json(r#"{"name": "  trimmed  "}"#)).unwrap();
    assert_eq!(status, 201);
    assert_eq!(response.project.name, "trimmed");
}

#[test]
fn post_duplicate_name_returns_409() {
    let mut db = make_my_task_db();
    sqlite::insert_project(&mut db.session, "dup").unwrap();
    let (status, error) = post(&mut db, r#"{"name": "dup"}"#);
    assert_eq!(status, 409);
    assert!(error.contains("already exists"));
    assert_eq!(names(&mut db), ["dup"]);
}

#[test]
fn post_empty_name_returns_400() {
    let mut db = make_my_task_db();
    assert_eq!(post(&mut db, r#"{"name": ""}"#).0, 400);
}

#[test]
fn post_whitespace_only_name_returns_400() {
    let mut db = make_my_task_db();
    assert_eq!(post(&mut db, r#"{"name": "   \t  "}"#).0, 400);
}

#[test]
fn post_name_too_long_returns_400() {
    let mut db = make_my_task_db();
    let long = "a".repeat(201);
    assert_eq!(post(&mut db, &format!(r#"{{"name": "{long}"}}"#)).0, 400);
}

#[test]
fn post_unknown_field_returns_400() {
    let mut db = make_my_task_db();
    assert_eq!(post(&mut db, r#"{"name": "ok", "color": "red"}"#).0, 400);
}

#[test]
fn post_non_object_body_returns_400() {
    let mut db = make_my_task_db();
    assert_eq!(post(&mut db, r#"["a", "b"]"#).0, 400);
}

#[test]
fn names_are_counted_in_characters() {
    let name = |text: &str| parse_name_from_body(&json(&format!(r#"{{"name": "{text}"}}"#)));
    assert_eq!(name(&"名".repeat(200)).unwrap(), "名".repeat(200));
    assert!(name(&"名".repeat(201)).is_err());
    assert_eq!(name(&format!("  {}  ", "a".repeat(200))).unwrap(), "a".repeat(200));
    assert_eq!(name("x").unwrap(), "x");
}

#[test]
fn every_refusal_has_its_words() {
    let words = |body: &str| match parse_name_from_body(&json(body)) {
        Err(Error::BadRequest(msg)) => msg,
        other => panic!("expected a refusal, got {other:?}"),
    };
    assert_eq!(words("3"), "body must be a JSON object");
    assert_eq!(words("{}"), "name is required");
    assert_eq!(words(r#"{"color": "red"}"#), "unknown field: \"color\"");
    assert_eq!(words(r#"{"name": null}"#), "name must be a string");
    assert_eq!(words(r#"{"name": " "}"#), "name must not be empty");
    let long = format!(r#"{{"name": "{}"}}"#, "a".repeat(201));
    assert_eq!(words(&long), "name must be at most 200 characters");
}

// ---------- PATCH ----------

#[test]
fn patch_renames_project_and_returns_200() {
    let mut db = make_my_task_db();
    let p = sqlite::insert_project(&mut db.session, "old").unwrap();
    let before = now().parts();
    let response = update_project(&mut db.session, p.id, &json(r#"{"name": "new"}"#)).unwrap();
    assert_eq!(response.project.id, p.id);
    assert_eq!(response.project.name, "new");
    assert!(response.server_time.parts() >= before);
    assert_eq!(names(&mut db), ["new"]);
}

#[test]
fn patch_same_name_is_noop_200() {
    let mut db = make_my_task_db();
    let p = sqlite::insert_project(&mut db.session, "same").unwrap();
    let response = update_project(&mut db.session, p.id, &json(r#"{"name": "same"}"#)).unwrap();
    assert_eq!(response.project.name, "same");
}

#[test]
fn patch_missing_id_returns_404() {
    let mut db = make_my_task_db();
    let err = update_project(&mut db.session, 9999, &json(r#"{"name": "x"}"#)).unwrap_err();
    assert_eq!(err.into_response().0, 404);
}

#[test]
fn patch_duplicate_name_on_another_id_returns_409() {
    let mut db = make_my_task_db();
    let _a = sqlite::insert_project(&mut db.session, "alpha").unwrap();
    let b = sqlite::insert_project(&mut db.session, "beta").unwrap();
    let err = update_project(&mut db.session, b.id, &json(r#"{"name": "alpha"}"#)).unwrap_err();
    let (status, error) = err.into_response();
    assert_eq!(status, 409);
    assert!(error.contains("already exists"));
    assert_eq!(names(&mut db), ["alpha", "beta"]);
}

#[test]
fn patch_empty_name_returns_400() {
    let mut db = make_my_task_db();
    let p = sqlite::insert_project(&mut db.session, "old").unwrap();
    let err = update_project(&mut db.session, p.id, &json(r#"{"name": ""}"#)).unwrap_err();
    assert_eq!(err.into_response().0, 400);
}

// ---------- DELETE ----------

#[test]
fn delete_project_without_tasks_returns_204() {
    let mut db = make_my_task_db();
    let p = sqlite::insert_project(&mut db.session, "lonely").unwrap();
    assert_eq!(delete_project(&mut db.session, p.id).unwrap(), 204);
    assert!(names(&mut db).is_empty());
}

#[test]
fn delete_project_with_tasks_returns_409_with_count_message() {
    let mut db = make_my_task_db();
    let p = sqlite::insert_project(&mut db.session, "busy").unwrap();
    for i in 0..2 {
        let title = format!("t{i}");
        insert_raw_task(&db.conn, &title, "open", Some(p.id), "2026-04-12", "2026-04-12");
    }
    let err = delete_project(&mut db.session, p.id).unwrap_err();
    assert_eq!(err.into_response(), (409, "project has 2 tasks".to_string()));
    assert_eq!(names(&mut db), ["busy"]);
}

#[test]
fn delete_missing_project_returns_404() {
    let mut db = make_my_task_db();
    let err = delete_project(&mut db.session, 9999).unwrap_err();
    assert_eq!(err.into_response().0, 404);
}

#[test]
fn tasks_show_the_new_name_of_their_project() {
    let mut db = make_my_task_db();
    let p = sqlite::insert_project(&mut db.session, "old").unwrap();
    let t = insert_raw_task(&db.conn, "t", "open", Some(p.id), "2026-04-12", "2026-04-12");
    update_project(&mut db.session, p.id, &json(r#"{"name": " new "}"#)).unwrap();
    let task = sqlite::read_task_by_id(&mut db.session, t).unwrap().unwrap();
    assert_eq!(task.project.as_deref(), Some("new"));
}
