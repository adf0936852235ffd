//! The state database.

use rusqlite::Connection;

use my_task_sync::sync_state::SyncState;

fn open(path: &std::path::Path) -> SyncState {
    SyncState::open(Connection::open(path).unwrap()).expect("open state.db")
}

#[test]
fn get_returns_none_for_unset_key() {
    let tmp = tempfile::tempdir().unwrap();
    let mut state = open(&tmp.path().join("state.db"));
    let value = state.get("last_push_at").expect("get");
    assert!(value.is_none());
}

#[test]
fn set_then_get_returns_same_value() {
    let tmp = tempfile::tempdir().unwrap();
    let mut state = open(&tmp.path().join("state.db"));
    state.set("last_push_at", "2026-04-12T10:00:00Z").expect("set");
    let got = state.get("last_push_at").unwrap();
    assert_eq!(got.as_deref(), Some("2026-04-12T10:00:00Z"));
}

#[test]
fn set_on_existing_key_overwrites_value() {
    let tmp = tempfile::tempdir().unwrap();
    let mut state = open(&tmp.path().join("state.db"));
    state.set("last_pull_at", "2026-04-10T00:00:00Z").unwrap();
    state.set("last_pull_at", "2026-04-12T12:00:00Z").unwrap();
    let got = state.get("last_pull_at").unwrap();
    assert_eq!(got.as_deref(), Some("2026-04-12T12:00:00Z"));
}

#[test]
fn multiple_keys_are_independent() {
    let tmp = tempfile::tempdir().unwrap();
    let mut state = open(&tmp.path().join("state.db"));
    state.set("last_push_at", "push-value").unwrap();
    state.set("last_pull_at", "pull-value").unwrap();
    assert_eq!(state.get("last_push_at").unwrap().as_deref(), Some("push-value"));
    assert_eq!(state.get("last_pull_at").unwrap().as_deref(), Some("pull-value"));
}

#[test]
fn state_persists_across_reopen() {
    let tmp = tempfile::tempdir().unwrap();
    let path = tmp.path().join("state.db");
    {
        let mut state = open(&path);
        state.set("last_push_at", "2026-04-12T10:00:00Z").unwrap();
    }
    let mut reopened = open(&path);
    assert_eq!(
        reopened.get("last_push_at").unwrap().as_deref(),
        Some("2026-04-12T10:00:00Z")
    );
}

#[test]
fn state_file_is_independent_from_tasks_db() {
    let tmp = tempfile::tempdir().unwrap();
    let state_path = tmp.path().join("state.db");
    let tasks_path = tmp.path().join("tasks.db");
    let tasks_conn = Connection::open(&tasks_path).unwrap();
    tasks_conn.execute("CREATE TABLE unrelated (x INTEGER)", []).unwrap();
    drop(tasks_conn);
    let mut state = open(&state_path);
    state.set("last_push_at", "value").unwrap();
    let tasks_conn = Connection::open(&tasks_path).unwrap();
    let tbl: Option<String> = tasks_conn
        .query_row(
            "SELECT name FROM sqlite_master WHERE type='table' AND name='sync_state'",
            [],
            |r| r.get(0),
        )
        .ok();
    assert!(tbl.is_none(), "sync_state must not be created in tasks.db");
}

#[test]
fn a_database_that_cannot_be_written_is_reported() {
    let tmp = tempfile::tempdir().unwrap();
    let path = tmp.path().join("state.db");
    drop(Connection::open(&path).unwrap().execute_batch("CREATE TABLE x (y)"));
    let flags = rusqlite::OpenFlags::SQLITE_OPEN_READ_ONLY;
    let conn = Connection::open_with_flags(&path, flags).unwrap();
    let err = match SyncState::open(conn) {
        Ok(_) => panic!("must fail"),
        Err(e) => e,
    };
    assert!(err.message().contains("readonly"), "got: {}", err.message());
}
