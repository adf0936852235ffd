//! The sync cycle, against a remote side that only records.

use rusqlite::Connection;

use my_task_sync::date::{Date, Timestamp};
use my_task_sync::error::Error;
use my_task_sync::model::{
    ChangedTask, ChangesResponse, PushAction, PushResponse, PushResultRow, SyncTask, UnsyncedTask,
};
use my_task_sync::session::Session;
use my_task_sync::sync_engine;
use my_task_sync::sync_engine::CycleStep;
use my_task_sync::sync_state::SyncState;

const SCHEMA: &str = "
    CREATE TABLE projects (
        id    INTEGER PRIMARY KEY AUTOINCREMENT,
        name  TEXT    NOT NULL UNIQUE
    );
    CREATE TABLE tasks (
        id         INTEGER PRIMARY KEY AUTOINCREMENT,
        title      TEXT    NOT NULL,
        status     TEXT    NOT NULL DEFAULT 'open'
                   CHECK(status IN ('open', 'done', 'closed')),
        source     TEXT    NOT NULL DEFAULT 'private',
        project_id INTEGER REFERENCES projects(id),
        due        TEXT,
        done_at    TEXT,
        created    TEXT    NOT NULL,
        updated    TEXT    NOT NULL,
        important  INTEGER NOT NULL DEFAULT 0
    );
    CREATE TABLE task_reminds (
        id        INTEGER PRIMARY KEY AUTOINCREMENT,
        task_id   INTEGER NOT NULL REFERENCES tasks(id),
        remind_at TEXT NOT NULL
    );
";

/// A database file with the tables, a session on it, and a second connection
/// to look at it.
struct Db {
    _dir: tempfile::TempDir,
    session: Session,
    conn: Connection,
}

fn make_my_task_db() -> Db {
    let dir = tempfile::tempdir().unwrap();
    let path = dir.path().join("tasks.db");
    let conn = Connection::open(&path).unwrap();
    conn.execute_batch(SCHEMA).unwrap();
    let session = Session::new(Connection::open(&path).unwrap());
    Db { _dir: dir, session, conn }
}

fn insert_raw_task(
    conn: &Connection,
    title: &str,
    status: &str,
    project_id: Option<i64>,
    updated: &str,
    created: &str,
) -> i64 {
    conn.execute(
        "INSERT INTO tasks (title, status, source, project_id, due, done_at, created, updated, important)
         VALUES (?1, ?2, 'cli', ?3, NULL, NULL, ?4, ?5, 0)",
        (title, status, project_id, created, updated),
    )
    .unwrap();
    conn.last_insert_rowid()
}

struct MockApi {
    pushed: Vec<SyncTask>,
    patched: Vec<(i64, i64)>,
    changes_since: Vec<Option<String>>,
    push_results: Vec<PushResultRow>,
    unsynced: Vec<UnsyncedTask>,
    changes: ChangesResponse,
    fail_patch: bool,
    fail_push: bool,
}

impl MockApi {
    fn new() -> Self {
        Self {
            pushed: vec![],
            patched: vec![],
            changes_since: vec![],
            push_results: vec![],
            unsynced: vec![],
            changes: ChangesResponse { tasks: vec![], server_time: ts("2026-04-12T12:00:00Z") },
            fail_patch: false,
            fail_push: false,
        }
    }

    fn push_tasks(&mut self, tasks: Vec<SyncTask>) -> Result<PushResponse, Error> {
        self.pushed.extend(tasks);
        if self.fail_push {
            return Err(Error::Reqwest("timed out".into()));
        }
        Ok(PushResponse { results: self.push_results.clone() })
    }

    fn get_unsynced(&mut self) -> Result<Vec<UnsyncedTask>, Error> {
        Ok(self.unsynced.clone())
    }

    fn patch_task_number(&mut self, neon_id: i64, task_number: i64) -> Result<(), Error> {
        self.patched.push((neon_id, task_number));
        if self.fail_patch {
            return Err(Error::Api { status: 500, body: "boom".into() });
        }
        Ok(())
    }

    fn get_changes(&mut self, since: Option<String>) -> Result<ChangesResponse, Error> {
        self.changes_since.push(since);
        Ok(self.changes.clone())
    }
}

fn push(db: &mut Db, api: &mut MockApi, state: &mut SyncState, dry_run: bool) -> Result<(), Error> {
    match sync_engine::push(&mut db.session, state, dry_run)? {
        Some(payload) => {
            let reply = api.push_tasks(payload);
            sync_engine::push_done(state, reply)
        }
        None => Ok(()),
    }
}

fn pull_updates(
    db: &mut Db,
    api: &mut MockApi,
    state: &mut SyncState,
    dry_run: bool,
) -> Result<(), Error> {
    match sync_engine::pull_unsynced(&mut db.session, state, dry_run, Ok(vec![])) {
        CycleStep::GetChanges(since) => {
            let reply = api.get_changes(since);
            sync_engine::pull_updates(&mut db.session, state, dry_run, reply)
        }
        CycleStep::Finished(r) => r,
        _ => panic!("the changes must be asked for"),
    }
}

fn run(
    db: &mut Db,
    api: &mut MockApi,
    state: &mut SyncState,
    dry_run: bool,
    first: CycleStep,
) -> Result<(), Error> {
    let mut step = first;
    loop {
        step = match step {
            CycleStep::PushTasks(tasks) => sync_engine::after_push(state, api.push_tasks(tasks)),
            CycleStep::GetUnsynced => sync_engine::pull_unsynced(
                &mut db.session,
                state,
                dry_run,
                api.get_unsynced(),
            ),
            CycleStep::PatchTaskNumber { numbering, neon_id, task_number } => {
                let reply = api.patch_task_number(neon_id, task_number);
                sync_engine::after_number(&mut db.session, state, numbering, reply)
            }
            CycleStep::GetChanges(since) => {
                let reply = api.get_changes(since);
                sync_engine::after_changes(&mut db.session, state, dry_run, reply)
            }
            CycleStep::Finished(r) => return r,
        };
    }
}

fn sync_cycle(
    db: &mut Db,
    api: &mut MockApi,
    state: &mut SyncState,
    dry_run: bool,
) -> Result<(), Error> {
    let first = sync_engine::sync_cycle(&mut db.session, state, dry_run);
    run(db, api, state, dry_run, first)
}

fn pull_unsynced(db: &mut Db, api: &mut MockApi, dry_run: bool) -> Result<(), Error> {
    let mut state = open_state();
    run(db, api, &mut state, dry_run, CycleStep::GetUnsynced)
}

fn d(y: i32, m: u32, day: u32) -> Date {
    Date::from_ymd(y, m, day).unwrap()
}

fn ts(s: &str) -> Timestamp {
    Timestamp::parse(s).unwrap()
}

fn open_state() -> SyncState {
    SyncState::open(Connection::open_in_memory().unwrap()).unwrap()
}

fn changed_task(
    task_number: i64,
    title: &str,
    status: &str,
    updated: &str,
    reminds: Vec<Date>,
) -> ChangedTask {
    ChangedTask {
        task_number,
        title: title.into(),
        status: status.into(),
        source: "web".into(),
        project_name: None,
        due: None,
        done_at: None,
        important: false,
        updated_at: ts(updated),
        created_at: ts("2026-04-01T00:00:00Z"),
        reminds,
    }
}

fn unsynced_task(neon_id: i64, title: &str, reminds: Vec<Date>) -> UnsyncedTask {
    UnsyncedTask {
        neon_id,
        title: title.into(),
        status: "open".into(),
        source: "web".into(),
        project_name: None,
        due: None,
        done_at: None,
        important: false,
        updated_at: ts("2026-04-12T09:00:00Z"),
        created_at: ts("2026-04-12T09:00:00Z"),
        reminds,
    }
}

fn count(db: &Db, table: &str) -> i64 {
    db.conn
        .query_row(&format!("SELECT COUNT(*) FROM {table}"), [], |r| r.get(0))
        .unwrap()
}

fn remind_dates(db: &Db, id: i64) -> Vec<String> {
    db.conn
        .prepare("SELECT remind_at FROM task_reminds WHERE task_id = ?1 ORDER BY remind_at")
        .unwrap()
        .query_map((id,), |r| r.get::<_, String>(0))
        .unwrap()
        .collect::<Result<_, _>>()
        .unwrap()
}

#[test]
fn push_sends_all_tasks_on_initial_run() {
    let mut db = make_my_task_db();
    insert_raw_task(&db.conn, "a", "open", None, "2026-04-10", "2026-04-10");
    insert_raw_task(&db.conn, "b", "open", None, "2026-04-12", "2026-04-12");
    let mut state = open_state();
    let mut api = MockApi::new();
    api.push_results = vec![
        PushResultRow { task_number: 1, action: PushAction::Created, neon_id: 101 },
        PushResultRow { task_number: 2, action: PushAction::Created, neon_id: 102 },
    ];
    push(&mut db, &mut api, &mut state, false).expect("push");
    assert_eq!(api.pushed.len(), 2);
    assert!(
        state.get("last_push_at").unwrap().is_some(),
        "last_push_at should be set after successful push"
    );
}

#[test]
fn push_sends_only_tasks_newer_than_last_push() {
    let mut db = make_my_task_db();
    insert_raw_task(&db.conn, "old", "open", None, "2026-04-10", "2026-04-10");
    insert_raw_task(&db.conn, "mid", "open", None, "2026-04-11", "2026-04-11");
    insert_raw_task(&db.conn, "new", "open", None, "2026-04-12", "2026-04-12");
    let mut state = open_state();
    state.set("last_push_at", "2026-04-11").unwrap();
    let mut api = MockApi::new();
    api.push_results =
        vec![PushResultRow { task_number: 3, action: PushAction::Created, neon_id: 103 }];
    push(&mut db, &mut api, &mut state, false).unwrap();
    assert_eq!(api.pushed.len(), 1);
    assert_eq!(api.pushed[0].title, "new");
}

#[test]
fn pushed_tasks_carry_their_fields() {
    let mut db = make_my_task_db();
    let id = insert_raw_task(&db.conn, "a", "done", None, "2026-04-10", "2026-04-09");
    db.conn
        .execute("INSERT INTO task_reminds (task_id, remind_at) VALUES (?1, '2026-04-20')", (id,))
        .unwrap();
    let mut state = open_state();
    let mut api = MockApi::new();
    push(&mut db, &mut api, &mut state, false).unwrap();
    let task = &api.pushed[0];
    assert_eq!(task.task_number, id);
    assert_eq!(task.status, "done");
    assert_eq!(task.source, "cli");
    assert_eq!(task.updated_at, ts("2026-04-10T00:00:00Z"));
    assert_eq!(task.created_at, ts("2026-04-09T00:00:00Z"));
    assert_eq!(task.reminds, vec![d(2026, 4, 20)]);
}

#[test]
fn a_failed_push_is_not_noted() {
    let mut db = make_my_task_db();
    insert_raw_task(&db.conn, "a", "open", None, "2026-04-10", "2026-04-10");
    let mut state = open_state();
    let mut api = MockApi::new();
    api.fail_push = true;
    let err = push(&mut db, &mut api, &mut state, false).unwrap_err();
    assert!(matches!(err, Error::Reqwest(_)));
    assert!(state.get("last_push_at").unwrap().is_none());
    assert!(sync_cycle(&mut db, &mut api, &mut state, false).is_err());
    assert!(api.changes_since.is_empty(), "the cycle ends at the push");
}

#[test]
fn pull_unsynced_inserts_and_patches_task_number_back_to_neon() {
    let mut db = make_my_task_db();
    let mut api = MockApi::new();
    api.unsynced = vec![UnsyncedTask {
        project_name: Some("inbox".into()),
        ..unsynced_task(42, "Web 作成", vec![d(2026, 4, 20)])
    }];
    pull_unsynced(&mut db, &mut api, false).unwrap();
    let sqlite_id: i64 = db
        .conn
        .query_row("SELECT id FROM tasks WHERE title = 'Web 作成'", [], |r| r.get(0))
        .expect("task inserted");
    assert_eq!(remind_dates(&db, sqlite_id).len(), 1);
    assert_eq!(api.patched, vec![(42, sqlite_id)]);
    let project_exists: Option<String> = db
        .conn
        .query_row("SELECT name FROM projects WHERE name = 'inbox'", [], |r| r.get(0))
        .ok();
    assert_eq!(project_exists.as_deref(), Some("inbox"));
}

#[test]
fn pull_unsynced_rolls_back_sqlite_when_patch_fails() {
    let mut db = make_my_task_db();
    let mut api = MockApi::new();
    api.unsynced = vec![unsynced_task(42, "will-rollback", vec![d(2026, 4, 20), d(2026, 4, 21)])];
    api.fail_patch = true;
    let result = pull_unsynced(&mut db, &mut api, false);
    assert!(matches!(result, Err(Error::Api { status: 500, .. })), "got {result:?}");
    assert_eq!(count(&db, "tasks"), 0);
    assert_eq!(count(&db, "task_reminds"), 0);
    assert_eq!(api.patched, vec![(42, 1)]);
}

#[test]
fn every_unsynced_task_gets_its_number() {
    let mut db = make_my_task_db();
    let mut api = MockApi::new();
    api.unsynced = vec![
        unsynced_task(7, "a", vec![]),
        unsynced_task(8, "b", vec![d(2026, 4, 20)]),
        unsynced_task(9, "c", vec![]),
    ];
    pull_unsynced(&mut db, &mut api, false).unwrap();
    assert_eq!(api.patched, vec![(7, 1), (8, 2), (9, 3)]);
    assert_eq!(count(&db, "tasks"), 3);
    assert_eq!(api.changes_since, vec![None]);
}

#[test]
fn a_task_that_cannot_be_inserted_ends_the_cycle() {
    let mut db = make_my_task_db();
    let mut api = MockApi::new();
    let bad = UnsyncedTask { status: "bogus".into(), ..unsynced_task(7, "a", vec![]) };
    api.unsynced = vec![bad, unsynced_task(8, "b", vec![])];
    assert!(matches!(pull_unsynced(&mut db, &mut api, false), Err(Error::Sqlite(_))));
    assert!(api.patched.is_empty());
    assert_eq!(count(&db, "tasks"), 0);
    db.conn.execute_batch("BEGIN EXCLUSIVE; ROLLBACK").expect("no transaction is left open");
}

#[test]
fn pull_updates_applies_when_neon_is_newer_lww_neon_wins() {
    let mut db = make_my_task_db();
    let id = insert_raw_task(&db.conn, "original", "open", None, "2026-04-10", "2026-04-01");
    let mut state = open_state();
    let mut api = MockApi::new();
    api.changes.tasks =
        vec![changed_task(id, "updated-by-neon", "done", "2026-04-12T10:00:00Z", vec![])];
    pull_updates(&mut db, &mut api, &mut state, false).unwrap();
    let (title, status, updated): (String, String, String) = db
        .conn
        .query_row("SELECT title, status, updated FROM tasks WHERE id = ?1", (id,), |r| {
            Ok((r.get(0)?, r.get(1)?, r.get(2)?))
        })
        .unwrap();
    assert_eq!(title, "updated-by-neon");
    assert_eq!(status, "done");
    assert_eq!(updated, "2026-04-12");
}

#[test]
fn pull_updates_skips_when_sqlite_is_newer_lww_sqlite_wins() {
    let mut db = make_my_task_db();
    let id = insert_raw_task(&db.conn, "local-newer", "open", None, "2026-04-12", "2026-04-01");
    let mut state = open_state();
    let mut api = MockApi::new();
    api.changes.tasks =
        vec![changed_task(id, "neon-stale", "closed", "2026-04-10T00:00:00Z", vec![])];
    pull_updates(&mut db, &mut api, &mut state, false).unwrap();
    let (title, status): (String, String) = db
        .conn
        .query_row("SELECT title, status FROM tasks WHERE id = ?1", (id,), |r| {
            Ok((r.get(0)?, r.get(1)?))
        })
        .unwrap();
    assert_eq!(title, "local-newer", "SQLite should win LWW");
    assert_eq!(status, "open");
}

#[test]
fn a_change_of_the_same_day_is_not_taken() {
    let mut db = make_my_task_db();
    let id = insert_raw_task(&db.conn, "local", "open", None, "2026-04-12", "2026-04-01");
    db.conn
        .execute("INSERT INTO task_reminds (task_id, remind_at) VALUES (?1, '2026-04-13')", (id,))
        .unwrap();
    let mut state = open_state();
    let mut api = MockApi::new();
    api.changes.tasks = vec![changed_task(id, "remote", "done", "2026-04-12T23:59:59Z", vec![])];
    pull_updates(&mut db, &mut api, &mut state, false).unwrap();
    let title: String = db
        .conn
        .query_row("SELECT title FROM tasks WHERE id = ?1", (id,), |r| r.get(0))
        .unwrap();
    assert_eq!(title, "local");
    assert_eq!(remind_dates(&db, id), vec!["2026-04-13".to_string()]);
}

#[test]
fn a_change_that_was_applied_is_not_applied_again() {
    let mut db = make_my_task_db();
    let mut state = open_state();
    let mut api = MockApi::new();
    api.changes.tasks =
        vec![changed_task(7, "remote", "open", "2026-04-12T10:00:00Z", vec![d(2026, 4, 20)])];
    pull_updates(&mut db, &mut api, &mut state, false).unwrap();
    db.conn.execute("UPDATE tasks SET title = 'local' WHERE id = 7", ()).unwrap();
    pull_updates(&mut db, &mut api, &mut state, false).unwrap();
    let title: String = db
        .conn
        .query_row("SELECT title FROM tasks WHERE id = 7", [], |r| r.get(0))
        .unwrap();
    assert_eq!(title, "local");
    assert_eq!(remind_dates(&db, 7), vec!["2026-04-20".to_string()]);
}

#[test]
fn a_local_day_that_cannot_be_read_is_reported() {
    let mut db = make_my_task_db();
    let id = insert_raw_task(&db.conn, "local", "open", None, "soon", "2026-04-01");
    let mut state = open_state();
    let mut api = MockApi::new();
    api.changes.tasks = vec![changed_task(id, "remote", "done", "2026-04-12T23:59:59Z", vec![])];
    let err = pull_updates(&mut db, &mut api, &mut state, false).unwrap_err();
    assert_eq!(
        err.message(),
        "config error: invalid local updated \"soon\": input contains invalid characters"
    );
    assert!(state.get("last_pull_at").unwrap().is_none());
}

#[test]
fn pull_updates_inserts_row_when_sqlite_missing() {
    let mut db = make_my_task_db();
    let mut state = open_state();
    let mut api = MockApi::new();
    api.changes.tasks =
        vec![changed_task(7, "new-from-neon", "open", "2026-04-12T10:00:00Z", vec![])];
    pull_updates(&mut db, &mut api, &mut state, false).unwrap();
    let title: String = db
        .conn
        .query_row("SELECT title FROM tasks WHERE id = 7", [], |r| r.get(0))
        .expect("row id=7 inserted");
    assert_eq!(title, "new-from-neon");
}

#[test]
fn pull_updates_replaces_all_reminds_for_task() {
    let mut db = make_my_task_db();
    let id = insert_raw_task(&db.conn, "with-reminds", "open", None, "2026-04-10", "2026-04-01");
    db.conn
        .execute(
            "INSERT INTO task_reminds (task_id, remind_at) VALUES (?1, '2026-04-13'), (?1, '2026-04-14')",
            (id,),
        )
        .unwrap();
    let mut state = open_state();
    let mut api = MockApi::new();
    api.changes.tasks = vec![changed_task(
        id,
        "with-reminds",
        "open",
        "2026-04-12T10:00:00Z",
        vec![d(2026, 4, 20)],
    )];
    pull_updates(&mut db, &mut api, &mut state, false).unwrap();
    assert_eq!(remind_dates(&db, id), vec!["2026-04-20".to_string()]);
}

#[test]
fn pull_updates_uses_none_since_on_initial_run() {
    let mut db = make_my_task_db();
    let mut state = open_state();
    let mut api = MockApi::new();
    pull_updates(&mut db, &mut api, &mut state, false).unwrap();
    assert_eq!(api.changes_since, vec![None]);
}

#[test]
fn pull_updates_passes_last_pull_at_as_since_on_subsequent_run() {
    let mut db = make_my_task_db();
    let mut state = open_state();
    state.set("last_pull_at", "2026-04-11T00:00:00Z").unwrap();
    let mut api = MockApi::new();
    pull_updates(&mut db, &mut api, &mut state, false).unwrap();
    assert_eq!(api.changes_since, vec![Some("2026-04-11T00:00:00Z".to_string())]);
}

#[test]
fn a_cycle_asks_for_changes_since_the_last_pull() {
    let mut db = make_my_task_db();
    let mut state = open_state();
    state.set("last_push_at", "2026-04-01T00:00:00Z").unwrap();
    state.set("last_pull_at", "2026-04-11T00:00:00Z").unwrap();
    let mut api = MockApi::new();
    api.unsynced = vec![unsynced_task(7, "a", vec![])];
    sync_cycle(&mut db, &mut api, &mut state, false).unwrap();
    sync_cycle(&mut db, &mut api, &mut state, true).unwrap();
    assert_eq!(
        api.changes_since,
        vec![
            Some("2026-04-11T00:00:00Z".to_string()),
            Some("2026-04-12T12:00:00Z".to_string()),
        ]
    );
}

#[test]
fn pull_updates_writes_server_time_to_state() {
    let mut db = make_my_task_db();
    let mut state = open_state();
    let mut api = MockApi::new();
    pull_updates(&mut db, &mut api, &mut state, false).unwrap();
    let stored = state.get("last_pull_at").unwrap();
    assert_eq!(stored.as_deref(), Some("2026-04-12T12:00:00Z"));
}

#[test]
fn dry_run_push_does_not_call_api_nor_update_state() {
    let mut db = make_my_task_db();
    insert_raw_task(&db.conn, "a", "open", None, "2026-04-12", "2026-04-12");
    let mut state = open_state();
    let mut api = MockApi::new();
    push(&mut db, &mut api, &mut state, true).unwrap();
    assert!(api.pushed.is_empty(), "push must not be called in dry_run");
    assert!(
        state.get("last_push_at").unwrap().is_none(),
        "last_push_at must NOT be set in dry_run"
    );
}

#[test]
fn dry_run_pull_unsynced_does_not_insert_or_patch() {
    let mut db = make_my_task_db();
    let mut api = MockApi::new();
    api.unsynced = vec![UnsyncedTask {
        updated_at: ts("2026-04-12T00:00:00Z"),
        created_at: ts("2026-04-12T00:00:00Z"),
        ..unsynced_task(42, "dry", vec![])
    }];
    pull_unsynced(&mut db, &mut api, true).unwrap();
    assert_eq!(count(&db, "tasks"), 0, "dry_run must not INSERT");
    assert!(api.patched.is_empty(), "dry_run must not PATCH");
}

#[test]
fn dry_run_pull_updates_does_not_mutate_sqlite_or_state() {
    let mut db = make_my_task_db();
    let id = insert_raw_task(&db.conn, "keep-me", "open", None, "2026-04-10", "2026-04-01");
    let mut state = open_state();
    let mut api = MockApi::new();
    api.changes.tasks = vec![changed_task(
        id,
        "would-overwrite",
        "done",
        "2026-04-12T00:00:00Z",
        vec![d(2026, 4, 20)],
    )];
    pull_updates(&mut db, &mut api, &mut state, true).unwrap();
    let title: String = db
        .conn
        .query_row("SELECT title FROM tasks WHERE id = ?1", (id,), |r| r.get(0))
        .unwrap();
    assert_eq!(title, "keep-me");
    assert!(
        state.get("last_pull_at").unwrap().is_none(),
        "dry_run must not write state"
    );
}

#[test]
fn a_whole_dry_run_only_asks() {
    let mut db = make_my_task_db();
    insert_raw_task(&db.conn, "to-push", "open", None, "2026-04-12", "2026-04-12");
    let mut state = open_state();
    let mut api = MockApi::new();
    api.unsynced = vec![unsynced_task(42, "dry", vec![])];
    sync_cycle(&mut db, &mut api, &mut state, true).unwrap();
    assert!(api.pushed.is_empty() && api.patched.is_empty());
    assert_eq!(api.changes_since, vec![None]);
    assert_eq!(count(&db, "tasks"), 1);
    assert!(state.get("last_push_at").unwrap().is_none());
    assert!(state.get("last_pull_at").unwrap().is_none());
}

#[test]
fn sync_cycle_executes_push_then_pull_unsynced_then_pull_updates() {
    let mut db = make_my_task_db();
    insert_raw_task(&db.conn, "to-push", "open", None, "2026-04-12", "2026-04-12");
    let mut state = open_state();
    let mut api = MockApi::new();
    api.push_results =
        vec![PushResultRow { task_number: 1, action: PushAction::Created, neon_id: 101 }];
    api.unsynced = vec![UnsyncedTask {
        updated_at: ts("2026-04-12T00:00:00Z"),
        created_at: ts("2026-04-12T00:00:00Z"),
        ..unsynced_task(42, "unsynced", vec![])
    }];
    sync_cycle(&mut db, &mut api, &mut state, false).expect("sync_cycle");
    assert_eq!(api.pushed.len(), 1, "push happened");
    assert_eq!(api.patched.len(), 1, "pull_unsynced happened");
    assert_eq!(api.changes_since.len(), 1, "pull_updates happened");
    assert!(state.get("last_push_at").unwrap().is_some());
    assert!(state.get("last_pull_at").unwrap().is_some());
}
