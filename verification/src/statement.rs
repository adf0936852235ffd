//! The statements that the library hands to SQLite.

use vstd::prelude::*;

use crate::sql::ParamView;
use crate::text::join3;

verus! {

/// Every statement that the library runs. Parameters are bound by position.
#[derive(Clone, Copy, Debug, PartialEq, Eq, Structural)]
pub enum Statement {
    /// Opens a transaction, which takes its locks when they are needed.
    Begin,
    Commit,
    Rollback,
    /// Answers with one row as long as the database can be read.
    Probe,
    /// `name`.
    AddProjectIfMissing,
    /// `name`; gives `id`.
    ProjectIdByName,
    /// Gives `id`, `name` for each project, in the order of the ids.
    ListProjects,
    /// `name`; gives `id`, `name`.
    ProjectByName,
    /// `id`; gives `id`, `name`.
    ProjectById,
    /// `name`.
    InsertProject,
    /// `name`, `id`.
    RenameProject,
    /// `id`; gives the number of tasks of the project.
    CountProjectTasks,
    /// `id`.
    DeleteProject,
    /// The columns of a task, without its id.
    InsertTask,
    /// The id of a task, then its other columns.
    InsertTaskWithId,
    /// The columns of a task, then its id.
    UpdateTask,
    /// A text; gives the tasks whose `updated` is greater, in the order of the
    /// ids.
    TasksUpdatedAfter,
    /// `id`; gives the task.
    TaskById,
    /// `status` or null, the least `updated` or null, the name of the project
    /// or null, the greatest number of rows or -1; gives the tasks in the
    /// order of the ids.
    TasksFiltered,
    /// `id`; gives `updated`.
    TaskUpdated,
    /// `task_id`.
    DeleteReminds,
    /// `task_id`, `remind_at`.
    InsertRemind,
    /// As many task ids as the number says; gives `task_id`, `remind_at` in
    /// the order of both.
    RemindsOfTasks(usize),
    CreateState,
    /// `key`; gives `value`.
    ReadState,
    /// `key`, `value`.
    WriteState,
}

/// A statement and the values bound to its parameters.
pub struct Call {
    pub statement: Statement,
    pub params: Seq<ParamView>,
}

/// The columns of a task, from the tasks and the projects that they belong to.
pub const TASK_COLUMNS: &'static str =
    "SELECT t.id, t.title, t.status, t.source, p.name AS project_name, t.due, t.done_at, t.created, t.updated, t.important FROM tasks t LEFT JOIN projects p ON t.project_id = p.id";

/// `n` parameter marks, with commas between them.
pub open spec fn marks(n: nat) -> Seq<char>
    decreases n,
{
    if n == 0 {
        seq![]
    } else if n == 1 {
        "?"@
    } else {
        marks((n - 1) as nat) + ",?"@
    }
}

fn print_marks(n: usize) -> (r: String)
    ensures
        r@ == marks(n as nat),
{
    let mut s = String::new();
    if n == 0 {
        assert(s@ =~= marks(0));
        return s;
    }
    s = "?".to_owned();
    let mut i: usize = 1;
    while i < n
        invariant
            1 <= i <= n,
            s@ == marks(i as nat),
        decreases n - i,
    {
        s.append(",?");
        i = i + 1;
    }
    s
}

impl Statement {
    /// The text of the statement.
    pub open spec fn sql(self) -> Seq<char> {
        match self {
            Statement::Begin => "BEGIN DEFERRED"@,
            Statement::Commit => "COMMIT"@,
            Statement::Rollback => "ROLLBACK"@,
            Statement::Probe => "SELECT 1"@,
            Statement::AddProjectIfMissing =>
                "INSERT OR IGNORE INTO projects (name) VALUES (?1)"@,
            Statement::ProjectIdByName => "SELECT id FROM projects WHERE name = ?1"@,
            Statement::ListProjects => "SELECT id, name FROM projects ORDER BY id"@,
            Statement::ProjectByName => "SELECT id, name FROM projects WHERE name = ?1"@,
            Statement::ProjectById => "SELECT id, name FROM projects WHERE id = ?1"@,
            Statement::InsertProject => "INSERT INTO projects (name) VALUES (?1)"@,
            Statement::RenameProject => "UPDATE projects SET name = ?1 WHERE id = ?2"@,
            Statement::CountProjectTasks => "SELECT COUNT(*) FROM tasks WHERE project_id = ?1"@,
            Statement::DeleteProject => "DELETE FROM projects WHERE id = ?1"@,
            Statement::InsertTask =>
                "INSERT INTO tasks (title, status, source, project_id, due, done_at, created, updated, important) VALUES (?1, ?2, ?3, ?4, ?5, ?6, ?7, ?8, ?9)"@,
            Statement::InsertTaskWithId =>
                "INSERT INTO tasks (id, title, status, source, project_id, due, done_at, created, updated, important) VALUES (?1, ?2, ?3, ?4, ?5, ?6, ?7, ?8, ?9, ?10)"@,
            Statement::UpdateTask =>
                "UPDATE tasks SET title = ?1, status = ?2, source = ?3, project_id = ?4, due = ?5, done_at = ?6, created = ?7, updated = ?8, important = ?9 WHERE id = ?10"@,
            Statement::TasksUpdatedAfter =>
                "SELECT t.id, t.title, t.status, t.source, p.name AS project_name, t.due, t.done_at, t.created, t.updated, t.important FROM tasks t LEFT JOIN projects p ON t.project_id = p.id WHERE t.updated > ?1 ORDER BY t.id"@,
            Statement::TaskById =>
                "SELECT t.id, t.title, t.status, t.source, p.name AS project_name, t.due, t.done_at, t.created, t.updated, t.important FROM tasks t LEFT JOIN projects p ON t.project_id = p.id WHERE t.id = ?1"@,
            Statement::TasksFiltered =>
                "SELECT t.id, t.title, t.status, t.source, p.name AS project_name, t.due, t.done_at, t.created, t.updated, t.important FROM tasks t LEFT JOIN projects p ON t.project_id = p.id WHERE (?1 IS NULL OR t.status = ?1) AND (?2 IS NULL OR t.updated >= ?2) AND (?3 IS NULL OR p.name = ?3) ORDER BY t.id LIMIT ?4"@,
            Statement::TaskUpdated => "SELECT updated FROM tasks WHERE id = ?1"@,
            Statement::DeleteReminds => "DELETE FROM task_reminds WHERE task_id = ?1"@,
            Statement::InsertRemind =>
                "INSERT INTO task_reminds (task_id, remind_at) VALUES (?1, ?2)"@,
            Statement::RemindsOfTasks(n) =>
                "SELECT task_id, remind_at FROM task_reminds WHERE task_id IN ("@ + marks(n as nat)
                    + ") ORDER BY task_id, remind_at"@,
            Statement::CreateState =>
                "CREATE TABLE IF NOT EXISTS sync_state (key TEXT PRIMARY KEY, value TEXT NOT NULL)"@,
            Statement::ReadState => "SELECT value FROM sync_state WHERE key = ?1"@,
            Statement::WriteState =>
                "INSERT INTO sync_state (key, value) VALUES (?1, ?2) ON CONFLICT(key) DO UPDATE SET value = excluded.value"@,
        }
    }

    /// The text of the statement.
    pub fn text(self) -> (r: String)
        ensures
            r@ == self.sql(),
    {
        match self {
            Statement::Begin => "BEGIN DEFERRED".to_owned(),
            Statement::Commit => "COMMIT".to_owned(),
            Statement::Rollback => "ROLLBACK".to_owned(),
            Statement::Probe => "SELECT 1".to_owned(),
            Statement::AddProjectIfMissing =>
                "INSERT OR IGNORE INTO projects (name) VALUES (?1)".to_owned(),
            Statement::ProjectIdByName => "SELECT id FROM projects WHERE name = ?1".to_owned(),
            Statement::ListProjects => "SELECT id, name FROM projects ORDER BY id".to_owned(),
            Statement::ProjectByName => "SELECT id, name FROM projects WHERE name = ?1".to_owned(),
            Statement::ProjectById => "SELECT id, name FROM projects WHERE id = ?1".to_owned(),
            Statement::InsertProject => "INSERT INTO projects (name) VALUES (?1)".to_owned(),
            Statement::RenameProject => "UPDATE projects SET name = ?1 WHERE id = ?2".to_owned(),
            Statement::CountProjectTasks =>
                "SELECT COUNT(*) FROM tasks WHERE project_id = ?1".to_owned(),
            Statement::DeleteProject => "DELETE FROM projects WHERE id = ?1".to_owned(),
            Statement::InsertTask =>
                "INSERT INTO tasks (title, status, source, project_id, due, done_at, created, updated, important) VALUES (?1, ?2, ?3, ?4, ?5, ?6, ?7, ?8, ?9)".to_owned(),
            Statement::InsertTaskWithId =>
                "INSERT INTO tasks (id, title, status, source, project_id, due, done_at, created, updated, important) VALUES (?1, ?2, ?3, ?4, ?5, ?6, ?7, ?8, ?9, ?10)".to_owned(),
            Statement::UpdateTask =>
                "UPDATE tasks SET title = ?1, status = ?2, source = ?3, project_id = ?4, due = ?5, done_at = ?6, created = ?7, updated = ?8, important = ?9 WHERE id = ?10".to_owned(),
            Statement::TasksUpdatedAfter =>
                "SELECT t.id, t.title, t.status, t.source, p.name AS project_name, t.due, t.done_at, t.created, t.updated, t.important FROM tasks t LEFT JOIN projects p ON t.project_id = p.id WHERE t.updated > ?1 ORDER BY t.id".to_owned(),
            Statement::TaskById =>
                "SELECT t.id, t.title, t.status, t.source, p.name AS project_name, t.due, t.done_at, t.created, t.updated, t.important FROM tasks t LEFT JOIN projects p ON t.project_id = p.id WHERE t.id = ?1".to_owned(),
            Statement::TasksFiltered =>
                "SELECT t.id, t.title, t.status, t.source, p.name AS project_name, t.due, t.done_at, t.created, t.updated, t.important FROM tasks t LEFT JOIN projects p ON t.project_id = p.id WHERE (?1 IS NULL OR t.status = ?1) AND (?2 IS NULL OR t.updated >= ?2) AND (?3 IS NULL OR p.name = ?3) ORDER BY t.id LIMIT ?4".to_owned(),
            Statement::TaskUpdated => "SELECT updated FROM tasks WHERE id = ?1".to_owned(),
            Statement::DeleteReminds => "DELETE FROM task_reminds WHERE task_id = ?1".to_owned(),
            Statement::InsertRemind =>
                "INSERT INTO task_reminds (task_id, remind_at) VALUES (?1, ?2)".to_owned(),
            Statement::RemindsOfTasks(n) => join3(
                "SELECT task_id, remind_at FROM task_reminds WHERE task_id IN (",
                print_marks(n).as_str(),
                ") ORDER BY task_id, remind_at",
            ),
            Statement::CreateState =>
                "CREATE TABLE IF NOT EXISTS sync_state (key TEXT PRIMARY KEY, value TEXT NOT NULL)".to_owned(),
            Statement::ReadState => "SELECT value FROM sync_state WHERE key = ?1".to_owned(),
            Statement::WriteState =>
                "INSERT INTO sync_state (key, value) VALUES (?1, ?2) ON CONFLICT(key) DO UPDATE SET value = excluded.value".to_owned(),
        }
    }

    /// The number of columns of the rows that the statement gives.
    pub open spec fn columns(self) -> nat {
        match self {
            Statement::TasksUpdatedAfter | Statement::TaskById | Statement::TasksFiltered => 10,
            Statement::ListProjects
            | Statement::ProjectByName
            | Statement::ProjectById
            | Statement::RemindsOfTasks(_) => 2,
            Statement::Probe
            | Statement::ProjectIdByName
            | Statement::CountProjectTasks
            | Statement::TaskUpdated
            | Statement::ReadState => 1,
            _ => 0,
        }
    }

    /// The number of columns of the rows that the statement gives.
    pub fn column_count(self) -> (r: usize)
        ensures
            r == self.columns(),
    {
        match self {
            Statement::TasksUpdatedAfter | Statement::TaskById | Statement::TasksFiltered => 10,
            Statement::ListProjects
            | Statement::ProjectByName
            | Statement::ProjectById
            | Statement::RemindsOfTasks(_) => 2,
            Statement::Probe
            | Statement::ProjectIdByName
            | Statement::CountProjectTasks
            | Statement::TaskUpdated
            | Statement::ReadState => 1,
            _ => 0,
        }
    }
}

/// There is a mark for each parameter, with a comma between two of them.
pub proof fn law_marks(n: nat)
    requires
        n > 0,
    ensures
        marks(n).len() == 2 * n - 1,
        forall|i: int| 0 <= i < n ==> #[trigger] marks(n)[2 * i] == '?',
        forall|i: int| 0 < i < n ==> #[trigger] marks(n)[2 * i - 1] == ',',
    decreases n,
{
    reveal_strlit("?");
    reveal_strlit(",?");
    if n > 1 {
        law_marks((n - 1) as nat);
    }
}

/// The queries for tasks give the columns of a task in one order, and differ in
/// which tasks they give.
pub proof fn law_queries_for_tasks()
    ensures
        Statement::TaskById.sql() == TASK_COLUMNS@ + " WHERE t.id = ?1"@,
        Statement::TasksUpdatedAfter.sql() == TASK_COLUMNS@
            + " WHERE t.updated > ?1 ORDER BY t.id"@,
        Statement::TasksFiltered.sql() == TASK_COLUMNS@
            + " WHERE (?1 IS NULL OR t.status = ?1) AND (?2 IS NULL OR t.updated >= ?2) AND (?3 IS NULL OR p.name = ?3) ORDER BY t.id LIMIT ?4"@,
{
    reveal_strlit("SELECT t.id, t.title, t.status, t.source, p.name AS project_name, t.due, t.done_at, t.created, t.updated, t.important FROM tasks t LEFT JOIN projects p ON t.project_id = p.id");
    reveal_strlit(" WHERE t.id = ?1");
    reveal_strlit("SELECT t.id, t.title, t.status, t.source, p.name AS project_name, t.due, t.done_at, t.created, t.updated, t.important FROM tasks t LEFT JOIN projects p ON t.project_id = p.id WHERE t.id = ?1");
    assert(Statement::TaskById.sql() =~= TASK_COLUMNS@ + " WHERE t.id = ?1"@);
    reveal_strlit(" WHERE t.updated > ?1 ORDER BY t.id");
    reveal_strlit("SELECT t.id, t.title, t.status, t.source, p.name AS project_name, t.due, t.done_at, t.created, t.updated, t.important FROM tasks t LEFT JOIN projects p ON t.project_id = p.id WHERE t.updated > ?1 ORDER BY t.id");
    assert(Statement::TasksUpdatedAfter.sql() =~= TASK_COLUMNS@
        + " WHERE t.updated > ?1 ORDER BY t.id"@);
    reveal_strlit(" WHERE (?1 IS NULL OR t.status = ?1) AND (?2 IS NULL OR t.updated >= ?2) AND (?3 IS NULL OR p.name = ?3) ORDER BY t.id LIMIT ?4");
    reveal_strlit("SELECT t.id, t.title, t.status, t.source, p.name AS project_name, t.due, t.done_at, t.created, t.updated, t.important FROM tasks t LEFT JOIN projects p ON t.project_id = p.id WHERE (?1 IS NULL OR t.status = ?1) AND (?2 IS NULL OR t.updated >= ?2) AND (?3 IS NULL OR p.name = ?3) ORDER BY t.id LIMIT ?4");
    assert(Statement::TasksFiltered.sql() =~= TASK_COLUMNS@
        + " WHERE (?1 IS NULL OR t.status = ?1) AND (?2 IS NULL OR t.updated >= ?2) AND (?3 IS NULL OR p.name = ?3) ORDER BY t.id LIMIT ?4"@);
}

} // verus!
