//! Domain types, and the shapes in which the HTTP side exchanges them.

use vstd::prelude::*;

use crate::date::{midnight_of, Date, Timestamp};
use crate::sql::{opt_view, views};
use crate::text::str_eq;

verus! {

// ------------------------------------------------------------------
// Domain types
// ------------------------------------------------------------------

/// The status of a task, as the column `tasks.status` holds it.
#[derive(Debug, Clone, Copy, PartialEq, Eq, Structural)]
pub enum Status {
    Open,
    Done,
    Closed,
}

impl Status {
    /// The word for the status.
    pub open spec fn word(self) -> Seq<char> {
        match self {
            Status::Open => "open"@,
            Status::Done => "done"@,
            Status::Closed => "closed"@,
        }
    }

    /// The word for the status.
    pub fn as_str(&self) -> (r: &'static str)
        ensures
            r@ == self.word(),
    {
        match self {
            Status::Open => "open",
            Status::Done => "done",
            Status::Closed => "closed",
        }
    }

    /// The status for a word of the database. An unknown word stands for
    /// `Open`.
    pub fn from_db_str(s: &str) -> (r: Status)
        ensures
            r == status_of(s@),
    {
        if str_eq(s, "done") {
            Status::Done
        } else if str_eq(s, "closed") {
            Status::Closed
        } else {
            Status::Open
        }
    }
}

/// Whether a word is a status.
pub open spec fn is_status(word: Seq<char>) -> bool {
    word == "open"@ || word == "done"@ || word == "closed"@
}

/// The status for a word of the database.
pub open spec fn status_of(word: Seq<char>) -> Status {
    if word == "done"@ {
        Status::Done
    } else if word == "closed"@ {
        Status::Closed
    } else {
        Status::Open
    }
}

/// Reading the word of a status gives the status back.
pub proof fn law_status_words_read_back(status: Status)
    ensures
        status_of(status.word()) == status,
{
    reveal_strlit("open");
    reveal_strlit("done");
    reveal_strlit("closed");
    assert("open"@[0] == 'o' && "done"@[0] == 'd' && "closed"@[0] == 'c');
}

/// A row of the table `tasks`, with the name of its project. The reminders
/// are kept apart.
#[derive(Debug, Clone)]
pub struct Task {
    pub id: i64,
    pub title: String,
    pub status: Status,
    pub source: String,
    pub project: Option<String>,
    pub due: Option<Date>,
    pub done_at: Option<Date>,
    pub created: Date,
    pub updated: Date,
    pub important: bool,
}

/// The model of a [`Task`].
pub struct TaskView {
    pub id: i64,
    pub title: Seq<char>,
    pub status: Status,
    pub source: Seq<char>,
    pub project: Option<Seq<char>>,
    pub due: Option<Date>,
    pub done_at: Option<Date>,
    pub created: Date,
    pub updated: Date,
    pub important: bool,
}

impl View for Task {
    type V = TaskView;

    open spec fn view(&self) -> TaskView {
        TaskView {
            id: self.id,
            title: self.title@,
            status: self.status,
            source: self.source@,
            project: opt_view(self.project),
            due: self.due,
            done_at: self.done_at,
            created: self.created,
            updated: self.updated,
            important: self.important,
        }
    }
}

// ------------------------------------------------------------------
// Shapes of the HTTP side
// ------------------------------------------------------------------

/// A task as the HTTP side shows it. `task_number` is the id of the row.
/// Days are shown as their first instant in UTC.
#[derive(Debug, Clone)]
pub struct TaskDto {
    pub task_number: i64,
    pub title: String,
    pub status: String,
    pub source: String,
    pub project_name: Option<String>,
    pub due: Option<Date>,
    pub done_at: Option<Date>,
    pub important: bool,
    pub updated_at: Timestamp,
    pub created_at: Timestamp,
    pub reminds: Vec<Date>,
}

/// The model of a [`TaskDto`].
pub struct TaskDtoView {
    pub task_number: i64,
    pub title: Seq<char>,
    pub status: Seq<char>,
    pub source: Seq<char>,
    pub project_name: Option<Seq<char>>,
    pub due: Option<Date>,
    pub done_at: Option<Date>,
    pub important: bool,
    pub updated_at: Timestamp,
    pub created_at: Timestamp,
    pub reminds: Seq<Date>,
}

impl View for TaskDto {
    type V = TaskDtoView;

    open spec fn view(&self) -> TaskDtoView {
        TaskDtoView {
            task_number: self.task_number,
            title: self.title@,
            status: self.status@,
            source: self.source@,
            project_name: opt_view(self.project_name),
            due: self.due,
            done_at: self.done_at,
            important: self.important,
            updated_at: self.updated_at,
            created_at: self.created_at,
            reminds: self.reminds@,
        }
    }
}

/// A task with its reminders, as the HTTP side shows it.
pub open spec fn task_dto(task: TaskView, reminds: Seq<Date>) -> TaskDtoView {
    TaskDtoView {
        task_number: task.id,
        title: task.title,
        status: task.status.word(),
        source: task.source,
        project_name: task.project,
        due: task.due,
        done_at: task.done_at,
        important: task.important,
        updated_at: midnight_of(task.updated),
        created_at: midnight_of(task.created),
        reminds,
    }
}

impl TaskDto {
    /// A task with its reminders, as the HTTP side shows it.
    pub fn from_task(task: Task, reminds: Vec<Date>) -> (r: TaskDto)
        ensures
            r@ == task_dto(task@, reminds@),
    {
        TaskDto {
            task_number: task.id,
            title: task.title,
            status: task.status.as_str().to_owned(),
            source: task.source,
            project_name: task.project,
            due: task.due,
            done_at: task.done_at,
            important: task.important,
            updated_at: task.updated.midnight(),
            created_at: task.created.midnight(),
            reminds,
        }
    }
}

/// The answer to `GET /api/tasks`. A client may send `server_time` back as the
/// next `since`.
#[derive(Debug, Clone)]
pub struct TaskListResponse {
    pub tasks: Vec<TaskDto>,
    pub server_time: Timestamp,
}

/// The model of a [`TaskListResponse`].
pub struct TaskListView {
    pub tasks: Seq<TaskDtoView>,
    pub server_time: Timestamp,
}

impl View for TaskListResponse {
    type V = TaskListView;

    open spec fn view(&self) -> TaskListView {
        TaskListView { tasks: views(self.tasks@), server_time: self.server_time }
    }
}

/// The body of `POST /api/tasks`. It holds no task number: the database
/// assigns it.
#[derive(Debug, Clone)]
pub struct TaskCreateDto {
    pub title: String,
    pub status: String,
    pub source: String,
    pub project_name: Option<String>,
    pub due: Option<Date>,
    pub done_at: Option<Date>,
    pub important: bool,
    pub updated_at: Timestamp,
    pub created_at: Timestamp,
    pub reminds: Vec<Date>,
}

/// The model of a [`TaskCreateDto`].
pub struct TaskCreateView {
    pub title: Seq<char>,
    pub status: Seq<char>,
    pub source: Seq<char>,
    pub project_name: Option<Seq<char>>,
    pub due: Option<Date>,
    pub done_at: Option<Date>,
    pub important: bool,
    pub updated_at: Timestamp,
    pub created_at: Timestamp,
    pub reminds: Seq<Date>,
}

impl View for TaskCreateDto {
    type V = TaskCreateView;

    open spec fn view(&self) -> TaskCreateView {
        TaskCreateView {
            title: self.title@,
            status: self.status@,
            source: self.source@,
            project_name: opt_view(self.project_name),
            due: self.due,
            done_at: self.done_at,
            important: self.important,
            updated_at: self.updated_at,
            created_at: self.created_at,
            reminds: self.reminds@,
        }
    }
}

/// The answer that carries one task.
#[derive(Debug, Clone)]
pub struct TaskResponse {
    pub task: TaskDto,
    pub server_time: Timestamp,
}

/// The model of a [`TaskResponse`].
pub struct TaskResponseView {
    pub task: TaskDtoView,
    pub server_time: Timestamp,
}

impl View for TaskResponse {
    type V = TaskResponseView;

    open spec fn view(&self) -> TaskResponseView {
        TaskResponseView { task: self.task@, server_time: self.server_time }
    }
}

/// A project.
#[derive(Debug, Clone)]
pub struct Project {
    pub id: i64,
    pub name: String,
}

/// The model of a [`Project`].
pub struct ProjectView {
    pub id: i64,
    pub name: Seq<char>,
}

impl View for Project {
    type V = ProjectView;

    open spec fn view(&self) -> ProjectView {
        ProjectView { id: self.id, name: self.name@ }
    }
}

/// The answer to `GET /api/projects`.
#[derive(Debug, Clone)]
pub struct ProjectListResponse {
    pub projects: Vec<Project>,
    pub server_time: Timestamp,
}

/// The model of a [`ProjectListResponse`].
pub struct ProjectListView {
    pub projects: Seq<ProjectView>,
    pub server_time: Timestamp,
}

impl View for ProjectListResponse {
    type V = ProjectListView;

    open spec fn view(&self) -> ProjectListView {
        ProjectListView { projects: views(self.projects@), server_time: self.server_time }
    }
}

/// The answer that carries one project.
#[derive(Debug, Clone)]
pub struct ProjectResponse {
    pub project: Project,
    pub server_time: Timestamp,
}

/// The model of a [`ProjectResponse`].
pub struct ProjectResponseView {
    pub project: ProjectView,
    pub server_time: Timestamp,
}

impl View for ProjectResponse {
    type V = ProjectResponseView;

    open spec fn view(&self) -> ProjectResponseView {
        ProjectResponseView { project: self.project@, server_time: self.server_time }
    }
}

// ------------------------------------------------------------------
// Shapes of the remote sync API
// ------------------------------------------------------------------

/// A task that is pushed to the remote side.
#[derive(Debug, Clone)]
pub struct SyncTask {
    pub task_number: i64,
    pub title: String,
    pub status: String,
    pub source: String,
    pub project_name: Option<String>,
    pub due: Option<Date>,
    pub done_at: Option<Date>,
    pub important: bool,
    pub updated_at: Timestamp,
    pub created_at: Timestamp,
    pub reminds: Vec<Date>,
}

/// The model of a [`SyncTask`].
pub struct SyncTaskView {
    pub task_number: i64,
    pub title: Seq<char>,
    pub status: Seq<char>,
    pub source: Seq<char>,
    pub project_name: Option<Seq<char>>,
    pub due: Option<Date>,
    pub done_at: Option<Date>,
    pub important: bool,
    pub updated_at: Timestamp,
    pub created_at: Timestamp,
    pub reminds: Seq<Date>,
}

impl View for SyncTask {
    type V = SyncTaskView;

    open spec fn view(&self) -> SyncTaskView {
        SyncTaskView {
            task_number: self.task_number,
            title: self.title@,
            status: self.status@,
            source: self.source@,
            project_name: opt_view(self.project_name),
            due: self.due,
            done_at: self.done_at,
            important: self.important,
            updated_at: self.updated_at,
            created_at: self.created_at,
            reminds: self.reminds@,
        }
    }
}

/// A task of the remote side that has no number yet.
#[derive(Debug, Clone)]
pub struct UnsyncedTask {
    pub neon_id: i64,
    pub title: String,
    pub status: String,
    pub source: String,
    pub project_name: Option<String>,
    pub due: Option<Date>,
    pub done_at: Option<Date>,
    pub important: bool,
    pub updated_at: Timestamp,
    pub created_at: Timestamp,
    pub reminds: Vec<Date>,
}

/// The model of a [`UnsyncedTask`].
pub struct UnsyncedTaskView {
    pub neon_id: i64,
    pub title: Seq<char>,
    pub status: Seq<char>,
    pub source: Seq<char>,
    pub project_name: Option<Seq<char>>,
    pub due: Option<Date>,
    pub done_at: Option<Date>,
    pub important: bool,
    pub updated_at: Timestamp,
    pub created_at: Timestamp,
    pub reminds: Seq<Date>,
}

impl View for UnsyncedTask {
    type V = UnsyncedTaskView;

    open spec fn view(&self) -> UnsyncedTaskView {
        UnsyncedTaskView {
            neon_id: self.neon_id,
            title: self.title@,
            status: self.status@,
            source: self.source@,
            project_name: opt_view(self.project_name),
            due: self.due,
            done_at: self.done_at,
            important: self.important,
            updated_at: self.updated_at,
            created_at: self.created_at,
            reminds: self.reminds@,
        }
    }
}

/// A task that changed on the remote side.
#[derive(Debug, Clone)]
pub struct ChangedTask {
    pub task_number: i64,
    pub title: String,
    pub status: String,
    pub source: String,
    pub project_name: Option<String>,
    pub due: Option<Date>,
    pub done_at: Option<Date>,
    pub important: bool,
    pub updated_at: Timestamp,
    pub created_at: Timestamp,
    pub reminds: Vec<Date>,
}

/// The model of a [`ChangedTask`].
pub struct ChangedTaskView {
    pub task_number: i64,
    pub title: Seq<char>,
    pub status: Seq<char>,
    pub source: Seq<char>,
    pub project_name: Option<Seq<char>>,
    pub due: Option<Date>,
    pub done_at: Option<Date>,
    pub important: bool,
    pub updated_at: Timestamp,
    pub created_at: Timestamp,
    pub reminds: Seq<Date>,
}

impl View for ChangedTask {
    type V = ChangedTaskView;

    open spec fn view(&self) -> ChangedTaskView {
        ChangedTaskView {
            task_number: self.task_number,
            title: self.title@,
            status: self.status@,
            source: self.source@,
            project_name: opt_view(self.project_name),
            due: self.due,
            done_at: self.done_at,
            important: self.important,
            updated_at: self.updated_at,
            created_at: self.created_at,
            reminds: self.reminds@,
        }
    }
}

/// The changes on the remote side, and the time there.
#[derive(Debug, Clone)]
pub struct ChangesResponse {
    pub tasks: Vec<ChangedTask>,
    pub server_time: Timestamp,
}

/// The model of a [`ChangesResponse`].
pub struct ChangesView {
    pub tasks: Seq<ChangedTaskView>,
    pub server_time: Timestamp,
}

impl View for ChangesResponse {
    type V = ChangesView;

    open spec fn view(&self) -> ChangesView {
        ChangesView { tasks: views(self.tasks@), server_time: self.server_time }
    }
}

/// What the remote side did with a task that was pushed.
#[derive(Debug, Clone, Copy, PartialEq, Eq, Structural)]
pub enum PushAction {
    Created,
    Updated,
    Skipped,
}

/// The outcome for one task that was pushed.
#[derive(Debug, Clone, Copy, PartialEq, Eq, Structural)]
pub struct PushResultRow {
    pub task_number: i64,
    pub action: PushAction,
    pub neon_id: i64,
}

/// The outcome of a push.
#[derive(Debug, Clone)]
pub struct PushResponse {
    pub results: Vec<PushResultRow>,
}

/// The body with which a task of the remote side is given its number.
#[derive(Debug, Clone, Copy, PartialEq, Eq, Structural)]
pub struct PatchNumberBody {
    pub task_number: i64,
}

/// Each status has its word, and no other.
pub proof fn law_status_words(status: Status)
    ensures
        status is Open <==> status.word() == "open"@,
        status is Done <==> status.word() == "done"@,
        status is Closed <==> status.word() == "closed"@,
        is_status(status.word()),
{
    reveal_strlit("open");
    reveal_strlit("done");
    reveal_strlit("closed");
    assert("open"@[0] == 'o' && "done"@[0] == 'd' && "closed"@[0] == 'c');
}

/// A word is that of a status exactly where reading it and writing it again gives
/// the word back.
pub proof fn law_words_of_statuses(word: Seq<char>)
    ensures
        is_status(word) <==> status_of(word).word() == word,
{
    reveal_strlit("open");
    reveal_strlit("done");
    reveal_strlit("closed");
    assert("open"@[0] == 'o' && "done"@[0] == 'd' && "closed"@[0] == 'c');
}

} // verus!
