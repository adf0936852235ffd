//! That the models of values show their fields.

use vstd::prelude::*;

use crate::api_client::ApiRequest;
use crate::config::{Cli, ResolvedConfig};
use crate::error::{Error, ErrorView};
use crate::http::status::NgrokStatus;
use crate::model::{
    ChangedTask, ChangesResponse, Project, ProjectListResponse, ProjectResponse, SyncTask, Task,
    TaskCreateDto, TaskDto, TaskListResponse, TaskResponse, UnsyncedTask,
};
use crate::sql::{opt_view, views, Param, ParamView};
use crate::sqlite::TaskRow;
use crate::sync_engine::{CycleStep, StepView};

verus! {

/// Whether a model shows a text or its absence.
pub open spec fn shows_text(model: Option<Seq<char>>, value: Option<String>) -> bool {
    match value {
        Some(s) => model == Some(s@),
        None => model is None,
    }
}

/// Whether a model shows a borrowed text or its absence.
pub open spec fn shows_str<'a>(model: Option<Seq<char>>, value: Option<&'a str>) -> bool {
    match value {
        Some(s) => model == Some(s@),
        None => model is None,
    }
}

/// The model of a list holds the model of each element, in order, and that of an
/// optional value is there where the value is.
pub proof fn law_lists_and_options<T: View>(items: Seq<T>, value: Option<T>)
    ensures
        views(items).len() == items.len(),
        forall|i: int| 0 <= i < items.len() ==> #[trigger] views(items)[i] == items[i]@,
        opt_view(value) is Some <==> value is Some,
        value matches Some(inner) ==> opt_view(value) == Some(inner@),
{
}

/// A task is modelled by its fields.
pub proof fn law_model_of_task(task: Task)
    ensures
        task@.id == task.id,
        task@.title == task.title@,
        task@.status == task.status,
        task@.source == task.source@,
        shows_text(task@.project, task.project),
        task@.due == task.due,
        task@.done_at == task.done_at,
        task@.created == task.created,
        task@.updated == task.updated,
        task@.important == task.important,
{
}

/// A task for a client is modelled by its fields.
pub proof fn law_model_of_shown_task(task: TaskDto)
    ensures
        task@.task_number == task.task_number,
        task@.title == task.title@,
        task@.status == task.status@,
        task@.source == task.source@,
        shows_text(task@.project_name, task.project_name),
        task@.due == task.due,
        task@.done_at == task.done_at,
        task@.important == task.important,
        task@.updated_at == task.updated_at,
        task@.created_at == task.created_at,
        task@.reminds == task.reminds@,
{
}

/// A new task is modelled by its fields.
pub proof fn law_model_of_new_task(task: TaskCreateDto)
    ensures
        task@.title == task.title@,
        task@.status == task.status@,
        task@.source == task.source@,
        shows_text(task@.project_name, task.project_name),
        task@.due == task.due,
        task@.done_at == task.done_at,
        task@.important == task.important,
        task@.updated_at == task.updated_at,
        task@.created_at == task.created_at,
        task@.reminds == task.reminds@,
{
}

/// A task to push is modelled by its fields.
pub proof fn law_model_of_pushed_task(task: SyncTask)
    ensures
        task@.task_number == task.task_number,
        task@.title == task.title@,
        task@.status == task.status@,
        task@.source == task.source@,
        shows_text(task@.project_name, task.project_name),
        task@.due == task.due,
        task@.done_at == task.done_at,
        task@.important == task.important,
        task@.updated_at == task.updated_at,
        task@.created_at == task.created_at,
        task@.reminds == task.reminds@,
{
}

/// A task without a number is modelled by its fields.
pub proof fn law_model_of_unsynced_task(task: UnsyncedTask)
    ensures
        task@.neon_id == task.neon_id,
        task@.title == task.title@,
        task@.status == task.status@,
        task@.source == task.source@,
        shows_text(task@.project_name, task.project_name),
        task@.due == task.due,
        task@.done_at == task.done_at,
        task@.important == task.important,
        task@.updated_at == task.updated_at,
        task@.created_at == task.created_at,
        task@.reminds == task.reminds@,
{
}

/// A changed task is modelled by its fields.
pub proof fn law_model_of_changed_task(task: ChangedTask)
    ensures
        task@.task_number == task.task_number,
        task@.title == task.title@,
        task@.status == task.status@,
        task@.source == task.source@,
        shows_text(task@.project_name, task.project_name),
        task@.due == task.due,
        task@.done_at == task.done_at,
        task@.important == task.important,
        task@.updated_at == task.updated_at,
        task@.created_at == task.created_at,
        task@.reminds == task.reminds@,
{
}

/// A row is modelled by its fields.
pub proof fn law_model_of_row<'a>(row: TaskRow<'a>)
    ensures
        row@.title == row.title@,
        row@.status == row.status@,
        row@.source == row.source@,
        shows_str(row@.project, row.project),
        row@.due == row.due,
        row@.done_at == row.done_at,
        row@.created == row.created,
        row@.updated == row.updated,
        row@.important == row.important,
{
}

/// The state of ngrok is modelled by its fields.
pub proof fn law_model_of_ngrok_status(status: NgrokStatus)
    ensures
        status@.enabled == status.enabled,
        status@.reachable == status.reachable,
        shows_text(status@.error, status.error),
        shows_text(status@.public_url, status.public_url),
        shows_text(status@.forwarding_to, status.forwarding_to),
        status@.http_requests_total == status.http_requests_total,
        shows_text(status@.http_requests_per_second, status.http_requests_per_second),
        status@.connections_total == status.connections_total,
{
}

/// A request is modelled by its fields.
pub proof fn law_model_of_request(request: ApiRequest)
    ensures
        request@.method == request.method,
        request@.url == request.url@,
        request@.authorization == request.authorization@,
        request@.accept == request.accept@,
        shows_text(request@.content_type, request.content_type),
        shows_text(request@.since, request.since),
{
}

/// A project is modelled by its fields.
pub proof fn law_model_of_project(project: Project)
    ensures
        project@.id == project.id,
        project@.name == project.name@,
{
}

/// An answer is modelled by what it holds and the time of the server.
pub proof fn law_models_of_answers(
    list: TaskListResponse,
    task: TaskResponse,
    projects: ProjectListResponse,
    project: ProjectResponse,
    changes: ChangesResponse,
)
    ensures
        list@.server_time == list.server_time,
        list@.tasks.len() == list.tasks@.len(),
        forall|i: int| 0 <= i < list.tasks@.len() ==> #[trigger] list@.tasks[i] == list.tasks@[i]@,
        task@.server_time == task.server_time,
        task@.task == task.task@,
        projects@.server_time == projects.server_time,
        projects@.projects.len() == projects.projects@.len(),
        forall|i: int|
            0 <= i < projects.projects@.len() ==> #[trigger] projects@.projects[i]
                == projects.projects@[i]@,
        project@.server_time == project.server_time,
        project@.project == project.project@,
        changes@.server_time == changes.server_time,
        changes@.tasks.len() == changes.tasks@.len(),
        forall|i: int|
            0 <= i < changes.tasks@.len() ==> #[trigger] changes@.tasks[i] == changes.tasks@[i]@,
{
}

/// A configuration and a command line are modelled by their fields.
pub proof fn law_models_of_settings(config: ResolvedConfig, cli: Cli)
    ensures
        config@.sqlite_path == config.sqlite.path@,
        config@.port == config.server.port,
        config@.api_key == config.server.api_key@,
        shows_text(config@.ngrok_domain, config.ngrok.domain),
        shows_text(cli@.config_path, cli.config_path),
        cli@.help == cli.help,
{
}

/// An error is modelled by its kind and its words.
pub proof fn law_model_of_error(error: Error)
    ensures
        match error {
            Error::Config(s) => error@ == ErrorView::Config(s@),
            Error::BadRequest(s) => error@ == ErrorView::BadRequest(s@),
            Error::Sqlite(failure) => error@ == ErrorView::Sqlite(failure@),
            Error::Reqwest(s) => error@ == ErrorView::Reqwest(s@),
            Error::Io(s) => error@ == ErrorView::Io(s@),
            Error::Toml(s) => error@ == ErrorView::Toml(s@),
            Error::Json(s) => error@ == ErrorView::Json(s@),
            Error::Api { status, body } => error@ == (ErrorView::Api { status, body: body@ }),
            Error::Unauthorized => error@ is Unauthorized,
            Error::NotFound => error@ is NotFound,
            Error::Conflict(s) => error@ == ErrorView::Conflict(s@),
        },
{
}

/// A parameter is modelled by its value.
pub proof fn law_model_of_parameter(param: Param)
    ensures
        match param {
            Param::Null => param@ is Null,
            Param::Integer(n) => param@ == ParamView::Integer(n),
            Param::Text(s) => param@ == ParamView::Text(s@),
        },
{
}

/// A step of a cycle is modelled by its kind and what goes with it.
pub proof fn law_model_of_step(step: CycleStep)
    ensures
        match step {
            CycleStep::PushTasks(tasks) => step@ is PushTasks && step@->PushTasks_0.len()
                == tasks@.len() && forall|i: int|
                0 <= i < tasks@.len() ==> #[trigger] step@->PushTasks_0[i] == tasks@[i]@,
            CycleStep::GetUnsynced => step@ is GetUnsynced,
            CycleStep::PatchTaskNumber { numbering, neon_id, task_number } => step@ matches
                StepView::PatchTaskNumber { pending, place, neon_id: id, task_number: number }
                && pending == views(numbering.pending@) && place == numbering.place && id == neon_id
                && number == task_number,
            CycleStep::GetChanges(since) => step@ is GetChanges && shows_text(
                step@->GetChanges_0,
                since,
            ),
            CycleStep::Finished(Ok(_)) => step@ == StepView::Finished(Ok(())),
            CycleStep::Finished(Err(e)) => step@ == StepView::Finished(Err(e@)),
        },
{
}

} // verus!
