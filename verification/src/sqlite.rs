//! Reading and writing the tables of my-task: `tasks`, `projects` and
//! `task_reminds`.
//!
//! Each function states its run as a trace: which statements it hands to
//! SQLite, in which order and with which values, and what it makes of the
//! replies.

use std::collections::HashMap;

use vstd::prelude::*;

use crate::date::{read_date, Date};
use crate::error::{Error, ErrorView};
use crate::model::{status_of, Project, ProjectView, Status, Task, TaskView};
use crate::session::{
    continues, fetched_row, fetched_rows, group_transcript, ran, row_id_read, row_result,
    row_results, RowsView, Session, Trace, Transcript,
};
use crate::sql::{
    get_integer, get_optional_text, get_text, integer_at, integer_or_null, list_result_view,
    opt_result_view, opt_view, optional_text_at, result_view, text_at, text_or_null, views, Cell, FailureView, Param,
    ParamView, RowView, SqlFailure,
};
use crate::statement::{Call, Statement};
use crate::text::{debug_text, join, join3, quoted};

verus! {

broadcast use group_transcript;

// ------------------------------------------------------------------
// parameters
// ------------------------------------------------------------------

/// One parameter.
pub fn params1(a: Param) -> (r: Vec<Param>)
    ensures
        views(r@) == seq![a@],
{
    let mut v: Vec<Param> = Vec::new();
    v.push(a);
    assert(views(v@) =~= seq![a@]);
    v
}

/// Two parameters.
pub fn params2(a: Param, b: Param) -> (r: Vec<Param>)
    ensures
        views(r@) == seq![a@, b@],
{
    let mut v: Vec<Param> = Vec::new();
    v.push(a);
    v.push(b);
    assert(views(v@) =~= seq![a@, b@]);
    v
}

/// No parameters.
pub fn params0() -> (r: Vec<Param>)
    ensures
        views(r@) == Seq::<ParamView>::empty(),
{
    let v: Vec<Param> = Vec::new();
    assert(views(v@) =~= Seq::<ParamView>::empty());
    v
}

/// A statement without parameters.
pub open spec fn plain(statement: Statement) -> Call {
    Call { statement, params: Seq::empty() }
}

/// A statement with one integer.
pub open spec fn with_id(statement: Statement, id: i64) -> Call {
    Call { statement, params: seq![ParamView::Integer(id)] }
}

/// A statement with one text.
pub open spec fn with_text(statement: Statement, text: Seq<char>) -> Call {
    Call { statement, params: seq![ParamView::Text(text)] }
}

fn text_param(s: &str) -> (r: Param)
    ensures
        r@ == ParamView::Text(s@),
{
    Param::Text(s.to_owned())
}

fn optional_text_param(s: Option<&str>) -> (r: Param)
    ensures
        r@ == text_or_null(opt_view(s)),
{
    match s {
        Some(s) => Param::Text(s.to_owned()),
        None => Param::Null,
    }
}

fn optional_date_param(d: Option<Date>) -> (r: Param)
    ensures
        r@ == text_or_null(date_text(d)),
{
    match d {
        Some(d) => Param::Text(d.format()),
        None => Param::Null,
    }
}

/// The text of an optional date.
pub open spec fn date_text(d: Option<Date>) -> Option<Seq<char>> {
    match d {
        Some(d) => Some(d.text()),
        None => None,
    }
}

/// 1 for true, 0 for false.
pub fn bool_to_int(b: bool) -> (r: i64)
    ensures
        r == flag(b),
{
    if b {
        1
    } else {
        0
    }
}

/// 1 for true, 0 for false.
pub open spec fn flag(b: bool) -> i64 {
    if b {
        1
    } else {
        0
    }
}

// ------------------------------------------------------------------
// projects
// ------------------------------------------------------------------

/// The run of [`resolve_project`].
pub open spec fn resolve_project_trace(t: Transcript, at: int, name: Seq<char>) -> Trace<i64> {
    match ran(t, at, with_text(Statement::AddProjectIfMissing, name)) {
        None => None,
        Some((Err(e), at)) => Some((Err(ErrorView::Sqlite(e)), at)),
        Some((Ok(_), at)) => match fetched_row(
            t,
            at,
            with_text(Statement::ProjectIdByName, name),
        ) {
            None => None,
            Some((Err(e), at)) => Some((Err(ErrorView::Sqlite(e)), at)),
            Some((Ok(row), at)) => match integer_at(row, 0, "id"@) {
                Ok(id) => Some((Ok(id), at)),
                Err(e) => Some((Err(ErrorView::Sqlite(e)), at)),
            },
        },
    }
}

pub broadcast proof fn lemma_resolve_project_kept(
    later: Transcript,
    earlier: Transcript,
    at: int,
    name: Seq<char>,
)
    requires
        #[trigger] continues(later, earlier),
        (#[trigger] resolve_project_trace(earlier, at, name)) is Some,
    ensures
        resolve_project_trace(later, at, name) == resolve_project_trace(earlier, at, name),
{
}

/// The id of the project with this name. A missing project is added.
pub fn resolve_project(session: &mut Session, name: &str) -> (r: Result<i64, Error>)
    ensures
        continues(final(session)@, old(session)@),
        resolve_project_trace(final(session)@, old(session)@.len() as int, name@) == Some(
            (result_view(r), final(session)@.len() as int),
        ),
{
    match session.run(Statement::AddProjectIfMissing, params1(text_param(name))) {
        Ok(_) => {},
        Err(e) => return Err(Error::Sqlite(e)),
    }
    let row = match session.fetch_row(Statement::ProjectIdByName, params1(text_param(name))) {
        Ok(row) => row,
        Err(e) => return Err(Error::Sqlite(e)),
    };
    match get_integer(&row, 0, "id") {
        Ok(id) => Ok(id),
        Err(e) => Err(Error::Sqlite(e)),
    }
}

/// The run of [`resolve_optional_project`].
pub open spec fn optional_project_trace(
    t: Transcript,
    at: int,
    name: Option<Seq<char>>,
) -> Trace<Option<i64>> {
    match name {
        None => Some((Ok(None), at)),
        Some(name) => match resolve_project_trace(t, at, name) {
            None => None,
            Some((Err(e), at)) => Some((Err(e), at)),
            Some((Ok(id), at)) => Some((Ok(Some(id)), at)),
        },
    }
}

/// The id of the project with this name, if a name is given.
fn resolve_optional_project(session: &mut Session, name: Option<&str>) -> (r: Result<
    Option<i64>,
    Error,
>)
    ensures
        continues(final(session)@, old(session)@),
        optional_project_trace(final(session)@, old(session)@.len() as int, opt_view(name))
            == Some((result_view(r), final(session)@.len() as int)),
{
    match name {
        None => Ok(None),
        Some(name) => match resolve_project(session, name) {
            Ok(id) => Ok(Some(id)),
            Err(e) => Err(e),
        },
    }
}

// ------------------------------------------------------------------
// tasks: insert and update
// ------------------------------------------------------------------

/// The columns of a row of `tasks` that are written, but for its id.
pub struct TaskRow<'a> {
    pub title: &'a str,
    /// Written as it is: the database refuses a word that is no status.
    pub status: &'a str,
    pub source: &'a str,
    pub project: Option<&'a str>,
    pub due: Option<Date>,
    pub done_at: Option<Date>,
    pub created: Date,
    pub updated: Date,
    pub important: bool,
}

/// The model of a [`TaskRow`].
pub struct TaskRowView {
    pub title: Seq<char>,
    pub status: Seq<char>,
    pub source: Seq<char>,
    pub project: Option<Seq<char>>,
    pub due: Option<Date>,
    pub done_at: Option<Date>,
    pub created: Date,
    pub updated: Date,
    pub important: bool,
}

impl<'a> View for TaskRow<'a> {
    type V = TaskRowView;

    open spec fn view(&self) -> TaskRowView {
        TaskRowView {
            title: self.title@,
            status: self.status@,
            source: self.source@,
            project: opt_view(self.project),
            due: self.due,
            done_at: self.done_at,
            created: self.created,
            updated: self.updated,
            important: self.important,
        }
    }
}

/// The values of the columns of a task, in the order of the statements.
pub open spec fn task_columns(row: TaskRowView, project_id: Option<i64>) -> Seq<ParamView> {
    seq![
        ParamView::Text(row.title),
        ParamView::Text(row.status),
        ParamView::Text(row.source),
        integer_or_null(project_id),
        text_or_null(date_text(row.due)),
        text_or_null(date_text(row.done_at)),
        ParamView::Text(row.created.text()),
        ParamView::Text(row.updated.text()),
        ParamView::Integer(flag(row.important)),
    ]
}

/// Adds the values of the columns of a task behind `first`.
fn push_task_columns(first: Vec<Param>, row: &TaskRow<'_>, project_id: Option<i64>) -> (r: Vec<
    Param,
>)
    ensures
        views(r@) == views(first@) + task_columns(row@, project_id),
{
    let mut v = first;
    v.push(text_param(row.title));
    v.push(text_param(row.status));
    v.push(text_param(row.source));
    v.push(
        match project_id {
            Some(id) => Param::Integer(id),
            None => Param::Null,
        },
    );
    v.push(optional_date_param(row.due));
    v.push(optional_date_param(row.done_at));
    v.push(Param::Text(row.created.format()));
    v.push(Param::Text(row.updated.format()));
    v.push(Param::Integer(bool_to_int(row.important)));
    assert(views(v@) =~= views(first@) + task_columns(row@, project_id));
    v
}

/// The run of [`insert_task_row`].
pub open spec fn insert_task_row_trace(
    t: Transcript,
    at: int,
    row: TaskRowView,
    explicit_id: Option<i64>,
) -> Trace<i64> {
    match optional_project_trace(t, at, row.project) {
        None => None,
        Some((Err(e), at)) => Some((Err(e), at)),
        Some((Ok(project_id), at)) => match explicit_id {
            Some(id) => match ran(t, at, insert_with_id_call(id, row, project_id)) {
                None => None,
                Some((Err(e), at)) => Some((Err(ErrorView::Sqlite(e)), at)),
                Some((Ok(_), at)) => Some((Ok(id), at)),
            },
            None => match ran(t, at, insert_call(row, project_id)) {
                None => None,
                Some((Err(e), at)) => Some((Err(ErrorView::Sqlite(e)), at)),
                Some((Ok(_), at)) => match row_id_read(t, at) {
                    None => None,
                    Some((id, at)) => Some((Ok(id), at)),
                },
            },
        },
    }
}

/// The insertion of a task with an id of its own.
pub open spec fn insert_with_id_call(id: i64, row: TaskRowView, project_id: Option<i64>) -> Call {
    Call {
        statement: Statement::InsertTaskWithId,
        params: seq![ParamView::Integer(id)] + task_columns(row, project_id),
    }
}

/// The insertion of a task to which the database gives an id.
pub open spec fn insert_call(row: TaskRowView, project_id: Option<i64>) -> Call {
    Call { statement: Statement::InsertTask, params: task_columns(row, project_id) }
}

/// The update of a task.
pub open spec fn update_call(id: i64, row: TaskRowView, project_id: Option<i64>) -> Call {
    Call {
        statement: Statement::UpdateTask,
        params: task_columns(row, project_id).push(ParamView::Integer(id)),
    }
}

pub broadcast proof fn lemma_insert_task_row_kept(
    later: Transcript,
    earlier: Transcript,
    at: int,
    row: TaskRowView,
    explicit_id: Option<i64>,
)
    requires
        #[trigger] continues(later, earlier),
        (#[trigger] insert_task_row_trace(earlier, at, row, explicit_id)) is Some,
    ensures
        insert_task_row_trace(later, at, row, explicit_id) == insert_task_row_trace(
            earlier,
            at,
            row,
            explicit_id,
        ),
{
    broadcast use lemma_resolve_project_kept;

}

/// Inserts a row into `tasks` and gives its id: `explicit_id` where there is
/// one, else the id that the database gave to the row.
pub fn insert_task_row(session: &mut Session, row: &TaskRow<'_>, explicit_id: Option<i64>) -> (r:
    Result<i64, Error>)
    ensures
        continues(final(session)@, old(session)@),
        insert_task_row_trace(final(session)@, old(session)@.len() as int, row@, explicit_id)
            == Some((result_view(r), final(session)@.len() as int)),
{
    broadcast use lemma_resolve_project_kept;

    let project_id = match resolve_optional_project(session, row.project) {
        Ok(id) => id,
        Err(e) => return Err(e),
    };
    if let Some(id) = explicit_id {
        let params = push_task_columns(params1(Param::Integer(id)), row, project_id);
        match session.run(Statement::InsertTaskWithId, params) {
            Ok(_) => Ok(id),
            Err(e) => Err(Error::Sqlite(e)),
        }
    } else {
        let params = push_task_columns(params0(), row, project_id);
        assert(views(params@) =~= task_columns(row@, project_id));
        match session.run(Statement::InsertTask, params) {
            Ok(_) => Ok(session.last_row_id()),
            Err(e) => Err(Error::Sqlite(e)),
        }
    }
}

/// The run of [`update_task_row`].
pub open spec fn update_task_row_trace(
    t: Transcript,
    at: int,
    id: i64,
    row: TaskRowView,
) -> Trace<()> {
    match optional_project_trace(t, at, row.project) {
        None => None,
        Some((Err(e), at)) => Some((Err(e), at)),
        Some((Ok(project_id), at)) => match ran(t, at, update_call(id, row, project_id)) {
            None => None,
            Some((Err(e), at)) => Some((Err(ErrorView::Sqlite(e)), at)),
            Some((Ok(_), at)) => Some((Ok(()), at)),
        },
    }
}

pub broadcast proof fn lemma_update_task_row_kept(
    later: Transcript,
    earlier: Transcript,
    at: int,
    id: i64,
    row: TaskRowView,
)
    requires
        #[trigger] continues(later, earlier),
        (#[trigger] update_task_row_trace(earlier, at, id, row)) is Some,
    ensures
        update_task_row_trace(later, at, id, row) == update_task_row_trace(earlier, at, id, row),
{
    broadcast use lemma_resolve_project_kept;

}

/// Overwrites the row of `tasks` with this id.
pub fn update_task_row(session: &mut Session, id: i64, row: &TaskRow<'_>) -> (r: Result<(), Error>)
    ensures
        continues(final(session)@, old(session)@),
        update_task_row_trace(final(session)@, old(session)@.len() as int, id, row@) == Some(
            (result_view(r), final(session)@.len() as int),
        ),
{
    broadcast use lemma_resolve_project_kept;

    let project_id = match resolve_optional_project(session, row.project) {
        Ok(id) => id,
        Err(e) => return Err(e),
    };
    let mut params = push_task_columns(params0(), row, project_id);
    params.push(Param::Integer(id));
    assert(views(params@) =~= task_columns(row@, project_id).push(ParamView::Integer(id)));
    match session.run(Statement::UpdateTask, params) {
        Ok(_) => Ok(()),
        Err(e) => Err(Error::Sqlite(e)),
    }
}

/// The columns of a task as they are written.
pub open spec fn task_row(task: TaskView) -> TaskRowView {
    TaskRowView {
        title: task.title,
        status: task.status.word(),
        source: task.source,
        project: task.project,
        due: task.due,
        done_at: task.done_at,
        created: task.created,
        updated: task.updated,
        important: task.important,
    }
}

/// A text that may be absent, borrowed.
pub fn borrowed(s: &Option<String>) -> (r: Option<&str>)
    ensures
        opt_view(r) == opt_view(*s),
{
    match s {
        Some(s) => Some(s.as_str()),
        None => None,
    }
}

fn task_to_row(task: &Task) -> (r: TaskRow<'_>)
    ensures
        r@ == task_row(task@),
{
    TaskRow {
        title: task.title.as_str(),
        status: task.status.as_str(),
        source: task.source.as_str(),
        project: borrowed(&task.project),
        due: task.due,
        done_at: task.done_at,
        created: task.created,
        updated: task.updated,
        important: task.important,
    }
}

/// Inserts a task and gives the id that the database gave to it. The id in
/// `task` is not used.
pub fn insert_task(session: &mut Session, task: &Task) -> (r: Result<i64, Error>)
    ensures
        continues(final(session)@, old(session)@),
        insert_task_row_trace(final(session)@, old(session)@.len() as int, task_row(task@), None)
            == Some((result_view(r), final(session)@.len() as int)),
{
    insert_task_row(session, &task_to_row(task), None)
}

/// Overwrites the task with the id of `task`.
pub fn update_task(session: &mut Session, task: &Task) -> (r: Result<(), Error>)
    ensures
        continues(final(session)@, old(session)@),
        update_task_row_trace(
            final(session)@,
            old(session)@.len() as int,
            task.id,
            task_row(task@),
        ) == Some((result_view(r), final(session)@.len() as int)),
{
    update_task_row(session, task.id, &task_to_row(task))
}

// ------------------------------------------------------------------
// tasks: read
// ------------------------------------------------------------------

/// The date in a column.
pub open spec fn date_at(text: Seq<char>, index: u64) -> Result<Date, FailureView> {
    match read_date(text) {
        Ok(d) => Ok(d),
        Err(reason) => Err(FailureView::Conversion { index, reason }),
    }
}

/// The date in a column that may be empty.
pub open spec fn optional_date_at(text: Option<Seq<char>>, index: u64) -> Result<
    Option<Date>,
    FailureView,
> {
    match text {
        None => Ok(None),
        Some(text) => match date_at(text, index) {
            Ok(d) => Ok(Some(d)),
            Err(e) => Err(e),
        },
    }
}

/// The failure of a result.
pub open spec fn failed<T>(r: Result<T, FailureView>) -> FailureView {
    match r {
        Ok(_) => arbitrary(),
        Err(e) => e,
    }
}

/// The task in a row. The first column with a value of the wrong type fails,
/// and after those the first that holds no date.
pub open spec fn task_of_row(row: RowView) -> Result<TaskView, FailureView> {
    let id = integer_at(row, 0, "id"@);
    let title = text_at(row, 1, "title"@);
    let status = text_at(row, 2, "status"@);
    let source = text_at(row, 3, "source"@);
    let project = optional_text_at(row, 4, "project_name"@);
    let due_text = optional_text_at(row, 5, "due"@);
    let done_text = optional_text_at(row, 6, "done_at"@);
    let created_text = text_at(row, 7, "created"@);
    let updated_text = text_at(row, 8, "updated"@);
    let important = integer_at(row, 9, "important"@);
    if id is Err {
        Err(failed(id))
    } else if title is Err {
        Err(failed(title))
    } else if status is Err {
        Err(failed(status))
    } else if source is Err {
        Err(failed(source))
    } else if project is Err {
        Err(failed(project))
    } else if due_text is Err {
        Err(failed(due_text))
    } else if done_text is Err {
        Err(failed(done_text))
    } else if created_text is Err {
        Err(failed(created_text))
    } else if updated_text is Err {
        Err(failed(updated_text))
    } else if important is Err {
        Err(failed(important))
    } else {
        let due = optional_date_at(due_text->Ok_0, 5);
        let done_at = optional_date_at(done_text->Ok_0, 6);
        let created = date_at(created_text->Ok_0, 7);
        let updated = date_at(updated_text->Ok_0, 8);
        if due is Err {
            Err(failed(due))
        } else if done_at is Err {
            Err(failed(done_at))
        } else if created is Err {
            Err(failed(created))
        } else if updated is Err {
            Err(failed(updated))
        } else {
            Ok(
                TaskView {
                    id: id->Ok_0,
                    title: title->Ok_0,
                    status: status_of(status->Ok_0),
                    source: source->Ok_0,
                    project: project->Ok_0,
                    due: due->Ok_0,
                    done_at: done_at->Ok_0,
                    created: created->Ok_0,
                    updated: updated->Ok_0,
                    important: important->Ok_0 != 0,
                },
            )
        }
    }
}

fn date_from_sql(s: &str, column_idx: u64) -> (r: Result<Date, SqlFailure>)
    ensures
        match r {
            Ok(d) => date_at(s@, column_idx) == Ok::<Date, FailureView>(d),
            Err(e) => date_at(s@, column_idx) == Err::<Date, FailureView>(e@),
        },
{
    match Date::parse(s) {
        Ok(d) => Ok(d),
        Err(reason) => Err(SqlFailure::Conversion { index: column_idx, reason }),
    }
}

fn optional_date_from_sql(s: &Option<String>, column_idx: u64) -> (r: Result<
    Option<Date>,
    SqlFailure,
>)
    ensures
        match r {
            Ok(d) => optional_date_at(opt_view(*s), column_idx) == Ok::<Option<Date>, FailureView>(
                d,
            ),
            Err(e) => optional_date_at(opt_view(*s), column_idx) == Err::<
                Option<Date>,
                FailureView,
            >(e@),
        },
{
    match s {
        Some(s) => match date_from_sql(s.as_str(), column_idx) {
            Ok(d) => Ok(Some(d)),
            Err(e) => Err(e),
        },
        None => Ok(None),
    }
}

/// Reads the task in a row.
pub fn row_to_task(row: &Vec<Cell>) -> (r: Result<Task, SqlFailure>)
    ensures
        result_view(r) == task_of_row(views(row@)),
{
    let id: i64 = match get_integer(row, 0, "id") {
        Ok(v) => v,
        Err(e) => return Err(e),
    };
    let title = match get_text(row, 1, "title") {
        Ok(v) => v,
        Err(e) => return Err(e),
    };
    let status = match get_text(row, 2, "status") {
        Ok(v) => v,
        Err(e) => return Err(e),
    };
    let source = match get_text(row, 3, "source") {
        Ok(v) => v,
        Err(e) => return Err(e),
    };
    let project = match get_optional_text(row, 4, "project_name") {
        Ok(v) => v,
        Err(e) => return Err(e),
    };
    let due_text = match get_optional_text(row, 5, "due") {
        Ok(v) => v,
        Err(e) => return Err(e),
    };
    let done_text = match get_optional_text(row, 6, "done_at") {
        Ok(v) => v,
        Err(e) => return Err(e),
    };
    let created_text = match get_text(row, 7, "created") {
        Ok(v) => v,
        Err(e) => return Err(e),
    };
    let updated_text = match get_text(row, 8, "updated") {
        Ok(v) => v,
        Err(e) => return Err(e),
    };
    let important: i64 = match get_integer(row, 9, "important") {
        Ok(v) => v,
        Err(e) => return Err(e),
    };
    let due = match optional_date_from_sql(&due_text, 5) {
        Ok(v) => v,
        Err(e) => return Err(e),
    };
    let done_at = match optional_date_from_sql(&done_text, 6) {
        Ok(v) => v,
        Err(e) => return Err(e),
    };
    let created = match date_from_sql(created_text.as_str(), 7) {
        Ok(v) => v,
        Err(e) => return Err(e),
    };
    let updated = match date_from_sql(updated_text.as_str(), 8) {
        Ok(v) => v,
        Err(e) => return Err(e),
    };
    Ok(
        Task {
            id,
            title,
            status: Status::from_db_str(status.as_str()),
            source,
            project,
            due,
            done_at,
            created,
            updated,
            important: important != 0,
        },
    )
}

/// The tasks in the rows, or the first failure.
pub open spec fn tasks_of_rows(rows: RowsView) -> Result<Seq<TaskView>, ErrorView>
    decreases rows.len(),
{
    if rows.len() == 0 {
        Ok(seq![])
    } else {
        match tasks_of_rows(rows.drop_last()) {
            Err(e) => Err(e),
            Ok(tasks) => match rows.last() {
                Err(e) => Err(ErrorView::Sqlite(e)),
                Ok(row) => match task_of_row(row) {
                    Err(e) => Err(ErrorView::Sqlite(e)),
                    Ok(task) => Ok(tasks.push(task)),
                },
            },
        }
    }
}

/// Once a row fails, the rows behind it do not matter.
proof fn lemma_tasks_stay_failed(rows: RowsView, n: int)
    requires
        0 <= n <= rows.len(),
        tasks_of_rows(rows.take(n)) is Err,
    ensures
        tasks_of_rows(rows) == tasks_of_rows(rows.take(n)),
    decreases rows.len(),
{
    if n < rows.len() {
        assert(rows.drop_last().take(n) =~= rows.take(n));
        lemma_tasks_stay_failed(rows.drop_last(), n);
    } else {
        assert(rows.take(n) =~= rows);
    }
}

fn rows_to_tasks(rows: &Vec<Result<Vec<Cell>, SqlFailure>>) -> (r: Result<Vec<Task>, Error>)
    ensures
        list_result_view(r) == tasks_of_rows(row_results(rows@)),
{
    let ghost all = row_results(rows@);
    let mut out: Vec<Task> = Vec::new();
    assert(views(out@) =~= seq![]);
    assert(all.take(0) =~= seq![]);
    let mut i: usize = 0;
    while i < rows.len()
        invariant
            i <= rows.len(),
            all == row_results(rows@),
            tasks_of_rows(all.take(i as int)) == Ok::<Seq<TaskView>, ErrorView>(views(out@)),
        decreases rows.len() - i,
    {
        let ghost before = views(out@);
        proof {
            assert(all.take(i + 1).drop_last() =~= all.take(i as int));
            assert(all.take(i + 1).last() == row_result(rows@[i as int]));
        }
        match &rows[i] {
            Err(e) => {
                proof {
                    lemma_tasks_stay_failed(all, i + 1);
                }
                return Err(Error::Sqlite(copy_failure(e)));
            },
            Ok(row) => match row_to_task(row) {
                Err(e) => {
                    proof {
                        lemma_tasks_stay_failed(all, i + 1);
                    }
                    return Err(Error::Sqlite(e));
                },
                Ok(task) => {
                    out.push(task);
                    assert(views(out@) =~= before.push(task@));
                },
            },
        }
        i = i + 1;
    }
    assert(all.take(i as int) =~= all);
    Ok(out)
}

fn copy_failure(e: &SqlFailure) -> (r: SqlFailure)
    ensures
        r@ == e@,
{
    match e {
        SqlFailure::Constraint(s) => SqlFailure::Constraint(s.clone()),
        SqlFailure::NoRows => SqlFailure::NoRows,
        SqlFailure::ColumnType { index, name, found } => SqlFailure::ColumnType {
            index: *index,
            name: name.clone(),
            found: found.clone(),
        },
        SqlFailure::Conversion { index, reason } => SqlFailure::Conversion {
            index: *index,
            reason: reason.clone(),
        },
        SqlFailure::ColumnIndex(index) => SqlFailure::ColumnIndex(*index),
        SqlFailure::Other(s) => SqlFailure::Other(s.clone()),
    }
}

/// The run of a query for tasks.
pub open spec fn query_tasks_trace(t: Transcript, at: int, call: Call) -> Trace<Seq<TaskView>> {
    match fetched_rows(t, at, call) {
        None => None,
        Some((Err(e), at)) => Some((Err(ErrorView::Sqlite(e)), at)),
        Some((Ok(rows), at)) => Some((tasks_of_rows(rows), at)),
    }
}

fn query_tasks(session: &mut Session, statement: Statement, params: Vec<Param>) -> (r: Result<
    Vec<Task>,
    Error,
>)
    ensures
        continues(final(session)@, old(session)@),
        query_tasks_trace(
            final(session)@,
            old(session)@.len() as int,
            Call { statement, params: views(params@) },
        ) == Some((list_result_view(r), final(session)@.len() as int)),
{
    match session.fetch_rows(statement, params) {
        Ok(rows) => rows_to_tasks(&rows),
        Err(e) => Err(Error::Sqlite(e)),
    }
}

/// The run of [`read_tasks_since`].
pub open spec fn read_tasks_since_trace(t: Transcript, at: int, since: Seq<char>) -> Trace<
    Seq<TaskView>,
> {
    query_tasks_trace(t, at, with_text(Statement::TasksUpdatedAfter, since))
}

/// Reads every task whose `updated` is greater than `since`. The comparison is
/// that of texts: the empty text gives all tasks.
pub fn read_tasks_since(session: &mut Session, since: &str) -> (r: Result<Vec<Task>, Error>)
    ensures
        continues(final(session)@, old(session)@),
        read_tasks_since_trace(final(session)@, old(session)@.len() as int, since@) == Some(
            (list_result_view(r), final(session)@.len() as int),
        ),
{
    query_tasks(session, Statement::TasksUpdatedAfter, params1(text_param(since)))
}

/// Reads every task.
pub fn read_all_tasks(session: &mut Session) -> (r: Result<Vec<Task>, Error>)
    ensures
        continues(final(session)@, old(session)@),
        read_tasks_since_trace(final(session)@, old(session)@.len() as int, ""@) == Some(
            (list_result_view(r), final(session)@.len() as int),
        ),
{
    read_tasks_since(session, "")
}

/// The run of [`read_task_by_id`].
pub open spec fn read_task_by_id_trace(t: Transcript, at: int, id: i64) -> Trace<
    Option<TaskView>,
> {
    match fetched_row(t, at, with_id(Statement::TaskById, id)) {
        None => None,
        Some((Err(FailureView::NoRows), at)) => Some((Ok(None), at)),
        Some((Err(e), at)) => Some((Err(ErrorView::Sqlite(e)), at)),
        Some((Ok(row), at)) => match task_of_row(row) {
            Ok(task) => Some((Ok(Some(task)), at)),
            Err(e) => Some((Err(ErrorView::Sqlite(e)), at)),
        },
    }
}

/// Reads the task with this id, if there is one.
pub fn read_task_by_id(session: &mut Session, id: i64) -> (r: Result<Option<Task>, Error>)
    ensures
        continues(final(session)@, old(session)@),
        read_task_by_id_trace(final(session)@, old(session)@.len() as int, id) == Some(
            (opt_result_view(r), final(session)@.len() as int),
        ),
{
    match session.fetch_row(Statement::TaskById, params1(Param::Integer(id))) {
        Ok(row) => match row_to_task(&row) {
            Ok(task) => Ok(Some(task)),
            Err(e) => Err(Error::Sqlite(e)),
        },
        Err(SqlFailure::NoRows) => Ok(None),
        Err(e) => Err(Error::Sqlite(e)),
    }
}

/// The query of [`read_tasks_filtered`].
pub open spec fn filter_call(
    status: Option<Seq<char>>,
    since: Option<Date>,
    project: Option<Seq<char>>,
    limit: Option<u32>,
) -> Call {
    Call {
        statement: Statement::TasksFiltered,
        params: seq![
            text_or_null(status),
            text_or_null(date_text(since)),
            text_or_null(project),
            ParamView::Integer(
                match limit {
                    Some(n) => n as i64,
                    None => -1i64,
                },
            ),
        ],
    }
}

/// The run of [`read_tasks_filtered`].
pub open spec fn read_tasks_filtered_trace(
    t: Transcript,
    at: int,
    status: Option<Seq<char>>,
    since: Option<Date>,
    project: Option<Seq<char>>,
    limit: Option<u32>,
) -> Trace<Seq<TaskView>> {
    query_tasks_trace(t, at, filter_call(status, since, project, limit))
}

/// Reads the tasks that pass every filter that is given:
///
/// * `status`: the status is this word;
/// * `since`: `updated` is this day or a later one;
/// * `project`: the name of the project is this one;
/// * `limit`: no more than so many tasks.
pub fn read_tasks_filtered(
    session: &mut Session,
    status: Option<&str>,
    since: Option<Date>,
    project: Option<&str>,
    limit: Option<u32>,
) -> (r: Result<Vec<Task>, Error>)
    ensures
        continues(final(session)@, old(session)@),
        read_tasks_filtered_trace(
            final(session)@,
            old(session)@.len() as int,
            opt_view(status),
            since,
            opt_view(project),
            limit,
        ) == Some((list_result_view(r), final(session)@.len() as int)),
{
    // SQLite takes `LIMIT -1` as no limit.
    let limit_val: i64 = match limit {
        Some(n) => n as i64,
        None => -1,
    };
    let mut params = params2(optional_text_param(status), optional_date_param(since));
    let ghost first = views(params@);
    params.push(optional_text_param(project));
    params.push(Param::Integer(limit_val));
    assert(views(params@) =~= first.push(text_or_null(opt_view(project))).push(
        ParamView::Integer(limit_val),
    ));
    assert(views(params@) =~= filter_call(
        opt_view(status),
        since,
        opt_view(project),
        limit,
    ).params);
    query_tasks(session, Statement::TasksFiltered, params)
}

// ------------------------------------------------------------------
// task_reminds
// ------------------------------------------------------------------

/// The insertion of a reminder.
pub open spec fn insert_remind_call(task_id: i64, date: Date) -> Call {
    Call {
        statement: Statement::InsertRemind,
        params: seq![ParamView::Integer(task_id), ParamView::Text(date.text())],
    }
}

/// The run of [`insert_reminds`].
pub open spec fn insert_reminds_trace(
    t: Transcript,
    at: int,
    task_id: i64,
    dates: Seq<Date>,
) -> Trace<()>
    decreases dates.len(),
{
    if dates.len() == 0 {
        Some((Ok(()), at))
    } else {
        match insert_reminds_trace(t, at, task_id, dates.drop_last()) {
            None => None,
            Some((Err(e), at)) => Some((Err(e), at)),
            Some((Ok(_), at)) => match ran(t, at, insert_remind_call(task_id, dates.last())) {
                None => None,
                Some((Err(e), at)) => Some((Err(ErrorView::Sqlite(e)), at)),
                Some((Ok(_), at)) => Some((Ok(()), at)),
            },
        }
    }
}

pub broadcast proof fn lemma_insert_reminds_kept(
    later: Transcript,
    earlier: Transcript,
    at: int,
    task_id: i64,
    dates: Seq<Date>,
)
    requires
        #[trigger] continues(later, earlier),
        (#[trigger] insert_reminds_trace(earlier, at, task_id, dates)) is Some,
    ensures
        insert_reminds_trace(later, at, task_id, dates) == insert_reminds_trace(
            earlier,
            at,
            task_id,
            dates,
        ),
    decreases dates.len(),
{
    if dates.len() > 0 {
        lemma_insert_reminds_kept(later, earlier, at, task_id, dates.drop_last());
    }
}

/// Once an insertion fails, the dates behind it do not matter.
proof fn lemma_insert_reminds_stay_failed(
    t: Transcript,
    at: int,
    task_id: i64,
    dates: Seq<Date>,
    n: int,
)
    requires
        0 <= n <= dates.len(),
        insert_reminds_trace(t, at, task_id, dates.take(n)) matches Some((Err(_), _)),
    ensures
        insert_reminds_trace(t, at, task_id, dates) == insert_reminds_trace(
            t,
            at,
            task_id,
            dates.take(n),
        ),
    decreases dates.len(),
{
    if n < dates.len() {
        assert(dates.drop_last().take(n) =~= dates.take(n));
        lemma_insert_reminds_stay_failed(t, at, task_id, dates.drop_last(), n);
    } else {
        assert(dates.take(n) =~= dates);
    }
}

/// Inserts a row of `task_reminds` for each date.
pub fn insert_reminds(session: &mut Session, task_id: i64, dates: &[Date]) -> (r: Result<
    (),
    Error,
>)
    ensures
        continues(final(session)@, old(session)@),
        insert_reminds_trace(final(session)@, old(session)@.len() as int, task_id, dates@)
            == Some((result_view(r), final(session)@.len() as int)),
{
    let ghost at = session@.len() as int;
    let ghost start = session@;
    let mut i: usize = 0;
    assert(dates@.take(0) =~= seq![]);
    while i < dates.len()
        invariant
            i <= dates.len(),
            continues(session@, start),
            start == old(session)@,
            at == start.len(),
            insert_reminds_trace(session@, at, task_id, dates@.take(i as int)) == Some(
                (Ok::<(), ErrorView>(()), session@.len() as int),
            ),
        decreases dates.len() - i,
    {
        proof {
            assert(dates@.take(i + 1).drop_last() =~= dates@.take(i as int));
            assert(dates@.take(i + 1).last() == dates@[i as int]);
        }
        let params = params2(Param::Integer(task_id), Param::Text(dates[i].format()));
        assert(views(params@) == insert_remind_call(task_id, dates@[i as int]).params);
        let ghost before = session@;
        let outcome = session.run(Statement::InsertRemind, params);
        proof {
            lemma_insert_reminds_kept(session@, before, at, task_id, dates@.take(i as int));
        }
        match outcome {
            Ok(_) => {},
            Err(e) => {
                proof {
                    lemma_insert_reminds_stay_failed(session@, at, task_id, dates@, i + 1);
                }
                return Err(Error::Sqlite(e));
            },
        }
        i = i + 1;
    }
    assert(dates@.take(i as int) =~= dates@);
    Ok(())
}

/// The run of [`replace_reminds`].
pub open spec fn replace_reminds_trace(
    t: Transcript,
    at: int,
    task_id: i64,
    dates: Seq<Date>,
) -> Trace<()> {
    match ran(t, at, with_id(Statement::DeleteReminds, task_id)) {
        None => None,
        Some((Err(e), at)) => Some((Err(ErrorView::Sqlite(e)), at)),
        Some((Ok(_), at)) => insert_reminds_trace(t, at, task_id, dates),
    }
}

pub broadcast proof fn lemma_replace_reminds_kept(
    later: Transcript,
    earlier: Transcript,
    at: int,
    task_id: i64,
    dates: Seq<Date>,
)
    requires
        #[trigger] continues(later, earlier),
        (#[trigger] replace_reminds_trace(earlier, at, task_id, dates)) is Some,
    ensures
        replace_reminds_trace(later, at, task_id, dates) == replace_reminds_trace(
            earlier,
            at,
            task_id,
            dates,
        ),
{
    broadcast use lemma_insert_reminds_kept;

}

/// Puts a row of `task_reminds` for each date in place of all rows of the
/// task. Callers run it inside a transaction, so that a failure leaves nothing
/// half done.
pub fn replace_reminds(session: &mut Session, task_id: i64, dates: &[Date]) -> (r: Result<
    (),
    Error,
>)
    ensures
        continues(final(session)@, old(session)@),
        replace_reminds_trace(final(session)@, old(session)@.len() as int, task_id, dates@)
            == Some((result_view(r), final(session)@.len() as int)),
{
    match session.run(Statement::DeleteReminds, params1(Param::Integer(task_id))) {
        Ok(_) => insert_reminds(session, task_id, dates),
        Err(e) => Err(Error::Sqlite(e)),
    }
}

/// The dates of each task that has any.
pub type Reminds = Map<i64, Seq<Date>>;

/// The dates of a task.
pub open spec fn reminds_of(reminds: Reminds, task_id: i64) -> Seq<Date> {
    if reminds.contains_key(task_id) {
        reminds[task_id]
    } else {
        seq![]
    }
}

/// The error for a reminder that holds no date.
pub open spec fn bad_remind(text: Seq<char>, reason: Seq<char>) -> ErrorView {
    ErrorView::Config("invalid date "@ + debug_text(text) + " in SQLite: "@ + reason)
}

/// The task and the date in a row of `task_reminds`.
pub open spec fn remind_of_row(row: RowView) -> Result<(i64, Date), ErrorView> {
    match integer_at(row, 0, "task_id"@) {
        Err(e) => Err(ErrorView::Sqlite(e)),
        Ok(task_id) => match text_at(row, 1, "remind_at"@) {
            Err(e) => Err(ErrorView::Sqlite(e)),
            Ok(text) => match read_date(text) {
                Err(reason) => Err(bad_remind(text, reason)),
                Ok(date) => Ok((task_id, date)),
            },
        },
    }
}

/// The dates of each task in the rows, or the first failure.
pub open spec fn reminds_of_rows(rows: RowsView) -> Result<Reminds, ErrorView>
    decreases rows.len(),
{
    if rows.len() == 0 {
        Ok(Map::empty())
    } else {
        match reminds_of_rows(rows.drop_last()) {
            Err(e) => Err(e),
            Ok(reminds) => match rows.last() {
                Err(e) => Err(ErrorView::Sqlite(e)),
                Ok(row) => match remind_of_row(row) {
                    Err(e) => Err(e),
                    Ok((task_id, date)) => Ok(
                        reminds.insert(task_id, reminds_of(reminds, task_id).push(date)),
                    ),
                },
            },
        }
    }
}

proof fn lemma_reminds_stay_failed(rows: RowsView, n: int)
    requires
        0 <= n <= rows.len(),
        reminds_of_rows(rows.take(n)) is Err,
    ensures
        reminds_of_rows(rows) == reminds_of_rows(rows.take(n)),
    decreases rows.len(),
{
    if n < rows.len() {
        assert(rows.drop_last().take(n) =~= rows.take(n));
        lemma_reminds_stay_failed(rows.drop_last(), n);
    } else {
        assert(rows.take(n) =~= rows);
    }
}

/// The parameters that stand for ids.
pub open spec fn id_params(ids: Seq<i64>) -> Seq<ParamView> {
    ids.map_values(|id: i64| ParamView::Integer(id))
}

/// The query for the reminders of tasks.
pub open spec fn reminds_call(ids: Seq<i64>) -> Call {
    Call { statement: Statement::RemindsOfTasks(ids.len() as usize), params: id_params(ids) }
}

/// The run of [`read_reminds_for_tasks`].
pub open spec fn read_reminds_trace(t: Transcript, at: int, ids: Seq<i64>) -> Trace<Reminds> {
    if ids.len() == 0 {
        Some((Ok(Map::empty()), at))
    } else {
        match fetched_rows(t, at, reminds_call(ids)) {
            None => None,
            Some((Err(e), at)) => Some((Err(ErrorView::Sqlite(e)), at)),
            Some((Ok(rows), at)) => Some((reminds_of_rows(rows), at)),
        }
    }
}

/// The model of a map from tasks to dates.
pub open spec fn reminds_view(map: Map<i64, Vec<Date>>) -> Reminds {
    map.map_values(|dates: Vec<Date>| dates@)
}

/// The model of a result with a map from tasks to dates.
pub open spec fn reminds_result_view(r: Result<HashMap<i64, Vec<Date>>, Error>) -> Result<
    Reminds,
    ErrorView,
> {
    match r {
        Ok(map) => Ok(reminds_view(map@)),
        Err(e) => Err(e@),
    }
}

fn row_to_remind(row: &Vec<Cell>) -> (r: Result<(i64, Date), Error>)
    ensures
        match r {
            Ok(d) => remind_of_row(views(row@)) == Ok::<(i64, Date), ErrorView>(d),
            Err(e) => remind_of_row(views(row@)) == Err::<(i64, Date), ErrorView>(e@),
        },
{
    let task_id: i64 = match get_integer(row, 0, "task_id") {
        Ok(id) => id,
        Err(e) => return Err(Error::Sqlite(e)),
    };
    let text = match get_text(row, 1, "remind_at") {
        Ok(s) => s,
        Err(e) => return Err(Error::Sqlite(e)),
    };
    match parse_date(text.as_str()) {
        Ok(date) => Ok((task_id, date)),
        Err(e) => Err(e),
    }
}

fn parse_date(s: &str) -> (r: Result<Date, Error>)
    ensures
        match r {
            Ok(d) => read_date(s@) == Ok::<Date, Seq<char>>(d),
            Err(e) => read_date(s@) is Err && e@ == bad_remind(
                s@,
                read_date(s@)->Err_0,
            ),
        },
{
    match Date::parse(s) {
        Ok(d) => Ok(d),
        Err(reason) => {
            let head = join3("invalid date ", quoted(s).as_str(), " in SQLite: ");
            Err(Error::Config(join(head.as_str(), reason.as_str())))
        },
    }
}

fn rows_to_reminds(rows: &Vec<Result<Vec<Cell>, SqlFailure>>) -> (r: Result<
    HashMap<i64, Vec<Date>>,
    Error,
>)
    ensures
        reminds_result_view(r) == reminds_of_rows(row_results(rows@)),
{
    broadcast use vstd::std_specs::hash::group_hash_axioms;

    let ghost all = row_results(rows@);
    let mut map: HashMap<i64, Vec<Date>> = HashMap::new();
    assert(reminds_view(map@) =~= Map::empty());
    assert(all.take(0) =~= seq![]);
    let mut i: usize = 0;
    while i < rows.len()
        invariant
            i <= rows.len(),
            all == row_results(rows@),
            reminds_of_rows(all.take(i as int)) == Ok::<Reminds, ErrorView>(reminds_view(map@)),
        decreases rows.len() - i,
    {
        let ghost before = map@;
        proof {
            assert(all.take(i + 1).drop_last() =~= all.take(i as int));
            assert(all.take(i + 1).last() == row_result(rows@[i as int]));
        }
        match &rows[i] {
            Err(e) => {
                proof {
                    lemma_reminds_stay_failed(all, i + 1);
                }
                return Err(Error::Sqlite(copy_failure(e)));
            },
            Ok(row) => match row_to_remind(row) {
                Err(e) => {
                    proof {
                        lemma_reminds_stay_failed(all, i + 1);
                    }
                    return Err(e);
                },
                Ok((task_id, date)) => {
                    let mut dates = match map.remove(&task_id) {
                        Some(dates) => dates,
                        None => Vec::new(),
                    };
                    assert(dates@ =~= reminds_of(reminds_view(before), task_id));
                    dates.push(date);
                    map.insert(task_id, dates);
                    assert(reminds_view(map@) =~= reminds_view(before).insert(
                        task_id,
                        reminds_of(reminds_view(before), task_id).push(date),
                    ));
                },
            },
        }
        i = i + 1;
    }
    assert(all.take(i as int) =~= all);
    Ok(map)
}

/// Reads the reminders of the given tasks, by task. For no tasks nothing is
/// read.
pub fn read_reminds_for_tasks(session: &mut Session, task_ids: &[i64]) -> (r: Result<
    HashMap<i64, Vec<Date>>,
    Error,
>)
    ensures
        continues(final(session)@, old(session)@),
        read_reminds_trace(final(session)@, old(session)@.len() as int, task_ids@) == Some(
            (reminds_result_view(r), final(session)@.len() as int),
        ),
{
    broadcast use vstd::std_specs::hash::group_hash_axioms;

    if task_ids.len() == 0 {
        let map: HashMap<i64, Vec<Date>> = HashMap::new();
        assert(reminds_view(map@) =~= Map::empty());
        return Ok(map);
    }
    let mut params: Vec<Param> = Vec::new();
    let mut i: usize = 0;
    while i < task_ids.len()
        invariant
            i <= task_ids.len(),
            params@.len() == i,
            forall|j: int| 0 <= j < i ==> (#[trigger] params@[j])@ == ParamView::Integer(task_ids@[j]),
        decreases task_ids.len() - i,
    {
        params.push(Param::Integer(task_ids[i]));
        i = i + 1;
    }
    assert(views(params@) =~= id_params(task_ids@));
    match session.fetch_rows(Statement::RemindsOfTasks(task_ids.len()), params) {
        Ok(rows) => rows_to_reminds(&rows),
        Err(e) => Err(Error::Sqlite(e)),
    }
}

/// The dates of a task, copied out of the map.
pub fn take_reminds(map: &HashMap<i64, Vec<Date>>, task_id: i64) -> (r: Vec<Date>)
    ensures
        r@ == reminds_of(reminds_view(map@), task_id),
{
    broadcast use vstd::std_specs::hash::group_hash_axioms;

    match map.get(&task_id) {
        Some(dates) => copy_dates(dates),
        None => {
            let none: Vec<Date> = Vec::new();
            assert(none@ =~= seq![]);
            none
        },
    }
}

/// A copy of a list of dates.
pub fn copy_dates(dates: &Vec<Date>) -> (r: Vec<Date>)
    ensures
        r@ == dates@,
{
    let mut out: Vec<Date> = Vec::new();
    let mut i: usize = 0;
    while i < dates.len()
        invariant
            i <= dates.len(),
            out@ == dates@.take(i as int),
        decreases dates.len() - i,
    {
        out.push(dates[i]);
        assert(dates@.take(i + 1) =~= dates@.take(i as int).push(dates@[i as int]));
        i = i + 1;
    }
    assert(dates@.take(i as int) =~= dates@);
    out
}

// ------------------------------------------------------------------
// projects: read and write
// ------------------------------------------------------------------

/// The project in a row.
pub open spec fn project_of_row(row: RowView) -> Result<ProjectView, FailureView> {
    match integer_at(row, 0, "id"@) {
        Err(e) => Err(e),
        Ok(id) => match text_at(row, 1, "name"@) {
            Err(e) => Err(e),
            Ok(name) => Ok(ProjectView { id, name }),
        },
    }
}

fn row_to_project(row: &Vec<Cell>) -> (r: Result<Project, SqlFailure>)
    ensures
        result_view(r) == project_of_row(views(row@)),
{
    let id: i64 = match get_integer(row, 0, "id") {
        Ok(id) => id,
        Err(e) => return Err(e),
    };
    match get_text(row, 1, "name") {
        Ok(name) => Ok(Project { id, name }),
        Err(e) => Err(e),
    }
}

/// The projects in the rows, or the first failure.
pub open spec fn projects_of_rows(rows: RowsView) -> Result<Seq<ProjectView>, ErrorView>
    decreases rows.len(),
{
    if rows.len() == 0 {
        Ok(seq![])
    } else {
        match projects_of_rows(rows.drop_last()) {
            Err(e) => Err(e),
            Ok(projects) => match rows.last() {
                Err(e) => Err(ErrorView::Sqlite(e)),
                Ok(row) => match project_of_row(row) {
                    Err(e) => Err(ErrorView::Sqlite(e)),
                    Ok(project) => Ok(projects.push(project)),
                },
            },
        }
    }
}

proof fn lemma_projects_stay_failed(rows: RowsView, n: int)
    requires
        0 <= n <= rows.len(),
        projects_of_rows(rows.take(n)) is Err,
    ensures
        projects_of_rows(rows) == projects_of_rows(rows.take(n)),
    decreases rows.len(),
{
    if n < rows.len() {
        assert(rows.drop_last().take(n) =~= rows.take(n));
        lemma_projects_stay_failed(rows.drop_last(), n);
    } else {
        assert(rows.take(n) =~= rows);
    }
}

fn rows_to_projects(rows: &Vec<Result<Vec<Cell>, SqlFailure>>) -> (r: Result<Vec<Project>, Error>)
    ensures
        list_result_view(r) == projects_of_rows(row_results(rows@)),
{
    let ghost all = row_results(rows@);
    let mut out: Vec<Project> = Vec::new();
    assert(views(out@) =~= seq![]);
    assert(all.take(0) =~= seq![]);
    let mut i: usize = 0;
    while i < rows.len()
        invariant
            i <= rows.len(),
            all == row_results(rows@),
            projects_of_rows(all.take(i as int)) == Ok::<Seq<ProjectView>, ErrorView>(views(out@)),
        decreases rows.len() - i,
    {
        let ghost before = views(out@);
        proof {
            assert(all.take(i + 1).drop_last() =~= all.take(i as int));
            assert(all.take(i + 1).last() == row_result(rows@[i as int]));
        }
        match &rows[i] {
            Err(e) => {
                proof {
                    lemma_projects_stay_failed(all, i + 1);
                }
                return Err(Error::Sqlite(copy_failure(e)));
            },
            Ok(row) => match row_to_project(row) {
                Err(e) => {
                    proof {
                        lemma_projects_stay_failed(all, i + 1);
                    }
                    return Err(Error::Sqlite(e));
                },
                Ok(project) => {
                    out.push(project);
                    assert(views(out@) =~= before.push(project@));
                },
            },
        }
        i = i + 1;
    }
    assert(all.take(i as int) =~= all);
    Ok(out)
}

/// The run of [`read_projects`].
pub open spec fn read_projects_trace(t: Transcript, at: int) -> Trace<Seq<ProjectView>> {
    match fetched_rows(t, at, plain(Statement::ListProjects)) {
        None => None,
        Some((Err(e), at)) => Some((Err(ErrorView::Sqlite(e)), at)),
        Some((Ok(rows), at)) => Some((projects_of_rows(rows), at)),
    }
}

/// Reads every project, in the order of the ids.
pub fn read_projects(session: &mut Session) -> (r: Result<Vec<Project>, Error>)
    ensures
        continues(final(session)@, old(session)@),
        read_projects_trace(final(session)@, old(session)@.len() as int) == Some(
            (list_result_view(r), final(session)@.len() as int),
        ),
{
    match session.fetch_rows(Statement::ListProjects, params0()) {
        Ok(rows) => rows_to_projects(&rows),
        Err(e) => Err(Error::Sqlite(e)),
    }
}

/// The run of a query for one project.
pub open spec fn query_project_trace(t: Transcript, at: int, call: Call) -> Trace<
    Option<ProjectView>,
> {
    match fetched_row(t, at, call) {
        None => None,
        Some((Err(FailureView::NoRows), at)) => Some((Ok(None), at)),
        Some((Err(e), at)) => Some((Err(ErrorView::Sqlite(e)), at)),
        Some((Ok(row), at)) => match project_of_row(row) {
            Ok(project) => Some((Ok(Some(project)), at)),
            Err(e) => Some((Err(ErrorView::Sqlite(e)), at)),
        },
    }
}

fn query_project(session: &mut Session, statement: Statement, params: Vec<Param>) -> (r: Result<
    Option<Project>,
    Error,
>)
    ensures
        continues(final(session)@, old(session)@),
        query_project_trace(
            final(session)@,
            old(session)@.len() as int,
            Call { statement, params: views(params@) },
        ) == Some((opt_result_view(r), final(session)@.len() as int)),
{
    match session.fetch_row(statement, params) {
        Ok(row) => match row_to_project(&row) {
            Ok(project) => Ok(Some(project)),
            Err(e) => Err(Error::Sqlite(e)),
        },
        Err(SqlFailure::NoRows) => Ok(None),
        Err(e) => Err(Error::Sqlite(e)),
    }
}

/// The run of [`read_project_by_name`].
pub open spec fn read_project_by_name_trace(t: Transcript, at: int, name: Seq<char>) -> Trace<
    Option<ProjectView>,
> {
    query_project_trace(t, at, with_text(Statement::ProjectByName, name))
}

/// Reads the project with this name, if there is one.
pub fn read_project_by_name(session: &mut Session, name: &str) -> (r: Result<
    Option<Project>,
    Error,
>)
    ensures
        continues(final(session)@, old(session)@),
        read_project_by_name_trace(final(session)@, old(session)@.len() as int, name@) == Some(
            (opt_result_view(r), final(session)@.len() as int),
        ),
{
    query_project(session, Statement::ProjectByName, params1(text_param(name)))
}

/// The run of [`read_project_by_id`].
pub open spec fn read_project_by_id_trace(t: Transcript, at: int, id: i64) -> Trace<
    Option<ProjectView>,
> {
    query_project_trace(t, at, with_id(Statement::ProjectById, id))
}

/// Reads the project with this id, if there is one.
pub fn read_project_by_id(session: &mut Session, id: i64) -> (r: Result<Option<Project>, Error>)
    ensures
        continues(final(session)@, old(session)@),
        read_project_by_id_trace(final(session)@, old(session)@.len() as int, id) == Some(
            (opt_result_view(r), final(session)@.len() as int),
        ),
{
    query_project(session, Statement::ProjectById, params1(Param::Integer(id)))
}

/// The run of [`insert_project`].
pub open spec fn insert_project_trace(t: Transcript, at: int, name: Seq<char>) -> Trace<
    ProjectView,
> {
    match ran(t, at, with_text(Statement::InsertProject, name)) {
        None => None,
        Some((Err(e), at)) => Some((Err(ErrorView::Sqlite(e)), at)),
        Some((Ok(_), at)) => match row_id_read(t, at) {
            None => None,
            Some((id, at)) => Some((Ok(ProjectView { id, name }), at)),
        },
    }
}

/// Inserts a project and gives it with the id that the database gave to it.
pub fn insert_project(session: &mut Session, name: &str) -> (r: Result<Project, Error>)
    ensures
        continues(final(session)@, old(session)@),
        insert_project_trace(final(session)@, old(session)@.len() as int, name@) == Some(
            (result_view(r), final(session)@.len() as int),
        ),
{
    match session.run(Statement::InsertProject, params1(text_param(name))) {
        Ok(_) => {
            let id: i64 = session.last_row_id();
            Ok(Project { id, name: name.to_owned() })
        },
        Err(e) => Err(Error::Sqlite(e)),
    }
}

/// The renaming of a project.
pub open spec fn rename_call(id: i64, name: Seq<char>) -> Call {
    Call {
        statement: Statement::RenameProject,
        params: seq![ParamView::Text(name), ParamView::Integer(id)],
    }
}

/// The run of [`update_project_name`].
pub open spec fn update_project_name_trace(
    t: Transcript,
    at: int,
    id: i64,
    name: Seq<char>,
) -> Trace<()> {
    match ran(t, at, rename_call(id, name)) {
        None => None,
        Some((Err(e), at)) => Some((Err(ErrorView::Sqlite(e)), at)),
        Some((Ok(_), at)) => Some((Ok(()), at)),
    }
}

/// Renames the project with this id.
pub fn update_project_name(session: &mut Session, id: i64, name: &str) -> (r: Result<(), Error>)
    ensures
        continues(final(session)@, old(session)@),
        update_project_name_trace(final(session)@, old(session)@.len() as int, id, name@) == Some(
            (result_view(r), final(session)@.len() as int),
        ),
{
    match session.run(
        Statement::RenameProject,
        params2(text_param(name), Param::Integer(id)),
    ) {
        Ok(_) => Ok(()),
        Err(e) => Err(Error::Sqlite(e)),
    }
}

/// The run of [`count_tasks_for_project`].
pub open spec fn count_tasks_trace(t: Transcript, at: int, id: i64) -> Trace<i64> {
    match fetched_row(t, at, with_id(Statement::CountProjectTasks, id)) {
        None => None,
        Some((Err(e), at)) => Some((Err(ErrorView::Sqlite(e)), at)),
        Some((Ok(row), at)) => match integer_at(row, 0, "COUNT(*)"@) {
            Ok(n) => Some((Ok(n), at)),
            Err(e) => Some((Err(ErrorView::Sqlite(e)), at)),
        },
    }
}

/// The number of tasks of the project with this id.
pub fn count_tasks_for_project(session: &mut Session, id: i64) -> (r: Result<i64, Error>)
    ensures
        continues(final(session)@, old(session)@),
        count_tasks_trace(final(session)@, old(session)@.len() as int, id) == Some(
            (result_view(r), final(session)@.len() as int),
        ),
{
    match session.fetch_row(Statement::CountProjectTasks, params1(Param::Integer(id))) {
        Ok(row) => match get_integer(&row, 0, "COUNT(*)") {
            Ok(n) => Ok(n),
            Err(e) => Err(Error::Sqlite(e)),
        },
        Err(e) => Err(Error::Sqlite(e)),
    }
}

/// The run of [`delete_project`].
pub open spec fn delete_project_trace(t: Transcript, at: int, id: i64) -> Trace<()> {
    match ran(t, at, with_id(Statement::DeleteProject, id)) {
        None => None,
        Some((Err(e), at)) => Some((Err(ErrorView::Sqlite(e)), at)),
        Some((Ok(_), at)) => Some((Ok(()), at)),
    }
}

/// Deletes the project with this id.
pub fn delete_project(session: &mut Session, id: i64) -> (r: Result<(), Error>)
    ensures
        continues(final(session)@, old(session)@),
        delete_project_trace(final(session)@, old(session)@.len() as int, id) == Some(
            (result_view(r), final(session)@.len() as int),
        ),
{
    match session.run(Statement::DeleteProject, params1(Param::Integer(id))) {
        Ok(_) => Ok(()),
        Err(e) => Err(Error::Sqlite(e)),
    }
}

} // verus!
