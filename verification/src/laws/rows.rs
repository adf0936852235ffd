//! What the functions of [`crate::sqlite`] write to the tables and read from
//! them, column by column.

use vstd::prelude::*;

use crate::date::Date;
use crate::effects::{
    keeps_projects, lemma_broken_tasks, lemma_insert_task_row_effect, lemma_tasks_of_rows,
    lemma_update_task_row_effect, newest,
};
use crate::error::ErrorView;
use crate::laws::columns::{
    column_flags, column_holds, column_names, law_rows_are_read_by_columns, reads_columns,
};
use crate::model::{ProjectView, TaskView};
use crate::session::{Event, Transcript};
use crate::sql::{text_or_null, ParamView};
use crate::sqlite::{
    count_tasks_trace, filter_call, insert_task_row_trace, read_project_by_id_trace,
    read_project_by_name_trace, read_task_by_id_trace, read_tasks_filtered_trace,
    read_tasks_since_trace, task_row, update_task_row_trace, with_id, with_text, TaskRowView,
};
use crate::statement::Statement;
use crate::tables::{
    broken_off, faithful, follows, lists, no_failures, task_rows, tells_failure, History,
    TaskRecord, Tables,
};
use crate::text::text_before;

verus! {

// ------------------------------------------------------------------
// Writing
// ------------------------------------------------------------------

/// Whether a row of the table holds these columns.
pub open spec fn holds_row(w: Tables, stored: TaskRecord, row: TaskRowView) -> bool {
    &&& stored.title == row.title
    &&& stored.status == row.status
    &&& stored.source == row.source
    &&& column_names(w, stored.project_id, row.project)
    &&& column_holds(stored.due, row.due)
    &&& column_holds(stored.done_at, row.done_at)
    &&& stored.created == row.created.text()
    &&& stored.updated == row.updated.text()
    &&& column_flags(stored.important, row.important)
}

/// Whether the tables are those before but for one task, and for projects that
/// were added.
pub open spec fn only_task_differs(before: Tables, after: Tables, id: i64) -> bool {
    &&& after.tasks.remove(id) == before.tasks.remove(id)
    &&& after.reminds == before.reminds
    &&& after.state == before.state
    &&& keeps_projects(before, after)
}

/// A row that was inserted holds its columns, under the id that was given or one
/// that is greater than all others. No other row changed.
pub proof fn law_inserted_row_is_stored(
    t: Transcript,
    h: History,
    at: int,
    end: int,
    row: TaskRowView,
    explicit_id: Option<i64>,
    id: i64,
)
    requires
        faithful(t, h, at, end),
        insert_task_row_trace(t, at, row, explicit_id) == Some((Ok::<i64, ErrorView>(id), end)),
    ensures
        match explicit_id {
            Some(given) => id == given,
            None => id > 0 && newest(h[at].working, id),
        },
        !h[at].working.tasks.contains_key(id),
        h[end].working.tasks.contains_key(id),
        holds_row(h[end].working, h[end].working.tasks[id], row),
        only_task_differs(h[at].working, h[end].working, id),
{
    let project_id = lemma_insert_task_row_effect(t, h, at, row, explicit_id, id, end);
    assert(h[end].working.tasks.remove(id) =~= h[at].working.tasks.remove(id));
}

/// A row that was updated holds its new columns. No other row changed.
pub proof fn law_updated_row_is_stored(
    t: Transcript,
    h: History,
    at: int,
    end: int,
    id: i64,
    row: TaskRowView,
)
    requires
        faithful(t, h, at, end),
        h[at].working.tasks.contains_key(id),
        update_task_row_trace(t, at, id, row) == Some((Ok::<(), ErrorView>(()), end)),
    ensures
        h[end].working.tasks.contains_key(id),
        holds_row(h[end].working, h[end].working.tasks[id], row),
        only_task_differs(h[at].working, h[end].working, id),
{
    let project_id = lemma_update_task_row_effect(t, h, at, id, row, end);
    assert(h[end].working.tasks.remove(id) =~= h[at].working.tasks.remove(id));
}

/// The columns of a task are its fields, and its status by the word for it.
pub proof fn law_task_rows_hold_the_task(task: TaskView)
    ensures
        ({
            let row = task_row(task);
            &&& row.title == task.title
            &&& row.status == task.status.word()
            &&& row.source == task.source
            &&& row.project == task.project
            &&& row.due == task.due
            &&& row.done_at == task.done_at
            &&& row.created == task.created
            &&& row.updated == task.updated
            &&& row.important == task.important
        }),
{
}

// ------------------------------------------------------------------
// Reading
// ------------------------------------------------------------------

/// The tasks of the table for which each filter that is given holds on its own.
pub open spec fn filtered(
    w: Tables,
    status: Option<Seq<char>>,
    since: Option<Date>,
    project: Option<Seq<char>>,
) -> spec_fn(i64) -> bool {
    |id: i64|
        {
            &&& w.tasks.contains_key(id)
            &&& status matches Some(word) ==> w.tasks[id].status == word
            &&& since matches Some(day) ==> !text_before(w.tasks[id].updated, day.text())
            &&& project matches Some(name) ==> column_names(w, w.tasks[id].project_id, Some(name))
        }
}

/// Reading with filters gives the tasks of the table for which each of them
/// holds, in the order of their ids, up to the limit where there is one. Without
/// a limit a task is given exactly where every filter holds of it.
pub proof fn law_filters_hold_on_their_own(
    t: Transcript,
    h: History,
    at: int,
    end: int,
    status: Option<Seq<char>>,
    since: Option<Date>,
    project: Option<Seq<char>>,
    limit: Option<u32>,
    tasks: Seq<TaskView>,
) -> (ids: Seq<i64>)
    requires
        faithful(t, h, at, end),
        read_tasks_filtered_trace(t, at, status, since, project, limit) == Some(
            (Ok::<Seq<TaskView>, ErrorView>(tasks), end),
        ),
    ensures
        h[end] == h[at],
        lists(
            ids,
            filtered(h[at].working, status, since, project),
            match limit {
                Some(n) => n as int,
                None => -1,
            },
        ),
        limit is None ==> forall|id: i64| #[trigger]
            ids.contains(id) <==> filtered(h[at].working, status, since, project)(id),
        tasks.len() == ids.len(),
        forall|i: int|
            0 <= i < ids.len() ==> reads_columns(h[at].working, #[trigger] ids[i], tasks[i]),
{
    let w = h[at].working;
    let call = filter_call(status, since, project, limit);
    assert(follows(h[at], t[at], h[end]));
    let rows = match t[at] {
        Event::FetchedRows { call, rows: Ok(rows) } => rows,
        _ => arbitrary(),
    };
    if broken_off(rows) {
        lemma_broken_tasks(rows);
    }
    let n = match limit {
        Some(n) => n as int,
        None => -1,
    };
    assert(call.params[3] == ParamView::Integer(n as i64));
    let ids = choose|ids: Seq<i64>|
        rows == #[trigger] task_rows(w, ids) && lists(
            ids,
            |id: i64| w.passes(id, call.params),
            n,
        );
    lemma_tasks_of_rows(w, ids, tasks);
    assert forall|i: int| 0 <= i < ids.len() implies reads_columns(
        w,
        #[trigger] ids[i],
        tasks[i],
    ) by {
        law_rows_are_read_by_columns(w, ids[i]);
    }
    let keep = |id: i64| w.passes(id, call.params);
    let want = filtered(w, status, since, project);
    assert(call.params[0] == text_or_null(status));
    assert(call.params[2] == text_or_null(project));
    assert forall|id: i64| #[trigger] want(id) == keep(id) by {}
    assert forall|id: i64| limit is None implies (#[trigger] ids.contains(id) <==> want(id)) by {
        if ids.contains(id) {
            let i = choose|i: int| 0 <= i < ids.len() && ids[i] == id;
            assert(keep(ids[i]));
        }
    }
    ids
}

/// Reading the tasks behind a text gives those whose day of change comes behind
/// it, all of them, in the order of their ids.
pub proof fn law_tasks_behind_a_text(
    t: Transcript,
    h: History,
    at: int,
    end: int,
    since: Seq<char>,
    tasks: Seq<TaskView>,
) -> (ids: Seq<i64>)
    requires
        faithful(t, h, at, end),
        read_tasks_since_trace(t, at, since) == Some(
            (Ok::<Seq<TaskView>, ErrorView>(tasks), end),
        ),
    ensures
        h[end] == h[at],
        forall|i: int, j: int|
            0 <= i < j < ids.len() ==> (#[trigger] ids[i]) < (#[trigger] ids[j]),
        forall|id: i64| #[trigger]
            ids.contains(id) <==> h[at].working.tasks.contains_key(id) && text_before(
                since,
                h[at].working.tasks[id].updated,
            ),
        tasks.len() == ids.len(),
        forall|i: int|
            0 <= i < ids.len() ==> reads_columns(h[at].working, #[trigger] ids[i], tasks[i]),
{
    let w = h[at].working;
    let call = with_text(Statement::TasksUpdatedAfter, since);
    assert(call.params[0] == ParamView::Text(since));
    assert(follows(h[at], t[at], h[end]));
    let rows = match t[at] {
        Event::FetchedRows { call, rows: Ok(rows) } => rows,
        _ => arbitrary(),
    };
    if broken_off(rows) {
        lemma_broken_tasks(rows);
    }
    let ids = choose|ids: Seq<i64>|
        rows == #[trigger] task_rows(w, ids) && lists(ids, w.changed_after(since), -1);
    lemma_tasks_of_rows(w, ids, tasks);
    assert forall|i: int| 0 <= i < ids.len() implies reads_columns(
        w,
        #[trigger] ids[i],
        tasks[i],
    ) by {
        law_rows_are_read_by_columns(w, ids[i]);
    }
    assert forall|id: i64| #[trigger]
        ids.contains(id) <==> w.tasks.contains_key(id) && text_before(
            since,
            w.tasks[id].updated,
        ) by {
        if ids.contains(id) {
            let i = choose|i: int| 0 <= i < ids.len() && ids[i] == id;
            assert(w.changed_after(since)(ids[i]));
        }
        if w.tasks.contains_key(id) && text_before(since, w.tasks[id].updated) {
            assert(w.changed_after(since)(id));
        }
    }
    ids
}

/// A task is found by its id exactly where the table has it, with the columns of
/// its row.
pub proof fn law_task_is_found(
    t: Transcript,
    h: History,
    at: int,
    end: int,
    id: i64,
    found: Option<TaskView>,
)
    requires
        faithful(t, h, at, end),
        read_task_by_id_trace(t, at, id) == Some((Ok::<Option<TaskView>, ErrorView>(found), end)),
    ensures
        h[end] == h[at],
        found is Some <==> h[at].working.tasks.contains_key(id),
        found matches Some(task) ==> reads_columns(h[at].working, id, task),
{
    assert(with_id(Statement::TaskById, id).params[0] == ParamView::Integer(id));
    assert(follows(h[at], t[at], h[end]));
    law_rows_are_read_by_columns(h[at].working, id);
}

/// A project is found by its name exactly where the table has one with it, and by
/// its id exactly where the table has that. Where it is read, there is an answer,
/// unless the database fails.
pub proof fn law_project_is_found(
    t: Transcript,
    h: History,
    at: int,
    end: int,
    name: Seq<char>,
    id: i64,
    found: Result<Option<ProjectView>, ErrorView>,
)
    requires
        faithful(t, h, at, end),
        read_project_by_name_trace(t, at, name) == Some((found, end)) || read_project_by_id_trace(
            t,
            at,
            id,
        ) == Some((found, end)),
    ensures
        found is Ok ==> h[end] == h[at],
        no_failures(t, at, end) ==> found is Ok,
        found matches Ok(Some(project)) ==> h[at].working.projects.contains_key(project.id)
            && h[at].working.projects[project.id] == project.name,
        read_project_by_name_trace(t, at, name) == Some((found, end)) ==> match found {
            Ok(Some(project)) => project.name == name,
            Ok(None) => !h[at].working.names(name),
            Err(e) => e is Sqlite,
        },
        read_project_by_id_trace(t, at, id) == Some((found, end)) ==> match found {
            Ok(Some(project)) => project.id == id,
            Ok(None) => !h[at].working.projects.contains_key(id),
            Err(e) => e is Sqlite,
        },
{
    assert(with_text(Statement::ProjectByName, name).params[0] == ParamView::Text(name));
    assert(with_id(Statement::ProjectById, id).params[0] == ParamView::Integer(id));
    assert(follows(h[at], t[at], h[end]));
    if no_failures(t, at, end) {
        assert(!tells_failure(t[at]));
    }
}

/// The rows that the model of the tables gives have as many columns as the
/// statements that ask for them.
pub proof fn law_rows_have_the_columns(w: Tables, id: i64, n: usize)
    ensures
        w.task_row(id).len() == Statement::TaskById.columns(),
        w.task_row(id).len() == Statement::TasksFiltered.columns(),
        w.task_row(id).len() == Statement::TasksUpdatedAfter.columns(),
        w.project_row(id).len() == Statement::ListProjects.columns(),
        w.project_row(id).len() == Statement::ProjectById.columns(),
        w.project_row(id).len() == Statement::ProjectByName.columns(),
        Statement::RemindsOfTasks(n).columns() == 2,
        Statement::TaskUpdated.columns() == 1,
        Statement::ReadState.columns() == 1,
        Statement::CountProjectTasks.columns() == 1,
        Statement::ProjectIdByName.columns() == 1,
        Statement::Probe.columns() == 1,
{
}

/// The tasks of a project are counted.
pub proof fn law_tasks_are_counted(
    t: Transcript,
    h: History,
    at: int,
    end: int,
    id: i64,
    count: Result<i64, ErrorView>,
)
    requires
        faithful(t, h, at, end),
        count_tasks_trace(t, at, id) == Some((count, end)),
    ensures
        match count {
            Ok(n) => h[end] == h[at] && n == h[at].working.tasks_of_project(id).len(),
            Err(e) => e is Sqlite,
        },
        no_failures(t, at, end) ==> count is Ok,
{
    assert(with_id(Statement::CountProjectTasks, id).params[0] == ParamView::Integer(id));
    assert(follows(h[at], t[at], h[end]));
    if no_failures(t, at, end) {
        assert(!tells_failure(t[at]));
    }
}

} // verus!
