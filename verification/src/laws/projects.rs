//! What requests for projects do, and what every request keeps of them.

use vstd::prelude::*;

use crate::effects::{
    lemma_broken_projects, lemma_project_rows_succeed, lemma_projects_of_rows,
    lemma_resolve_project_effect, lemma_settle_succeeds, references_hold,
};
use crate::error::ErrorView;
use crate::http::projects;
use crate::http::transaction::{begin_trace, settle_trace};
use crate::json::Json;
use crate::laws::failures::{
    answers_error, law_failed_deletion_changes_nothing, left_alone, lemma_settle,
    lemma_settle_ends_later,
};
use crate::laws::requests::{law_names_are_read, sends_name};
use crate::model::{ProjectListView, ProjectResponseView, ProjectView};
use crate::session::{Event, Transcript};
use crate::sql::{FailureView, ParamView};
use crate::sqlite::{rename_call, resolve_project_trace, with_id, with_text};
use crate::statement::Statement;
use crate::tables::{
    broken_off, faithful, follows, integer_param, lemma_settled, lists, no_failures, project_rows,
    tells_failure, text_param, Database, History, Tables,
};
use crate::text::decimal_int;

verus! {

/// A project that was created has the name in the body and an id that is
/// positive and greater than those of the other projects. Nothing else changed.
pub proof fn law_created_project_is_stored(
    t: Transcript,
    h: History,
    at: int,
    end: int,
    body: Json,
    created: ProjectResponseView,
)
    requires
        faithful(t, h, at, end),
        !h[at].open,
        projects::create_project_trace(t, at, body) == Some(
            (Ok::<ProjectResponseView, ErrorView>(created), end),
        ),
    ensures
        projects::name_in(body) == Ok::<Seq<char>, ErrorView>(created.project.name),
        sends_name(body, created.project.name),
        t[end - 1] == (Event::Clock { now: created.server_time }),
        !h[at].working.names(created.project.name),
        created.project.id > 0,
        forall|id: i64| #[trigger]
            h[at].working.projects.contains_key(id) ==> id < created.project.id,
        h[end].committed == (Tables {
            projects: h[at].working.projects.insert(created.project.id, created.project.name),
            ..h[at].working
        }),
        h[end].working == h[end].committed,
        !h[end].open,
{
    let name = projects::name_in(body)->Ok_0;
    law_names_are_read(body, name);
    let (outcome, worked) = projects::create_in_transaction_trace(t, at + 1, name)->0;
    lemma_settle_ends_later(t, worked, outcome);
    assert(follows(h[at], t[at], h[at + 1]));
    assert(follows(h[at + 1], t[at + 1], h[at + 2]));
    assert(follows(h[at + 2], t[at + 2], h[at + 3]));
    assert(follows(h[at + 3], t[at + 3], h[at + 4]));
    assert(follows(h[at + 4], t[at + 4], h[at + 5]));
    assert(with_text(Statement::InsertProject, name).params[0] == ParamView::Text(name));
    assert(with_text(Statement::ProjectByName, name).params[0] == ParamView::Text(name));
    let id = h[at + 3].last_id;
    assert(with_id(Statement::ProjectById, id).params[0] == ParamView::Integer(id));
    lemma_settle(t, h, worked, end, outcome);
}

/// The list of projects is given, unless the database fails.
pub proof fn law_project_list_is_given(
    t: Transcript,
    h: History,
    at: int,
    end: int,
    list: Result<ProjectListView, ErrorView>,
)
    requires
        faithful(t, h, at, end),
        no_failures(t, at, end),
        projects::list_projects_trace(t, at) == Some((list, end)),
    ensures
        list is Ok,
{
    let w = h[at].working;
    assert(follows(h[at], t[at], h[at + 1]));
    assert(!tells_failure(t[at]));
    let rows = match t[at] {
        Event::FetchedRows { call, rows: Ok(rows) } => rows,
        _ => arbitrary(),
    };
    let ids = choose|ids: Seq<i64>|
        rows == #[trigger] project_rows(w, ids) && lists(
            ids,
            |id: i64| w.projects.contains_key(id),
            -1,
        );
    lemma_project_rows_succeed(w, ids);
}

/// A project that was renamed has the name in the body, which no other project
/// has. Nothing else changed.
pub proof fn law_renamed_project_is_stored(
    t: Transcript,
    h: History,
    at: int,
    end: int,
    id: i64,
    body: Json,
    renamed: ProjectResponseView,
)
    requires
        faithful(t, h, at, end),
        !h[at].open,
        projects::update_project_trace(t, at, id, body) == Some(
            (Ok::<ProjectResponseView, ErrorView>(renamed), end),
        ),
    ensures
        projects::name_in(body) == Ok::<Seq<char>, ErrorView>(renamed.project.name),
        sends_name(body, renamed.project.name),
        t[end - 1] == (Event::Clock { now: renamed.server_time }),
        renamed.project.id == id,
        h[at].working.projects.contains_key(id),
        h[at].working.projects[id] != renamed.project.name ==> !h[at].working.names(
            renamed.project.name,
        ),
        h[end].committed == (Tables {
            projects: h[at].working.projects.insert(id, renamed.project.name),
            ..h[at].working
        }),
        h[end].working == h[end].committed,
        !h[end].open,
{
    let name = projects::name_in(body)->Ok_0;
    law_names_are_read(body, name);
    let (outcome, worked) = projects::update_in_transaction_trace(t, at + 1, id, name)->0;
    lemma_settle_ends_later(t, worked, outcome);
    assert(follows(h[at], t[at], h[at + 1]));
    assert(follows(h[at + 1], t[at + 1], h[at + 2]));
    assert(with_id(Statement::ProjectById, id).params[0] == ParamView::Integer(id));
    assert(with_text(Statement::ProjectByName, name).params[0] == ParamView::Text(name));
    let w = h[at].working;
    assert(w.projects.contains_key(id));
    if w.projects[id] == name {
        assert(w.projects.insert(id, name) =~= w.projects);
    } else {
        assert(follows(h[at + 2], t[at + 2], h[at + 3]));
        assert(follows(h[at + 3], t[at + 3], h[at + 4]));
        assert(follows(h[at + 4], t[at + 4], h[at + 5]));
        let call = rename_call(id, name);
        assert(call.params[0] == ParamView::Text(name));
        assert(call.params[1] == ParamView::Integer(id));
    }
    lemma_settle(t, h, worked, end, outcome);
}

/// A project that was deleted had no tasks. Nothing else changed.
pub proof fn law_deleted_project_had_no_tasks(
    t: Transcript,
    h: History,
    at: int,
    end: int,
    id: i64,
)
    requires
        faithful(t, h, at, end),
        !h[at].open,
        projects::delete_project_request_trace(t, at, id) == Some((Ok::<(), ErrorView>(()), end)),
    ensures
        h[at].working.projects.contains_key(id),
        h[at].working.tasks_of_project(id).len() == 0,
        h[end].committed == (Tables {
            projects: h[at].working.projects.remove(id),
            ..h[at].working
        }),
        h[end].working == h[end].committed,
        !h[end].open,
{
    let (outcome, worked) = projects::delete_in_transaction_trace(t, at + 1, id)->0;
    lemma_settle_ends_later(t, worked, outcome);
    assert(follows(h[at], t[at], h[at + 1]));
    assert(follows(h[at + 1], t[at + 1], h[at + 2]));
    assert(follows(h[at + 2], t[at + 2], h[at + 3]));
    assert(follows(h[at + 3], t[at + 3], h[at + 4]));
    assert(with_id(Statement::ProjectById, id).params[0] == ParamView::Integer(id));
    assert(with_id(Statement::CountProjectTasks, id).params[0] == ParamView::Integer(id));
    assert(with_id(Statement::DeleteProject, id).params[0] == ParamView::Integer(id));
    lemma_settle(t, h, worked, end, outcome);
}

/// A project that has tasks is not deleted. Where the project exists, the answer
/// is a conflict that gives their number, unless the database fails.
pub proof fn law_projects_with_tasks_stay(
    t: Transcript,
    h: History,
    at: int,
    end: int,
    id: i64,
    outcome: Result<(), ErrorView>,
)
    requires
        faithful(t, h, at, end),
        !h[at].open,
        projects::delete_project_request_trace(t, at, id) == Some((outcome, end)),
        h[at].working.tasks_of_project(id).len() > 0,
    ensures
        outcome is Err,
        left_alone(h[at], h[end]),
        h[at].working.projects.contains_key(id) ==> answers_error(
            t,
            at,
            end,
            outcome,
            ErrorView::Conflict(
                "project has "@ + decimal_int(h[at].working.tasks_of_project(id).len() as int)
                    + " tasks"@,
            ),
        ),
{
    if outcome is Ok {
        law_deleted_project_had_no_tasks(t, h, at, end, id);
    } else {
        law_failed_deletion_changes_nothing(t, h, at, end, id, outcome->Err_0);
        if let Some((Ok(_), begun)) = begin_trace(t, at) {
            let (worked, done) = projects::delete_in_transaction_trace(t, begun, id)->0;
            lemma_settle_ends_later(t, done, worked);
            assert(follows(h[at], t[at], h[at + 1]));
            assert(follows(h[at + 1], t[at + 1], h[at + 2]));
            assert(with_id(Statement::ProjectById, id).params[0] == ParamView::Integer(id));
            assert(with_id(Statement::CountProjectTasks, id).params[0] == ParamView::Integer(id));
            if done > at + 2 {
                assert(follows(h[at + 2], t[at + 2], h[at + 3]));
            }
        }
    }
}

/// A project that violates a constraint is answered with a conflict, since the
/// only constraint is that of the name. Any other failure is answered as it is.
pub proof fn law_constraints_are_conflicts(error: ErrorView)
    ensures
        match error {
            ErrorView::Sqlite(FailureView::Constraint(_)) => projects::name_conflict(error)
                == ErrorView::Conflict("project name already exists"@),
            _ => projects::name_conflict(error) == error,
        },
{
}

/// No two projects have one name.
pub open spec fn unique_names(w: Tables) -> bool {
    forall|a: i64, b: i64| #[trigger]
        w.projects.contains_key(a) && #[trigger] w.projects.contains_key(b) && w.projects[a]
            == w.projects[b] ==> a == b
}

/// Whatever the library asks of the database, no two projects have one name.
pub proof fn law_names_stay_unique(t: Transcript, h: History, from: int, to: int, at: int)
    requires
        faithful(t, h, from, to),
        unique_names(h[from].working),
        unique_names(h[from].committed),
        from <= at <= to,
    ensures
        unique_names(h[at].working),
        unique_names(h[at].committed),
    decreases at - from,
{
    if from < at {
        law_names_stay_unique(t, h, from, to, at - 1);
        assert(follows(h[at - 1], t[at - 1], h[at]));
        lemma_step_keeps_names_unique(h[at - 1], t[at - 1], h[at]);
    }
}

proof fn lemma_step_keeps_names_unique(db: Database, event: Event, after: Database)
    requires
        follows(db, event, after),
        unique_names(db.working),
        unique_names(db.committed),
    ensures
        unique_names(after.working),
        unique_names(after.committed),
{
    let w = db.working;
    if let Event::Ran { call, outcome: Ok(_) } = event {
        let name = text_param(call.params, 0);
        let id = match call.statement {
            Statement::RenameProject => integer_param(call.params, 1),
            _ => after.last_id,
        };
        match call.statement {
            Statement::AddProjectIfMissing
            | Statement::InsertProject
            | Statement::RenameProject => {
                if after != db {
                    let projects = w.projects.insert(id, name);
                    assert forall|a: i64, b: i64| #[trigger]
                        projects.contains_key(a) && #[trigger] projects.contains_key(b)
                            && projects[a] == projects[b] implies a == b by {
                        assert(a != id ==> w.projects.contains_key(a));
                        assert(b != id ==> w.projects.contains_key(b));
                    }
                    assert(after.working.projects == projects);
                }
            },
            Statement::DeleteProject => {
                let gone = integer_param(call.params, 0);
                let projects = w.projects.remove(gone);
                assert forall|a: i64, b: i64| #[trigger]
                    projects.contains_key(a) && #[trigger] projects.contains_key(b) && projects[a]
                        == projects[b] implies a == b by {
                    assert(w.projects.contains_key(a) && w.projects.contains_key(b));
                }
                assert(after.working.projects == projects);
            },
            _ => {},
        }
    }
}

/// Asking for the project with a name twice gives the same project, and the
/// second time changes nothing.
pub proof fn law_resolving_twice_gives_one_project(
    t: Transcript,
    h: History,
    at: int,
    mid: int,
    end: int,
    name: Seq<char>,
    first: i64,
    second: i64,
)
    requires
        faithful(t, h, at, end),
        unique_names(h[at].working),
        unique_names(h[at].committed),
        resolve_project_trace(t, at, name) == Some((Ok::<i64, ErrorView>(first), mid)),
        resolve_project_trace(t, mid, name) == Some((Ok::<i64, ErrorView>(second), end)),
    ensures
        first == second,
        h[end] == h[mid],
        h[end].working.projects.contains_key(first),
        h[end].working.projects[first] == name,
{
    lemma_settled(t, h, at, end, mid);
    lemma_resolve_project_effect(t, h, at, name, first, mid);
    lemma_resolve_project_effect(t, h, mid, name, second, end);
    law_names_stay_unique(t, h, at, end, mid);
}

/// Deleting a project leaves no task with a project that does not exist.
pub proof fn law_deletion_keeps_references(t: Transcript, h: History, at: int, end: int, id: i64)
    requires
        faithful(t, h, at, end),
        !h[at].open,
        references_hold(h[at].working),
        h[at].working.tasks.dom().finite(),
        projects::delete_project_request_trace(t, at, id) == Some((Ok::<(), ErrorView>(()), end)),
    ensures
        references_hold(h[end].committed),
{
    law_deleted_project_had_no_tasks(t, h, at, end, id);
    let w = h[at].working;
    let after = h[end].committed;
    let found = w.tasks_of_project(id);
    assert(found.finite());
    assert forall|task: i64, p: i64|
        #![trigger after.tasks.contains_key(task), after.projects.contains_key(p)]
        after.tasks.contains_key(task) && after.tasks[task].project_id == Some(p) implies
        after.projects.contains_key(p) by {
        assert(w.tasks.contains_key(task));
        assert(w.projects.contains_key(p));
        if p == id {
            assert(found.contains(task));
            assert(found.len() > 0);
        }
    }
}

/// The list of projects holds every project of the table, in the order of the
/// ids.
pub proof fn law_project_list_is_what_the_table_holds(
    t: Transcript,
    h: History,
    at: int,
    end: int,
    list: ProjectListView,
) -> (ids: Seq<i64>)
    requires
        faithful(t, h, at, end),
        projects::list_projects_trace(t, at) == Some(
            (Ok::<ProjectListView, ErrorView>(list), end),
        ),
    ensures
        h[end] == h[at],
        lists(ids, |id: i64| h[at].working.projects.contains_key(id), -1),
        t[end - 1] == (Event::Clock { now: list.server_time }),
        list.projects.len() == ids.len(),
        forall|i: int|
            0 <= i < ids.len() ==> list.projects[i] == (ProjectView {
                id: #[trigger] ids[i],
                name: h[at].working.projects[ids[i]],
            }),
{
    let w = h[at].working;
    assert(follows(h[at], t[at], h[at + 1]));
    assert(follows(h[at + 1], t[at + 1], h[at + 2]));
    let rows = match t[at] {
        Event::FetchedRows { call, rows: Ok(rows) } => rows,
        _ => arbitrary(),
    };
    if broken_off(rows) {
        lemma_broken_projects(rows);
    }
    let ids = choose|ids: Seq<i64>|
        rows == #[trigger] project_rows(w, ids) && lists(
            ids,
            |id: i64| w.projects.contains_key(id),
            -1,
        );
    lemma_projects_of_rows(w, ids, list.projects);
    ids
}

/// A request to rename or delete a project that does not exist is answered
/// that it is not found, unless the database fails.
pub proof fn law_missing_projects_are_not_found(
    t: Transcript,
    h: History,
    at: int,
    end: int,
    id: i64,
    body: Json,
    renamed: Result<ProjectResponseView, ErrorView>,
    deleted: Result<(), ErrorView>,
)
    requires
        faithful(t, h, at, end),
        !h[at].open,
        !h[at].working.projects.contains_key(id),
    ensures
        projects::update_project_trace(t, at, id, body) == Some((renamed, end))
            && projects::name_in(body) is Ok ==> answers_error(
            t,
            at,
            end,
            renamed,
            ErrorView::NotFound,
        ),
        projects::delete_project_request_trace(t, at, id) == Some((deleted, end))
            ==> answers_error(t, at, end, deleted, ErrorView::NotFound),
{
    assert(with_id(Statement::ProjectById, id).params[0] == ParamView::Integer(id));
    if let Some((Ok(_), begun)) = begin_trace(t, at) {
        if projects::update_project_trace(t, at, id, body) == Some((renamed, end))
            && projects::name_in(body) is Ok {
            let name = projects::name_in(body)->Ok_0;
            let (outcome, worked) = projects::update_in_transaction_trace(t, begun, id, name)->0;
            lemma_settle_ends_later(t, worked, outcome);
            assert(follows(h[at], t[at], h[begun]));
            assert(follows(h[begun], t[begun], h[begun + 1]));
        }
        if projects::delete_project_request_trace(t, at, id) == Some((deleted, end)) {
            let (outcome, worked) = projects::delete_in_transaction_trace(t, begun, id)->0;
            lemma_settle_ends_later(t, worked, outcome);
            assert(follows(h[at], t[at], h[begun]));
            assert(follows(h[begun], t[begun], h[begun + 1]));
        }
    }
}

/// A request to create a project under a name that is taken, or to rename one
/// to the name of another, is answered that there is a conflict, unless the
/// database fails.
pub proof fn law_taken_names_are_conflicts(
    t: Transcript,
    h: History,
    at: int,
    end: int,
    id: i64,
    body: Json,
    name: Seq<char>,
    created: Result<ProjectResponseView, ErrorView>,
    renamed: Result<ProjectResponseView, ErrorView>,
)
    requires
        faithful(t, h, at, end),
        !h[at].open,
        projects::name_in(body) == Ok::<Seq<char>, ErrorView>(name),
        h[at].working.names(name),
    ensures
        projects::create_project_trace(t, at, body) == Some((created, end))
            ==> answers_error(
            t,
            at,
            end,
            created,
            ErrorView::Conflict("project name already exists"@),
        ),
        projects::update_project_trace(t, at, id, body) == Some((renamed, end))
            && h[at].working.projects.contains_key(id) && h[at].working.projects[id] != name
            ==> answers_error(
            t,
            at,
            end,
            renamed,
            ErrorView::Conflict("project name already exists"@),
        ),
{
    assert(with_id(Statement::ProjectById, id).params[0] == ParamView::Integer(id));
    assert(with_text(Statement::ProjectByName, name).params[0] == ParamView::Text(name));
    if let Some((Ok(_), begun)) = begin_trace(t, at) {
        if projects::create_project_trace(t, at, body) == Some((created, end)) {
            let (outcome, worked) = projects::create_in_transaction_trace(t, begun, name)->0;
            lemma_settle_ends_later(t, worked, outcome);
            assert(follows(h[at], t[at], h[begun]));
            assert(follows(h[begun], t[begun], h[begun + 1]));
        }
        if projects::update_project_trace(t, at, id, body) == Some((renamed, end))
            && h[at].working.projects.contains_key(id) && h[at].working.projects[id] != name {
            let (outcome, worked) = projects::update_in_transaction_trace(t, begun, id, name)->0;
            lemma_settle_ends_later(t, worked, outcome);
            assert(follows(h[at], t[at], h[begun]));
            assert(follows(h[begun], t[begun], h[begun + 1]));
            if worked > begun + 1 {
                assert(follows(h[begun + 1], t[begun + 1], h[begun + 2]));
            }
        }
    }
}

// ------------------------------------------------------------------
// Success
// ------------------------------------------------------------------

/// A request to create a project under a name that is free creates it, unless
/// the database fails.
pub proof fn law_project_creation_succeeds(
    t: Transcript,
    h: History,
    at: int,
    end: int,
    body: Json,
    name: Seq<char>,
    created: Result<ProjectResponseView, ErrorView>,
)
    requires
        faithful(t, h, at, end),
        !h[at].open,
        no_failures(t, at, end),
        projects::name_in(body) == Ok::<Seq<char>, ErrorView>(name),
        !h[at].working.names(name),
        projects::create_project_trace(t, at, body) == Some((created, end)),
    ensures
        created is Ok,
{
    assert(!tells_failure(t[at]));
    let begun = at + 1;
    let (outcome, worked) = projects::create_in_transaction_trace(t, begun, name)->0;
    let (settled, done) = settle_trace(t, worked, outcome)->0;
    lemma_settle_ends_later(t, worked, outcome);
    assert(with_text(Statement::ProjectByName, name).params[0] == ParamView::Text(name));
    assert(with_text(Statement::InsertProject, name).params[0] == ParamView::Text(name));
    assert(follows(h[at], t[at], h[begun]));
    assert(follows(h[begun], t[begun], h[begun + 1]));
    assert(!tells_failure(t[begun]));
    assert(follows(h[begun + 1], t[begun + 1], h[begun + 2]));
    assert(!tells_failure(t[begun + 1]));
    assert(follows(h[begun + 2], t[begun + 2], h[begun + 3]));
    let id = h[begun + 2].last_id;
    assert(with_id(Statement::ProjectById, id).params[0] == ParamView::Integer(id));
    assert(follows(h[begun + 3], t[begun + 3], h[begun + 4]));
    assert(!tells_failure(t[begun + 3]));
    lemma_settle_succeeds(t, worked, outcome, settled, done);
}

/// A request to rename a project that exists to a name that is its own or free
/// renames it, unless the database fails.
pub proof fn law_rename_succeeds(
    t: Transcript,
    h: History,
    at: int,
    end: int,
    id: i64,
    body: Json,
    name: Seq<char>,
    renamed: Result<ProjectResponseView, ErrorView>,
)
    requires
        faithful(t, h, at, end),
        !h[at].open,
        no_failures(t, at, end),
        projects::name_in(body) == Ok::<Seq<char>, ErrorView>(name),
        h[at].working.projects.contains_key(id),
        h[at].working.projects[id] == name || !h[at].working.names(name),
        projects::update_project_trace(t, at, id, body) == Some((renamed, end)),
    ensures
        renamed is Ok,
{
    assert(!tells_failure(t[at]));
    let begun = at + 1;
    let (outcome, worked) = projects::update_in_transaction_trace(t, begun, id, name)->0;
    let (settled, done) = settle_trace(t, worked, outcome)->0;
    lemma_settle_ends_later(t, worked, outcome);
    let w = h[at].working;
    assert(with_id(Statement::ProjectById, id).params[0] == ParamView::Integer(id));
    assert(with_text(Statement::ProjectByName, name).params[0] == ParamView::Text(name));
    let call = rename_call(id, name);
    assert(call.params[0] == ParamView::Text(name));
    assert(call.params[1] == ParamView::Integer(id));
    assert(follows(h[at], t[at], h[begun]));
    assert(follows(h[begun], t[begun], h[begun + 1]));
    assert(!tells_failure(t[begun]));
    if w.projects[id] != name {
        assert(follows(h[begun + 1], t[begun + 1], h[begun + 2]));
        assert(!tells_failure(t[begun + 1]));
        assert(follows(h[begun + 2], t[begun + 2], h[begun + 3]));
        assert(!tells_failure(t[begun + 2]));
        assert(follows(h[begun + 3], t[begun + 3], h[begun + 4]));
        assert(!tells_failure(t[begun + 3]));
    }
    lemma_settle_succeeds(t, worked, outcome, settled, done);
}

/// A request to delete a project that exists and has no tasks deletes it, unless
/// the database fails.
pub proof fn law_deletion_succeeds(
    t: Transcript,
    h: History,
    at: int,
    end: int,
    id: i64,
    deleted: Result<(), ErrorView>,
)
    requires
        faithful(t, h, at, end),
        !h[at].open,
        no_failures(t, at, end),
        h[at].working.projects.contains_key(id),
        h[at].working.tasks_of_project(id).len() == 0,
        projects::delete_project_request_trace(t, at, id) == Some((deleted, end)),
    ensures
        deleted is Ok,
{
    assert(!tells_failure(t[at]));
    let begun = at + 1;
    let (outcome, worked) = projects::delete_in_transaction_trace(t, begun, id)->0;
    lemma_settle_ends_later(t, worked, outcome);
    assert(with_id(Statement::ProjectById, id).params[0] == ParamView::Integer(id));
    assert(with_id(Statement::CountProjectTasks, id).params[0] == ParamView::Integer(id));
    assert(follows(h[at], t[at], h[begun]));
    assert(follows(h[begun], t[begun], h[begun + 1]));
    assert(!tells_failure(t[begun]));
    assert(follows(h[begun + 1], t[begun + 1], h[begun + 2]));
    assert(!tells_failure(t[begun + 1]));
    assert(!tells_failure(t[begun + 2]));
    lemma_settle_succeeds(t, worked, outcome, deleted, end);
}

} // verus!
