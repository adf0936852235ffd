//! The handlers of `/api/projects`.

use vstd::prelude::*;

use crate::error::{Error, ErrorView};
use crate::http::transaction::{
    answer_view, begin, begin_trace, lemma_settle_kept, outcome_view, settle, settle_trace,
};
use crate::json::{field, Json};
use crate::model::{
    Project, ProjectListResponse, ProjectListView, ProjectResponse, ProjectResponseView,
    ProjectView,
};
use crate::session::{clock_read, continues, group_transcript, Session, Trace, Transcript};
use crate::sql::{result_view, FailureView, SqlFailure};
use crate::sqlite;
use crate::sqlite::{
    count_tasks_trace, delete_project_trace, insert_project_trace, read_project_by_id_trace,
    read_project_by_name_trace, read_projects_trace, update_project_name_trace,
};
use crate::text::{debug_text, decimal_int, join, join3, print_i64, quoted, str_eq, trim, trimmed};

verus! {

broadcast use group_transcript;

/// The greatest number of characters in the name of a project.
pub const MAX_NAME_LEN: usize = 200;

// ------------------------------------------------------------------
// GET /api/projects
// ------------------------------------------------------------------

/// The run of [`list_projects`].
pub open spec fn list_projects_trace(t: Transcript, at: int) -> Trace<ProjectListView> {
    match read_projects_trace(t, at) {
        None => None,
        Some((Err(e), at)) => Some((Err(e), at)),
        Some((Ok(projects), at)) => match clock_read(t, at) {
            None => None,
            Some((now, at)) => Some((Ok(ProjectListView { projects, server_time: now }), at)),
        },
    }
}

/// Lists all projects, in the order of their ids.
pub fn list_projects(session: &mut Session) -> (r: Result<ProjectListResponse, Error>)
    ensures
        continues(final(session)@, old(session)@),
        list_projects_trace(final(session)@, old(session)@.len() as int) == Some(
            (result_view(r), final(session)@.len() as int),
        ),
{
    match sqlite::read_projects(session) {
        Ok(projects) => {
            let now = session.now();
            Ok(ProjectListResponse { projects, server_time: now })
        },
        Err(e) => Err(e),
    }
}

// ------------------------------------------------------------------
// The name in a body
// ------------------------------------------------------------------

/// The first key other than `name`.
pub open spec fn other_key(members: Seq<(String, Json)>) -> Option<Seq<char>>
    decreases members.len(),
{
    if members.len() == 0 {
        None
    } else if members[0].0@ != "name"@ {
        Some(members[0].0@)
    } else {
        other_key(members.skip(1))
    }
}

/// The name in a body: the text of the only member `name`, without the white
/// space around it, of 1 to [`MAX_NAME_LEN`] characters.
pub open spec fn name_in(body: Json) -> Result<Seq<char>, ErrorView> {
    match body {
        Json::Object(members) => match other_key(members@) {
            Some(key) => Err(ErrorView::BadRequest("unknown field: "@ + debug_text(key))),
            None => match field(body, "name"@) {
                None => Err(ErrorView::BadRequest("name is required"@)),
                Some(Json::Text(raw)) => if trimmed(raw@).len() == 0 {
                    Err(ErrorView::BadRequest("name must not be empty"@))
                } else if trimmed(raw@).len() > MAX_NAME_LEN {
                    Err(ErrorView::BadRequest("name must be at most 200 characters"@))
                } else {
                    Ok(trimmed(raw@))
                },
                Some(_) => Err(ErrorView::BadRequest("name must be a string"@)),
            },
        },
        _ => Err(ErrorView::BadRequest("body must be a JSON object"@)),
    }
}

/// Reads the name in a body.
pub fn parse_name_from_body(body: &Json) -> (r: Result<String, Error>)
    ensures
        result_view(r) == name_in(*body),
{
    let members = match body {
        Json::Object(members) => members,
        _ => return Err(Error::BadRequest("body must be a JSON object".to_owned())),
    };
    let mut i: usize = 0;
    assert(members@.skip(0) =~= members@);
    while i < members.len()
        invariant
            i <= members.len(),
            *body == Json::Object(*members),
            other_key(members@) == other_key(members@.skip(i as int)),
        decreases members.len() - i,
    {
        assert(members@.skip(i as int).skip(1) =~= members@.skip(i + 1));
        if !str_eq(members[i].0.as_str(), "name") {
            return Err(
                Error::BadRequest(
                    join("unknown field: ", quoted(members[i].0.as_str()).as_str()),
                ),
            );
        }
        i = i + 1;
    }
    let raw = match body.get("name") {
        None => return Err(Error::BadRequest("name is required".to_owned())),
        Some(Json::Text(raw)) => raw,
        Some(_) => return Err(Error::BadRequest("name must be a string".to_owned())),
    };
    let name = trim(raw.as_str());
    let length: usize = name.unicode_len();
    if length == 0 {
        return Err(Error::BadRequest("name must not be empty".to_owned()));
    }
    if length > MAX_NAME_LEN {
        return Err(Error::BadRequest("name must be at most 200 characters".to_owned()));
    }
    Ok(name.to_owned())
}

/// A constraint that a project violates is that of its name.
pub open spec fn name_conflict(e: ErrorView) -> ErrorView {
    match e {
        ErrorView::Sqlite(FailureView::Constraint(_)) => ErrorView::Conflict(
            "project name already exists"@,
        ),
        _ => e,
    }
}

fn map_unique_to_conflict(e: Error) -> (r: Error)
    ensures
        r@ == name_conflict(e@),
{
    match e {
        Error::Sqlite(SqlFailure::Constraint(_)) => Error::Conflict(
            "project name already exists".to_owned(),
        ),
        _ => e,
    }
}

// ------------------------------------------------------------------
// Answers
// ------------------------------------------------------------------

/// The answer for a project, at the time that the clock shows.
pub open spec fn respond_trace(
    t: Transcript,
    at: int,
    outcome: Result<ProjectView, ErrorView>,
) -> Trace<ProjectResponseView> {
    match outcome {
        Err(e) => Some((Err(e), at)),
        Ok(project) => match clock_read(t, at) {
            None => None,
            Some((now, at)) => Some((Ok(ProjectResponseView { project, server_time: now }), at)),
        },
    }
}

fn respond(session: &mut Session, outcome: Result<Project, Error>) -> (r: Result<
    ProjectResponse,
    Error,
>)
    ensures
        continues(final(session)@, old(session)@),
        respond_trace(final(session)@, old(session)@.len() as int, result_view(outcome)) == Some(
            (result_view(r), final(session)@.len() as int),
        ),
{
    match outcome {
        Ok(project) => {
            let now = session.now();
            Ok(ProjectResponse { project, server_time: now })
        },
        Err(e) => Err(e),
    }
}

fn settle_project(session: &mut Session, outcome: Result<Project, Error>) -> (r: Result<
    Project,
    Error,
>)
    ensures
        continues(final(session)@, old(session)@),
        settle_trace(final(session)@, old(session)@.len() as int, result_view(outcome)) == Some(
            (result_view(r), final(session)@.len() as int),
        ),
{
    settle(session, outcome)
}

/// The run of [`read_back`].
pub open spec fn read_back_trace(t: Transcript, at: int, id: i64, missing: ErrorView) -> Trace<
    ProjectView,
> {
    match read_project_by_id_trace(t, at, id) {
        None => None,
        Some((Err(e), at)) => Some((Err(e), at)),
        Some((Ok(None), at)) => Some((Err(missing), at)),
        Some((Ok(Some(project)), at)) => Some((Ok(project), at)),
    }
}

/// Reads a project. `missing` is the error where there is no such project.
fn read_back(session: &mut Session, id: i64, missing: Error) -> (r: Result<Project, Error>)
    ensures
        continues(final(session)@, old(session)@),
        read_back_trace(final(session)@, old(session)@.len() as int, id, missing@) == Some(
            (result_view(r), final(session)@.len() as int),
        ),
{
    match sqlite::read_project_by_id(session, id) {
        Ok(Some(project)) => Ok(project),
        Ok(None) => Err(missing),
        Err(e) => Err(e),
    }
}

// ------------------------------------------------------------------
// POST /api/projects
// ------------------------------------------------------------------

/// The run of [`create_in_transaction`].
pub open spec fn create_in_transaction_trace(t: Transcript, at: int, name: Seq<char>) -> Trace<
    ProjectView,
> {
    match read_project_by_name_trace(t, at, name) {
        None => None,
        Some((Err(e), at)) => Some((Err(e), at)),
        Some((Ok(Some(_)), at)) => Some(
            (Err(ErrorView::Conflict("project name already exists"@)), at),
        ),
        Some((Ok(None), at)) => match insert_project_trace(t, at, name) {
            None => None,
            Some((Err(e), at)) => Some((Err(name_conflict(e)), at)),
            Some((Ok(project), at)) => read_back_trace(
                t,
                at,
                project.id,
                ErrorView::Config("just-inserted project disappeared from SQLite"@),
            ),
        },
    }
}

pub broadcast proof fn lemma_create_in_transaction_kept(
    later: Transcript,
    earlier: Transcript,
    at: int,
    name: Seq<char>,
)
    requires
        #[trigger] continues(later, earlier),
        (#[trigger] create_in_transaction_trace(earlier, at, name)) is Some,
    ensures
        create_in_transaction_trace(later, at, name) == create_in_transaction_trace(
            earlier,
            at,
            name,
        ),
{
}

/// Inserts a project whose name is not taken, and reads it back.
fn create_in_transaction(session: &mut Session, name: &str) -> (r: Result<Project, Error>)
    ensures
        continues(final(session)@, old(session)@),
        create_in_transaction_trace(final(session)@, old(session)@.len() as int, name@) == Some(
            (result_view(r), final(session)@.len() as int),
        ),
{
    match sqlite::read_project_by_name(session, name) {
        Ok(None) => {},
        Ok(Some(_)) => return Err(Error::Conflict("project name already exists".to_owned())),
        Err(e) => return Err(e),
    }
    let project = match sqlite::insert_project(session, name) {
        Ok(project) => project,
        Err(e) => return Err(map_unique_to_conflict(e)),
    };
    read_back(
        session,
        project.id,
        Error::Config("just-inserted project disappeared from SQLite".to_owned()),
    )
}

/// The run of [`create_project`].
pub open spec fn create_project_trace(t: Transcript, at: int, body: Json) -> Trace<
    ProjectResponseView,
> {
    match name_in(body) {
        Err(e) => Some((Err(e), at)),
        Ok(name) => match begin_trace(t, at) {
            None => None,
            Some((Err(e), at)) => Some((Err(e), at)),
            Some((Ok(_), at)) => match create_in_transaction_trace(t, at, name) {
                None => None,
                Some((outcome, at)) => match settle_trace(t, at, outcome) {
                    None => None,
                    Some((outcome, at)) => respond_trace(t, at, outcome),
                },
            },
        },
    }
}

/// Creates a project with the name in the body. The response has the status
/// 201. A name that is taken is a conflict.
pub fn create_project(session: &mut Session, body: &Json) -> (r: Result<
    (u16, ProjectResponse),
    Error,
>)
    ensures
        continues(final(session)@, old(session)@),
        create_project_trace(final(session)@, old(session)@.len() as int, *body) == Some(
            (answer_view(r), final(session)@.len() as int),
        ),
        r matches Ok((status, _)) ==> status == 201,
{
    broadcast use {lemma_create_in_transaction_kept, lemma_settle_kept};

    let name = match parse_name_from_body(body) {
        Ok(name) => name,
        Err(e) => return Err(e),
    };
    match begin(session) {
        Ok(_) => {},
        Err(e) => return Err(e),
    }
    let outcome = create_in_transaction(session, name.as_str());
    let outcome = settle_project(session, outcome);
    match respond(session, outcome) {
        Ok(response) => Ok((201, response)),
        Err(e) => Err(e),
    }
}

// ------------------------------------------------------------------
// PATCH /api/projects/{id}
// ------------------------------------------------------------------

/// The run of [`update_in_transaction`].
pub open spec fn update_in_transaction_trace(
    t: Transcript,
    at: int,
    id: i64,
    name: Seq<char>,
) -> Trace<ProjectView> {
    match read_back_trace(t, at, id, ErrorView::NotFound) {
        None => None,
        Some((Err(e), at)) => Some((Err(e), at)),
        Some((Ok(existing), at)) => if existing.name == name {
            Some((Ok(existing), at))
        } else {
            match read_project_by_name_trace(t, at, name) {
                None => None,
                Some((Err(e), at)) => Some((Err(e), at)),
                Some((Ok(other), at)) => if other is Some && other->0.id != id {
                    Some((Err(ErrorView::Conflict("project name already exists"@)), at))
                } else {
                    match update_project_name_trace(t, at, id, name) {
                        None => None,
                        Some((Err(e), at)) => Some((Err(name_conflict(e)), at)),
                        Some((Ok(_), at)) => read_back_trace(
                            t,
                            at,
                            id,
                            ErrorView::Config("project disappeared after UPDATE"@),
                        ),
                    }
                },
            }
        },
    }
}

pub broadcast proof fn lemma_update_in_transaction_kept(
    later: Transcript,
    earlier: Transcript,
    at: int,
    id: i64,
    name: Seq<char>,
)
    requires
        #[trigger] continues(later, earlier),
        (#[trigger] update_in_transaction_trace(earlier, at, id, name)) is Some,
    ensures
        update_in_transaction_trace(later, at, id, name) == update_in_transaction_trace(
            earlier,
            at,
            id,
            name,
        ),
{
}

/// Renames a project, unless it has the name already, and reads it back.
fn update_in_transaction(session: &mut Session, id: i64, name: &str) -> (r: Result<Project, Error>)
    ensures
        continues(final(session)@, old(session)@),
        update_in_transaction_trace(final(session)@, old(session)@.len() as int, id, name@)
            == Some((result_view(r), final(session)@.len() as int)),
{
    let existing = match read_back(session, id, Error::NotFound) {
        Ok(project) => project,
        Err(e) => return Err(e),
    };
    if str_eq(existing.name.as_str(), name) {
        return Ok(existing);
    }
    match sqlite::read_project_by_name(session, name) {
        Ok(Some(other)) => {
            if other.id != id {
                return Err(Error::Conflict("project name already exists".to_owned()));
            }
        },
        Ok(None) => {},
        Err(e) => return Err(e),
    }
    match sqlite::update_project_name(session, id, name) {
        Ok(_) => {},
        Err(e) => return Err(map_unique_to_conflict(e)),
    }
    read_back(session, id, Error::Config("project disappeared after UPDATE".to_owned()))
}

/// The run of [`update_project`].
pub open spec fn update_project_trace(t: Transcript, at: int, id: i64, body: Json) -> Trace<
    ProjectResponseView,
> {
    match name_in(body) {
        Err(e) => Some((Err(e), at)),
        Ok(name) => match begin_trace(t, at) {
            None => None,
            Some((Err(e), at)) => Some((Err(e), at)),
            Some((Ok(_), at)) => match update_in_transaction_trace(t, at, id, name) {
                None => None,
                Some((outcome, at)) => match settle_trace(t, at, outcome) {
                    None => None,
                    Some((outcome, at)) => respond_trace(t, at, outcome),
                },
            },
        },
    }
}

/// Renames a project to the name in the body. The name that it has already is
/// accepted, the name of another project is a conflict, and a project that
/// does not exist is not found.
pub fn update_project(session: &mut Session, id: i64, body: &Json) -> (r: Result<
    ProjectResponse,
    Error,
>)
    ensures
        continues(final(session)@, old(session)@),
        update_project_trace(final(session)@, old(session)@.len() as int, id, *body) == Some(
            (result_view(r), final(session)@.len() as int),
        ),
{
    broadcast use {lemma_update_in_transaction_kept, lemma_settle_kept};

    let name = match parse_name_from_body(body) {
        Ok(name) => name,
        Err(e) => return Err(e),
    };
    match begin(session) {
        Ok(_) => {},
        Err(e) => return Err(e),
    }
    let outcome = update_in_transaction(session, id, name.as_str());
    let outcome = settle_project(session, outcome);
    respond(session, outcome)
}

// ------------------------------------------------------------------
// DELETE /api/projects/{id}
// ------------------------------------------------------------------

/// The error for a project that still has tasks.
pub open spec fn has_tasks(n: i64) -> ErrorView {
    ErrorView::Conflict("project has "@ + decimal_int(n as int) + " tasks"@)
}

/// The run of [`delete_in_transaction`].
pub open spec fn delete_in_transaction_trace(t: Transcript, at: int, id: i64) -> Trace<()> {
    match read_back_trace(t, at, id, ErrorView::NotFound) {
        None => None,
        Some((Err(e), at)) => Some((Err(e), at)),
        Some((Ok(_), at)) => match count_tasks_trace(t, at, id) {
            None => None,
            Some((Err(e), at)) => Some((Err(e), at)),
            Some((Ok(n), at)) => if n > 0 {
                Some((Err(has_tasks(n)), at))
            } else {
                delete_project_trace(t, at, id)
            },
        },
    }
}

pub broadcast proof fn lemma_delete_in_transaction_kept(
    later: Transcript,
    earlier: Transcript,
    at: int,
    id: i64,
)
    requires
        #[trigger] continues(later, earlier),
        (#[trigger] delete_in_transaction_trace(earlier, at, id)) is Some,
    ensures
        delete_in_transaction_trace(later, at, id) == delete_in_transaction_trace(
            earlier,
            at,
            id,
        ),
{
}

/// Deletes a project that has no tasks.
fn delete_in_transaction(session: &mut Session, id: i64) -> (r: Result<(), Error>)
    ensures
        continues(final(session)@, old(session)@),
        delete_in_transaction_trace(final(session)@, old(session)@.len() as int, id) == Some(
            (result_view(r), final(session)@.len() as int),
        ),
{
    match read_back(session, id, Error::NotFound) {
        Ok(_) => {},
        Err(e) => return Err(e),
    }
    let n: i64 = match sqlite::count_tasks_for_project(session, id) {
        Ok(n) => n,
        Err(e) => return Err(e),
    };
    if n > 0 {
        return Err(Error::Conflict(join3("project has ", print_i64(n).as_str(), " tasks")));
    }
    sqlite::delete_project(session, id)
}

/// The run of [`delete_project`].
pub open spec fn delete_project_request_trace(t: Transcript, at: int, id: i64) -> Trace<()> {
    match begin_trace(t, at) {
        None => None,
        Some((Err(e), at)) => Some((Err(e), at)),
        Some((Ok(_), at)) => match delete_in_transaction_trace(t, at, id) {
            None => None,
            Some((outcome, at)) => settle_trace(t, at, outcome),
        },
    }
}

/// Deletes a project and gives the status of the response, 204. One that still
/// has tasks is a conflict, and one that does not exist is not found.
pub fn delete_project(session: &mut Session, id: i64) -> (r: Result<u16, Error>)
    ensures
        continues(final(session)@, old(session)@),
        delete_project_request_trace(final(session)@, old(session)@.len() as int, id) == Some(
            (outcome_view(r), final(session)@.len() as int),
        ),
        r matches Ok(status) ==> status == 204,
{
    broadcast use {lemma_delete_in_transaction_kept, lemma_settle_kept};

    match begin(session) {
        Ok(_) => {},
        Err(e) => return Err(e),
    }
    let outcome = delete_in_transaction(session, id);
    match settle_unit(session, outcome) {
        Ok(_) => Ok(204),
        Err(e) => Err(e),
    }
}

fn settle_unit(session: &mut Session, outcome: Result<(), Error>) -> (r: Result<(), Error>)
    ensures
        continues(final(session)@, old(session)@),
        settle_trace(final(session)@, old(session)@.len() as int, result_view(outcome)) == Some(
            (result_view(r), final(session)@.len() as int),
        ),
{
    settle(session, outcome)
}

} // verus!
