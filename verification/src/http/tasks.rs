//! The handlers of `/api/tasks`.

use vstd::prelude::*;

use crate::date::{read_date, read_instant, Date, Timestamp};
use crate::error::{Error, ErrorView};
use crate::http::transaction::{
    answer_view, begin, begin_trace, lemma_settle_kept, own_view, settle, settle_trace,
};
use crate::json::{field, Json};
use crate::model::{
    is_status, task_dto, Task, TaskCreateDto, TaskCreateView, TaskDto, TaskDtoView, TaskListResponse,
    TaskListView, TaskResponse, TaskResponseView, TaskView,
};
use crate::session::{clock_read, continues, group_transcript, Session, Trace, Transcript};
use crate::sql::{opt_view, result_view, views};
use crate::sqlite;
use crate::sqlite::{
    borrowed, insert_task_row_trace, lemma_insert_task_row_kept, lemma_replace_reminds_kept,
    lemma_update_task_row_kept, read_reminds_trace, read_task_by_id_trace,
    read_tasks_filtered_trace, reminds_of, replace_reminds_trace, take_reminds,
    update_task_row_trace, Reminds, TaskRow, TaskRowView,
};
use crate::text::{debug_text, join, join3, quoted, str_eq};

verus! {

broadcast use group_transcript;

/// The greatest number of tasks in a list whose query sets no limit.
pub const DEFAULT_LIMIT: u32 = 500;

// ------------------------------------------------------------------
// GET /api/tasks
// ------------------------------------------------------------------

/// The query of `GET /api/tasks`. Every part may be absent.
#[derive(Debug, Clone)]
pub struct ListParams {
    pub status: Option<String>,
    pub since: Option<String>,
    pub project: Option<String>,
    pub limit: Option<u32>,
}

impl Default for ListParams {
    fn default() -> (r: ListParams)
        ensures
            r.status is None,
            r.since is None,
            r.project is None,
            r.limit is None,
    {
        ListParams { status: None, since: None, project: None, limit: None }
    }
}

fn allowed_status(word: &str) -> (r: bool)
    ensures
        r == is_status(word@),
{
    str_eq(word, "open") || str_eq(word, "done") || str_eq(word, "closed")
}

/// The error for a word that is no status.
pub open spec fn invalid_status(word: Seq<char>) -> ErrorView {
    ErrorView::BadRequest(
        "invalid status "@ + debug_text(word)
            + ": expected one of [\"open\", \"done\", \"closed\"]"@,
    )
}

fn invalid_status_error(word: &str) -> (r: Error)
    ensures
        r@ == invalid_status(word@),
{
    Error::BadRequest(
        join3(
            "invalid status ",
            quoted(word).as_str(),
            ": expected one of [\"open\", \"done\", \"closed\"]",
        ),
    )
}

/// The error for a `since` that is no instant.
pub open spec fn invalid_since(text: Seq<char>) -> ErrorView {
    ErrorView::BadRequest(
        "invalid since "@ + debug_text(text)
            + ": expected RFC 3339 datetime (e.g. 2026-04-18T13:00:00Z)"@,
    )
}

/// The day in UTC of the instant `since`.
pub open spec fn since_day(since: Option<Seq<char>>) -> Result<Option<Date>, ErrorView> {
    match since {
        None => Ok(None),
        Some(text) => match read_instant(text) {
            Some(instant) => Ok(Some(instant.date())),
            None => Err(invalid_since(text)),
        },
    }
}

fn parse_since(since: Option<&str>) -> (r: Result<Option<Date>, Error>)
    ensures
        result_view(r) == since_day(opt_view(since)),
{
    match since {
        None => Ok(None),
        Some(text) => match Timestamp::parse(text) {
            Some(instant) => Ok(Some(instant.date_naive())),
            None => Err(
                Error::BadRequest(
                    join3(
                        "invalid since ",
                        quoted(text).as_str(),
                        ": expected RFC 3339 datetime (e.g. 2026-04-18T13:00:00Z)",
                    ),
                ),
            ),
        },
    }
}

/// The ids of tasks.
pub open spec fn task_ids(tasks: Seq<TaskView>) -> Seq<i64> {
    tasks.map_values(|task: TaskView| task.id)
}

/// Tasks with their reminders, as the HTTP side shows them.
pub open spec fn task_dtos(tasks: Seq<TaskView>, reminds: Reminds) -> Seq<TaskDtoView> {
    tasks.map_values(|task: TaskView| task_dto(task, reminds_of(reminds, task.id)))
}

/// The greatest number of tasks in a list.
pub open spec fn limit_or_default(limit: Option<u32>) -> u32 {
    match limit {
        Some(n) => n,
        None => DEFAULT_LIMIT,
    }
}

/// The run of [`list_tasks`].
pub open spec fn list_tasks_trace(
    t: Transcript,
    at: int,
    status: Option<Seq<char>>,
    since: Option<Seq<char>>,
    project: Option<Seq<char>>,
    limit: Option<u32>,
) -> Trace<TaskListView> {
    if status is Some && !is_status(status->0) {
        Some((Err(invalid_status(status->0)), at))
    } else {
        match since_day(since) {
            Err(e) => Some((Err(e), at)),
            Ok(day) => match read_tasks_filtered_trace(
                t,
                at,
                status,
                day,
                project,
                Some(limit_or_default(limit)),
            ) {
                None => None,
                Some((Err(e), at)) => Some((Err(e), at)),
                Some((Ok(tasks), at)) => match read_reminds_trace(t, at, task_ids(tasks)) {
                    None => None,
                    Some((Err(e), at)) => Some((Err(e), at)),
                    Some((Ok(reminds), at)) => match clock_read(t, at) {
                        None => None,
                        Some((now, at)) => Some(
                            (
                                Ok(
                                    TaskListView {
                                        tasks: task_dtos(tasks, reminds),
                                        server_time: now,
                                    },
                                ),
                                at,
                            ),
                        ),
                    },
                },
            },
        }
    }
}

/// Lists the tasks that pass the filters of the query, in the order of their
/// numbers. A `status` that is none and a `since` that is no instant are
/// refused before the database is asked.
pub fn list_tasks(session: &mut Session, params: &ListParams) -> (r: Result<
    TaskListResponse,
    Error,
>)
    ensures
        continues(final(session)@, old(session)@),
        list_tasks_trace(
            final(session)@,
            old(session)@.len() as int,
            opt_view(params.status),
            opt_view(params.since),
            opt_view(params.project),
            params.limit,
        ) == Some((result_view(r), final(session)@.len() as int)),
{
    if let Some(status) = &params.status {
        if !allowed_status(status.as_str()) {
            return Err(invalid_status_error(status.as_str()));
        }
    }
    let since = match parse_since(borrowed(&params.since)) {
        Ok(day) => day,
        Err(e) => return Err(e),
    };
    let limit: u32 = match params.limit {
        Some(n) => n,
        None => DEFAULT_LIMIT,
    };
    let tasks = match sqlite::read_tasks_filtered(
        session,
        borrowed(&params.status),
        since,
        borrowed(&params.project),
        Some(limit),
    ) {
        Ok(tasks) => tasks,
        Err(e) => return Err(e),
    };
    let ids = ids_of(&tasks);
    let reminds = match sqlite::read_reminds_for_tasks(session, ids.as_slice()) {
        Ok(reminds) => reminds,
        Err(e) => return Err(e),
    };
    let dtos = tasks_to_dtos(tasks, &reminds);
    let now = session.now();
    Ok(TaskListResponse { tasks: dtos, server_time: now })
}

/// The ids of tasks.
pub(crate) fn ids_of(tasks: &Vec<Task>) -> (r: Vec<i64>)
    ensures
        r@ == task_ids(views(tasks@)),
{
    let mut ids: Vec<i64> = Vec::new();
    let mut i: usize = 0;
    while i < tasks.len()
        invariant
            i <= tasks.len(),
            ids@.len() == i,
            forall|j: int| 0 <= j < i ==> ids@[j] == (#[trigger] tasks@[j]).id,
        decreases tasks.len() - i,
    {
        ids.push(tasks[i].id);
        i = i + 1;
    }
    assert(ids@ =~= task_ids(views(tasks@)));
    ids
}

fn tasks_to_dtos(
    tasks: Vec<Task>,
    reminds: &std::collections::HashMap<i64, Vec<Date>>,
) -> (r: Vec<TaskDto>)
    ensures
        views(r@) == task_dtos(views(tasks@), sqlite::reminds_view(reminds@)),
{
    let ghost all = tasks@;
    let ghost map = sqlite::reminds_view(reminds@);
    let mut dtos: Vec<TaskDto> = Vec::new();
    for task in it: tasks
        invariant
            it.seq() == all,
            dtos@.len() == it.index(),
            map == sqlite::reminds_view(reminds@),
            forall|j: int|
                0 <= j < it.index() ==> (#[trigger] dtos@[j])@ == task_dto(
                    all[j]@,
                    reminds_of(map, all[j].id),
                ),
    {
        let dates = take_reminds(reminds, task.id);
        dtos.push(TaskDto::from_task(task, dates));
    }
    assert(views(dtos@) =~= task_dtos(views(all), map));
    dtos
}

// ------------------------------------------------------------------
// GET /api/tasks/{task_number}
// ------------------------------------------------------------------

/// The run of [`read_back`].
pub open spec fn read_back_trace(t: Transcript, at: int, id: i64, missing: ErrorView) -> Trace<
    (TaskView, Seq<Date>),
> {
    match read_task_by_id_trace(t, at, id) {
        None => None,
        Some((Err(e), at)) => Some((Err(e), at)),
        Some((Ok(None), at)) => Some((Err(missing), at)),
        Some((Ok(Some(task)), at)) => match read_reminds_trace(t, at, seq![id]) {
            None => None,
            Some((Err(e), at)) => Some((Err(e), at)),
            Some((Ok(reminds), at)) => Some((Ok((task, reminds_of(reminds, id))), at)),
        },
    }
}

pub broadcast proof fn lemma_read_back_kept(
    later: Transcript,
    earlier: Transcript,
    at: int,
    id: i64,
    missing: ErrorView,
)
    requires
        #[trigger] continues(later, earlier),
        (#[trigger] read_back_trace(earlier, at, id, missing)) is Some,
    ensures
        read_back_trace(later, at, id, missing) == read_back_trace(earlier, at, id, missing),
{
}

/// The model of a task with its reminders.
pub open spec fn read_view(r: Result<(Task, Vec<Date>), Error>) -> Result<
    (TaskView, Seq<Date>),
    ErrorView,
> {
    match r {
        Ok((task, reminds)) => Ok((task@, reminds@)),
        Err(e) => Err(e@),
    }
}

/// Reads a task and its reminders. `missing` is the error where there is no
/// such task.
fn read_back(session: &mut Session, id: i64, missing: Error) -> (r: Result<
    (Task, Vec<Date>),
    Error,
>)
    ensures
        continues(final(session)@, old(session)@),
        read_back_trace(final(session)@, old(session)@.len() as int, id, missing@) == Some(
            (read_view(r), final(session)@.len() as int),
        ),
{
    let task = match sqlite::read_task_by_id(session, id) {
        Ok(Some(task)) => task,
        Ok(None) => return Err(missing),
        Err(e) => return Err(e),
    };
    let mut ids: Vec<i64> = Vec::new();
    ids.push(id);
    assert(ids@ =~= seq![id]);
    match sqlite::read_reminds_for_tasks(session, ids.as_slice()) {
        Ok(map) => {
            let reminds = take_reminds(&map, id);
            Ok((task, reminds))
        },
        Err(e) => Err(e),
    }
}

/// The answer for a task, at the time that the clock shows.
pub open spec fn respond_trace(
    t: Transcript,
    at: int,
    outcome: Result<(TaskView, Seq<Date>), ErrorView>,
) -> Trace<TaskResponseView> {
    match outcome {
        Err(e) => Some((Err(e), at)),
        Ok((task, reminds)) => match clock_read(t, at) {
            None => None,
            Some((now, at)) => Some(
                (Ok(TaskResponseView { task: task_dto(task, reminds), server_time: now }), at),
            ),
        },
    }
}

fn respond(session: &mut Session, outcome: Result<(Task, Vec<Date>), Error>) -> (r: Result<
    TaskResponse,
    Error,
>)
    ensures
        continues(final(session)@, old(session)@),
        respond_trace(final(session)@, old(session)@.len() as int, read_view(outcome)) == Some(
            (result_view(r), final(session)@.len() as int),
        ),
{
    match outcome {
        Ok((task, reminds)) => {
            let dto = TaskDto::from_task(task, reminds);
            let now = session.now();
            Ok(TaskResponse { task: dto, server_time: now })
        },
        Err(e) => Err(e),
    }
}

/// The run of [`get_task`].
pub open spec fn get_task_trace(t: Transcript, at: int, task_number: i64) -> Trace<
    TaskResponseView,
> {
    match read_back_trace(t, at, task_number, ErrorView::NotFound) {
        None => None,
        Some((outcome, at)) => respond_trace(t, at, outcome),
    }
}

/// Gives one task. A task that does not exist is not found.
pub fn get_task(session: &mut Session, task_number: i64) -> (r: Result<TaskResponse, Error>)
    ensures
        continues(final(session)@, old(session)@),
        get_task_trace(final(session)@, old(session)@.len() as int, task_number) == Some(
            (result_view(r), final(session)@.len() as int),
        ),
{
    broadcast use lemma_read_back_kept;

    let outcome = read_back(session, task_number, Error::NotFound);
    respond(session, outcome)
}

// ------------------------------------------------------------------
// POST /api/tasks
// ------------------------------------------------------------------

/// The columns of a new task.
pub open spec fn create_row(dto: TaskCreateView) -> TaskRowView {
    TaskRowView {
        title: dto.title,
        status: dto.status,
        source: dto.source,
        project: dto.project_name,
        due: dto.due,
        done_at: dto.done_at,
        created: dto.created_at.date(),
        updated: dto.updated_at.date(),
        important: dto.important,
    }
}

/// The run of [`create_in_transaction`].
pub open spec fn create_in_transaction_trace(
    t: Transcript,
    at: int,
    dto: TaskCreateView,
) -> Trace<(TaskView, Seq<Date>)> {
    match insert_task_row_trace(t, at, create_row(dto), None) {
        None => None,
        Some((Err(e), at)) => Some((Err(e), at)),
        Some((Ok(id), at)) => match replace_reminds_trace(t, at, id, dto.reminds) {
            None => None,
            Some((Err(e), at)) => Some((Err(e), at)),
            Some((Ok(_), at)) => read_back_trace(
                t,
                at,
                id,
                ErrorView::Config("just-inserted task disappeared from SQLite"@),
            ),
        },
    }
}

pub broadcast proof fn lemma_create_in_transaction_kept(
    later: Transcript,
    earlier: Transcript,
    at: int,
    dto: TaskCreateView,
)
    requires
        #[trigger] continues(later, earlier),
        (#[trigger] create_in_transaction_trace(earlier, at, dto)) is Some,
    ensures
        create_in_transaction_trace(later, at, dto) == create_in_transaction_trace(
            earlier,
            at,
            dto,
        ),
{
    broadcast use {
        lemma_insert_task_row_kept,
        lemma_replace_reminds_kept,
        lemma_read_back_kept,
    };

}

/// Inserts a task and its reminders, and reads them back.
fn create_in_transaction(session: &mut Session, dto: &TaskCreateDto) -> (r: Result<
    (Task, Vec<Date>),
    Error,
>)
    ensures
        continues(final(session)@, old(session)@),
        create_in_transaction_trace(final(session)@, old(session)@.len() as int, dto@) == Some(
            (read_view(r), final(session)@.len() as int),
        ),
{
    broadcast use {lemma_insert_task_row_kept, lemma_replace_reminds_kept};

    let row = TaskRow {
        title: dto.title.as_str(),
        status: dto.status.as_str(),
        source: dto.source.as_str(),
        project: borrowed(&dto.project_name),
        due: dto.due,
        done_at: dto.done_at,
        created: dto.created_at.date_naive(),
        updated: dto.updated_at.date_naive(),
        important: dto.important,
    };
    assert(row@ == create_row(dto@));
    let id: i64 = match sqlite::insert_task_row(session, &row, None) {
        Ok(id) => id,
        Err(e) => return Err(e),
    };
    match sqlite::replace_reminds(session, id, dto.reminds.as_slice()) {
        Ok(_) => {},
        Err(e) => return Err(e),
    }
    read_back(
        session,
        id,
        Error::Config("just-inserted task disappeared from SQLite".to_owned()),
    )
}

/// What is wrong with the body of `POST /api/tasks`, if anything: a task
/// number, then a body that cannot be read, then a word that is no status.
pub open spec fn create_refusal(
    body: Json,
    parsed: Result<TaskCreateView, Seq<char>>,
) -> Option<ErrorView> {
    if field(body, "taskNumber"@) is Some {
        Some(
            ErrorView::BadRequest(
                "taskNumber must not be in request body (server assigns SQLite rowid)"@,
            ),
        )
    } else {
        match parsed {
            Err(reason) => Some(ErrorView::BadRequest("invalid task body: "@ + reason)),
            Ok(dto) => if is_status(dto.status) {
                None
            } else {
                Some(invalid_status(dto.status))
            },
        }
    }
}

/// The run of [`create_task`].
pub open spec fn create_task_trace(
    t: Transcript,
    at: int,
    body: Json,
    parsed: Result<TaskCreateView, Seq<char>>,
) -> Trace<TaskResponseView> {
    match create_refusal(body, parsed) {
        Some(e) => Some((Err(e), at)),
        None => match begin_trace(t, at) {
            None => None,
            Some((Err(e), at)) => Some((Err(e), at)),
            Some((Ok(_), at)) => match create_in_transaction_trace(t, at, parsed->Ok_0) {
                None => None,
                Some((outcome, at)) => match settle_trace(t, at, outcome) {
                    None => None,
                    Some((outcome, at)) => respond_trace(t, at, outcome),
                },
            },
        },
    }
}

/// Creates a task and gives it with the number that the database gave to it.
///
/// The response has the status 201. `parsed` is what the body was read as, or
/// why it could not be read. A body with a task number is refused. The task, its reminders and the reading back
/// are one transaction.
#[verifier::rlimit(40)]
pub fn create_task(
    session: &mut Session,
    body: &Json,
    parsed: Result<TaskCreateDto, String>,
) -> (r: Result<(u16, TaskResponse), Error>)
    ensures
        continues(final(session)@, old(session)@),
        create_task_trace(
            final(session)@,
            old(session)@.len() as int,
            *body,
            result_view(parsed),
        ) == Some((answer_view(r), final(session)@.len() as int)),
        r matches Ok((status, _)) ==> status == 201,
{
    broadcast use {lemma_create_in_transaction_kept, lemma_settle_kept};

    if body.get("taskNumber").is_some() {
        return Err(
            Error::BadRequest(
                "taskNumber must not be in request body (server assigns SQLite rowid)".to_owned(),
            ),
        );
    }
    let dto = match parsed {
        Ok(dto) => dto,
        Err(reason) => return Err(
            Error::BadRequest(join("invalid task body: ", reason.as_str())),
        ),
    };
    if !allowed_status(dto.status.as_str()) {
        return Err(invalid_status_error(dto.status.as_str()));
    }
    match begin(session) {
        Ok(_) => {},
        Err(e) => return Err(e),
    }
    let outcome = create_in_transaction(session, &dto);
    let outcome = settle_read(session, outcome);
    match respond(session, outcome) {
        Ok(response) => Ok((201, response)),
        Err(e) => Err(e),
    }
}

/// Ends a transaction that gives a task with its reminders.
fn settle_read(session: &mut Session, outcome: Result<(Task, Vec<Date>), Error>) -> (r: Result<
    (Task, Vec<Date>),
    Error,
>)
    ensures
        continues(final(session)@, old(session)@),
        settle_trace(final(session)@, old(session)@.len() as int, read_view(outcome)) == Some(
            (read_view(r), final(session)@.len() as int),
        ),
{
    settle(session, outcome)
}

// ------------------------------------------------------------------
// PATCH /api/tasks/{task_number}
// ------------------------------------------------------------------

/// Whether a key may occur in the body of `PATCH /api/tasks/{task_number}`.
pub open spec fn is_patch_key(key: Seq<char>) -> bool {
    ||| key == "title"@
    ||| key == "status"@
    ||| key == "source"@
    ||| key == "projectName"@
    ||| key == "due"@
    ||| key == "doneAt"@
    ||| key == "important"@
    ||| key == "updatedAt"@
    ||| key == "createdAt"@
    ||| key == "reminds"@
}

fn patch_key(key: &str) -> (r: bool)
    ensures
        r == is_patch_key(key@),
{
    str_eq(key, "title") || str_eq(key, "status") || str_eq(key, "source") || str_eq(
        key,
        "projectName",
    ) || str_eq(key, "due") || str_eq(key, "doneAt") || str_eq(key, "important") || str_eq(
        key,
        "updatedAt",
    ) || str_eq(key, "createdAt") || str_eq(key, "reminds")
}

/// The first key that may not occur in the body.
pub open spec fn unknown_key(members: Seq<(String, Json)>) -> Option<Seq<char>>
    decreases members.len(),
{
    if members.len() == 0 {
        None
    } else if !is_patch_key(members[0].0@) {
        Some(members[0].0@)
    } else {
        unknown_key(members.skip(1))
    }
}

/// What is wrong with the body before anything is read, if anything: it is no
/// object, it holds a task number, it holds an unknown key, its status is no
/// text or no status.
pub open spec fn patch_refusal(body: Json) -> Option<ErrorView> {
    match body {
        Json::Object(members) => if field(body, "taskNumber"@) is Some {
            Some(
                ErrorView::BadRequest(
                    "taskNumber must not be in request body (URL path is authoritative)"@,
                ),
            )
        } else {
            match unknown_key(members@) {
                Some(key) => Some(ErrorView::BadRequest("unknown field: "@ + debug_text(key))),
                None => match field(body, "status"@) {
                    None => None,
                    Some(Json::Text(word)) => if is_status(word@) {
                        None
                    } else {
                        Some(invalid_status(word@))
                    },
                    Some(_) => Some(ErrorView::BadRequest("status must be a string"@)),
                },
            }
        },
        _ => Some(ErrorView::BadRequest("body must be a JSON object"@)),
    }
}

fn check_patch_body(body: &Json) -> (r: Result<(), Error>)
    ensures
        match r {
            Ok(_) => patch_refusal(*body) is None,
            Err(e) => patch_refusal(*body) == Some(e@),
        },
{
    let members = match body {
        Json::Object(members) => members,
        _ => return Err(Error::BadRequest("body must be a JSON object".to_owned())),
    };
    if body.get("taskNumber").is_some() {
        return Err(
            Error::BadRequest(
                "taskNumber must not be in request body (URL path is authoritative)".to_owned(),
            ),
        );
    }
    let mut i: usize = 0;
    assert(members@.skip(0) =~= members@);
    while i < members.len()
        invariant
            i <= members.len(),
            *body == Json::Object(*members),
            field(*body, "taskNumber"@) is None,
            unknown_key(members@) == unknown_key(members@.skip(i as int)),
        decreases members.len() - i,
    {
        assert(members@.skip(i as int).skip(1) =~= members@.skip(i + 1));
        if !patch_key(members[i].0.as_str()) {
            return Err(
                Error::BadRequest(
                    join("unknown field: ", quoted(members[i].0.as_str()).as_str()),
                ),
            );
        }
        i = i + 1;
    }
    match body.get("status") {
        None => Ok(()),
        Some(Json::Text(word)) => if allowed_status(word.as_str()) {
            Ok(())
        } else {
            Err(invalid_status_error(word.as_str()))
        },
        Some(_) => Err(Error::BadRequest("status must be a string".to_owned())),
    }
}

/// A text that the body may replace.
pub open spec fn patched_string(body: Json, key: Seq<char>, existing: Seq<char>) -> Result<
    Seq<char>,
    ErrorView,
> {
    match field(body, key) {
        None => Ok(existing),
        Some(Json::Text(s)) => Ok(s@),
        Some(_) => Err(ErrorView::BadRequest(key + " must be a string"@)),
    }
}

fn patch_required_string(body: &Json, key: &str, existing: &str) -> (r: Result<String, Error>)
    ensures
        result_view(r) == patched_string(*body, key@, existing@),
{
    match body.get(key) {
        None => Ok(existing.to_owned()),
        Some(Json::Text(s)) => Ok(s.clone()),
        Some(_) => Err(Error::BadRequest(join(key, " must be a string"))),
    }
}

/// A flag that the body may replace.
pub open spec fn patched_bool(body: Json, key: Seq<char>, existing: bool) -> Result<
    bool,
    ErrorView,
> {
    match field(body, key) {
        None => Ok(existing),
        Some(Json::Bool(b)) => Ok(b),
        Some(_) => Err(ErrorView::BadRequest(key + " must be a boolean"@)),
    }
}

fn patch_required_bool(body: &Json, key: &str, existing: bool) -> (r: Result<bool, Error>)
    ensures
        result_view(r) == patched_bool(*body, key@, existing),
{
    match body.get(key) {
        None => Ok(existing),
        Some(Json::Bool(b)) => Ok(*b),
        Some(_) => Err(Error::BadRequest(join(key, " must be a boolean"))),
    }
}

/// A text that the body may replace or clear.
pub open spec fn patched_nullable_string(
    body: Json,
    key: Seq<char>,
    existing: Option<Seq<char>>,
) -> Result<Option<Seq<char>>, ErrorView> {
    match field(body, key) {
        None => Ok(existing),
        Some(Json::Null) => Ok(None),
        Some(Json::Text(s)) => Ok(Some(s@)),
        Some(_) => Err(ErrorView::BadRequest(key + " must be a string or null"@)),
    }
}

fn patch_nullable_string(body: &Json, key: &str, existing: Option<&str>) -> (r: Result<
    Option<String>,
    Error,
>)
    ensures
        match r {
            Ok(s) => patched_nullable_string(*body, key@, opt_view(existing)) == Ok::<
                Option<Seq<char>>,
                ErrorView,
            >(opt_view(s)),
            Err(e) => patched_nullable_string(*body, key@, opt_view(existing)) == Err::<
                Option<Seq<char>>,
                ErrorView,
            >(e@),
        },
{
    match body.get(key) {
        None => match existing {
            Some(s) => Ok(Some(s.to_owned())),
            None => Ok(None),
        },
        Some(Json::Null) => Ok(None),
        Some(Json::Text(s)) => Ok(Some(s.clone())),
        Some(_) => Err(Error::BadRequest(join(key, " must be a string or null"))),
    }
}

/// A date that the body may replace or clear.
pub open spec fn patched_nullable_date(
    body: Json,
    key: Seq<char>,
    existing: Option<Date>,
) -> Result<Option<Date>, ErrorView> {
    match field(body, key) {
        None => Ok(existing),
        Some(Json::Null) => Ok(None),
        Some(Json::Text(s)) => match read_date(s@) {
            Ok(date) => Ok(Some(date)),
            Err(_) => Err(ErrorView::BadRequest(key + " must be YYYY-MM-DD or null"@)),
        },
        Some(_) => Err(ErrorView::BadRequest(key + " must be a date string or null"@)),
    }
}

fn patch_nullable_date(body: &Json, key: &str, existing: Option<Date>) -> (r: Result<
    Option<Date>,
    Error,
>)
    ensures
        result_view(r) == patched_nullable_date(*body, key@, existing),
{
    match body.get(key) {
        None => Ok(existing),
        Some(Json::Null) => Ok(None),
        Some(Json::Text(s)) => match Date::parse(s.as_str()) {
            Ok(date) => Ok(Some(date)),
            Err(_) => Err(Error::BadRequest(join(key, " must be YYYY-MM-DD or null"))),
        },
        Some(_) => Err(Error::BadRequest(join(key, " must be a date string or null"))),
    }
}

/// The day in UTC of an instant in the body.
pub open spec fn datetime_day(value: Json, key: Seq<char>) -> Result<Date, ErrorView> {
    match value {
        Json::Text(s) => match read_instant(s@) {
            Some(instant) => Ok(instant.date()),
            None => Err(
                ErrorView::BadRequest(
                    key + " must be an RFC 3339 datetime (e.g. 2026-04-18T13:00:00Z)"@,
                ),
            ),
        },
        _ => Err(ErrorView::BadRequest(key + " must be an RFC 3339 datetime string"@)),
    }
}

fn parse_datetime_to_date(value: &Json, key: &str) -> (r: Result<Date, Error>)
    ensures
        own_view(r) == datetime_day(*value, key@),
{
    match value {
        Json::Text(s) => match Timestamp::parse(s.as_str()) {
            Some(instant) => Ok(instant.date_naive()),
            None => Err(
                Error::BadRequest(
                    join(key, " must be an RFC 3339 datetime (e.g. 2026-04-18T13:00:00Z)"),
                ),
            ),
        },
        _ => Err(Error::BadRequest(join(key, " must be an RFC 3339 datetime string"))),
    }
}

/// A day that the body may replace by that of an instant.
pub open spec fn patched_day(body: Json, key: Seq<char>, existing: Date) -> Result<
    Date,
    ErrorView,
> {
    match field(body, key) {
        None => Ok(existing),
        Some(value) => datetime_day(value, key),
    }
}

fn patch_required_date_from_datetime(body: &Json, key: &str, existing: Date) -> (r: Result<
    Date,
    Error,
>)
    ensures
        own_view(r) == patched_day(*body, key@, existing),
{
    match body.get(key) {
        None => Ok(existing),
        Some(value) => parse_datetime_to_date(value, key),
    }
}

/// The dates in the elements of an array, or the first error.
pub open spec fn dates_of_items(items: Seq<Json>) -> Result<Seq<Date>, ErrorView>
    decreases items.len(),
{
    if items.len() == 0 {
        Ok(seq![])
    } else {
        match dates_of_items(items.drop_last()) {
            Err(e) => Err(e),
            Ok(dates) => match items.last() {
                Json::Text(s) => match read_date(s@) {
                    Ok(date) => Ok(dates.push(date)),
                    Err(_) => Err(
                        ErrorView::BadRequest("invalid remind date: "@ + debug_text(s@)),
                    ),
                },
                _ => Err(ErrorView::BadRequest("reminds items must be YYYY-MM-DD strings"@)),
            },
        }
    }
}

/// The dates in `reminds`.
pub open spec fn remind_dates(value: Json) -> Result<Seq<Date>, ErrorView> {
    match value {
        Json::Array(items) => dates_of_items(items@),
        _ => Err(ErrorView::BadRequest("reminds must be an array"@)),
    }
}

proof fn lemma_dates_stay_failed(items: Seq<Json>, n: int)
    requires
        0 <= n <= items.len(),
        dates_of_items(items.take(n)) is Err,
    ensures
        dates_of_items(items) == dates_of_items(items.take(n)),
    decreases items.len(),
{
    if n < items.len() {
        assert(items.drop_last().take(n) =~= items.take(n));
        lemma_dates_stay_failed(items.drop_last(), n);
    } else {
        assert(items.take(n) =~= items);
    }
}

fn parse_reminds_array(value: &Json) -> (r: Result<Vec<Date>, Error>)
    ensures
        result_view(r) == remind_dates(*value),
{
    let items = match value {
        Json::Array(items) => items,
        _ => return Err(Error::BadRequest("reminds must be an array".to_owned())),
    };
    let mut out: Vec<Date> = Vec::new();
    let mut i: usize = 0;
    assert(items@.take(0) =~= seq![]);
    assert(out@ =~= seq![]);
    while i < items.len()
        invariant
            i <= items.len(),
            *value == Json::Array(*items),
            dates_of_items(items@.take(i as int)) == Ok::<Seq<Date>, ErrorView>(out@),
        decreases items.len() - i,
    {
        proof {
            assert(items@.take(i + 1).drop_last() =~= items@.take(i as int));
            assert(items@.take(i + 1).last() == items@[i as int]);
        }
        match &items[i] {
            Json::Text(s) => match Date::parse(s.as_str()) {
                Ok(date) => out.push(date),
                Err(_) => {
                    proof {
                        lemma_dates_stay_failed(items@, i + 1);
                    }
                    return Err(
                        Error::BadRequest(
                            join("invalid remind date: ", quoted(s.as_str()).as_str()),
                        ),
                    );
                },
            },
            _ => {
                proof {
                    lemma_dates_stay_failed(items@, i + 1);
                }
                return Err(
                    Error::BadRequest("reminds items must be YYYY-MM-DD strings".to_owned()),
                );
            },
        }
        i = i + 1;
    }
    assert(items@.take(i as int) =~= items@);
    Ok(out)
}

/// The columns of a task, but for the day of its last change.
pub struct TaskFields {
    pub title: String,
    pub status: String,
    pub source: String,
    pub project: Option<String>,
    pub due: Option<Date>,
    pub done_at: Option<Date>,
    pub created: Date,
    pub important: bool,
}

/// The columns of a task with the day of its last change.
pub open spec fn fields_row(fields: TaskFields, updated: Date) -> TaskRowView {
    TaskRowView {
        title: fields.title@,
        status: fields.status@,
        source: fields.source@,
        project: opt_view(fields.project),
        due: fields.due,
        done_at: fields.done_at,
        created: fields.created,
        updated,
        important: fields.important,
    }
}

/// The columns of a task after the body was applied to it: what the body does
/// not send stays as it is. The first field that cannot be applied fails.
pub open spec fn patched_row(body: Json, existing: TaskView, updated: Date) -> Result<
    TaskRowView,
    ErrorView,
> {
    let title = patched_string(body, "title"@, existing.title);
    let status = patched_string(body, "status"@, existing.status.word());
    let source = patched_string(body, "source"@, existing.source);
    let project = patched_nullable_string(body, "projectName"@, existing.project);
    let due = patched_nullable_date(body, "due"@, existing.due);
    let done_at = patched_nullable_date(body, "doneAt"@, existing.done_at);
    let important = patched_bool(body, "important"@, existing.important);
    let created = patched_day(body, "createdAt"@, existing.created);
    if title is Err {
        Err(title->Err_0)
    } else if status is Err {
        Err(status->Err_0)
    } else if source is Err {
        Err(source->Err_0)
    } else if project is Err {
        Err(project->Err_0)
    } else if due is Err {
        Err(due->Err_0)
    } else if done_at is Err {
        Err(done_at->Err_0)
    } else if important is Err {
        Err(important->Err_0)
    } else if created is Err {
        Err(created->Err_0)
    } else {
        Ok(
            TaskRowView {
                title: title->Ok_0,
                status: status->Ok_0,
                source: source->Ok_0,
                project: project->Ok_0,
                due: due->Ok_0,
                done_at: done_at->Ok_0,
                created: created->Ok_0,
                updated,
                important: important->Ok_0,
            },
        )
    }
}

/// Applies the body to a task.
fn merge_fields(body: &Json, existing: &Task) -> (r: Result<TaskFields, Error>)
    ensures
        forall|updated: Date| #[trigger]
            patched_row(*body, existing@, updated) == match r {
                Ok(fields) => Ok::<TaskRowView, ErrorView>(fields_row(fields, updated)),
                Err(e) => Err::<TaskRowView, ErrorView>(e@),
            },
{
    let title = match patch_required_string(body, "title", existing.title.as_str()) {
        Ok(v) => v,
        Err(e) => return Err(e),
    };
    let status = match patch_required_string(body, "status", existing.status.as_str()) {
        Ok(v) => v,
        Err(e) => return Err(e),
    };
    let source = match patch_required_string(body, "source", existing.source.as_str()) {
        Ok(v) => v,
        Err(e) => return Err(e),
    };
    let project = match patch_nullable_string(body, "projectName", borrowed(&existing.project)) {
        Ok(v) => v,
        Err(e) => return Err(e),
    };
    let due = match patch_nullable_date(body, "due", existing.due) {
        Ok(v) => v,
        Err(e) => return Err(e),
    };
    let done_at = match patch_nullable_date(body, "doneAt", existing.done_at) {
        Ok(v) => v,
        Err(e) => return Err(e),
    };
    let important = match patch_required_bool(body, "important", existing.important) {
        Ok(v) => v,
        Err(e) => return Err(e),
    };
    let created = match patch_required_date_from_datetime(body, "createdAt", existing.created) {
        Ok(v) => v,
        Err(e) => return Err(e),
    };
    Ok(TaskFields { title, status, source, project, due, done_at, created, important })
}

/// The day of the change: that of `updatedAt`, or today where the body sends
/// none.
pub open spec fn patched_updated_trace(t: Transcript, at: int, body: Json) -> Trace<Date> {
    match field(body, "updatedAt"@) {
        Some(value) => Some((datetime_day(value, "updatedAt"@), at)),
        None => match clock_read(t, at) {
            None => None,
            Some((now, at)) => Some((Ok(now.date()), at)),
        },
    }
}

fn patch_updated(session: &mut Session, body: &Json) -> (r: Result<Date, Error>)
    ensures
        continues(final(session)@, old(session)@),
        patched_updated_trace(final(session)@, old(session)@.len() as int, *body) == Some(
            (own_view(r), final(session)@.len() as int),
        ),
{
    match body.get("updatedAt") {
        Some(value) => parse_datetime_to_date(value, "updatedAt"),
        None => Ok(session.now().date_naive()),
    }
}

/// The reminders are replaced where the body sends them.
pub open spec fn patched_reminds_trace(
    t: Transcript,
    at: int,
    body: Json,
    task_number: i64,
) -> Trace<()> {
    match field(body, "reminds"@) {
        None => Some((Ok(()), at)),
        Some(value) => match remind_dates(value) {
            Err(e) => Some((Err(e), at)),
            Ok(dates) => replace_reminds_trace(t, at, task_number, dates),
        },
    }
}

fn patch_reminds(session: &mut Session, body: &Json, task_number: i64) -> (r: Result<(), Error>)
    ensures
        continues(final(session)@, old(session)@),
        patched_reminds_trace(final(session)@, old(session)@.len() as int, *body, task_number)
            == Some((result_view(r), final(session)@.len() as int)),
{
    match body.get("reminds") {
        None => Ok(()),
        Some(value) => match parse_reminds_array(value) {
            Ok(dates) => sqlite::replace_reminds(session, task_number, dates.as_slice()),
            Err(e) => Err(e),
        },
    }
}

/// The run of [`patch_in_transaction`].
pub open spec fn patch_in_transaction_trace(
    t: Transcript,
    at: int,
    task_number: i64,
    body: Json,
) -> Trace<(TaskView, Seq<Date>)> {
    match read_task_by_id_trace(t, at, task_number) {
        None => None,
        Some((Err(e), at)) => Some((Err(e), at)),
        Some((Ok(None), at)) => Some((Err(ErrorView::NotFound), at)),
        Some((Ok(Some(existing)), at)) => match patched_row(body, existing, existing.updated) {
            Err(e) => Some((Err(e), at)),
            Ok(_) => match patched_updated_trace(t, at, body) {
                None => None,
                Some((Err(e), at)) => Some((Err(e), at)),
                Some((Ok(updated), at)) => match update_task_row_trace(
                    t,
                    at,
                    task_number,
                    patched_row(body, existing, updated)->Ok_0,
                ) {
                    None => None,
                    Some((Err(e), at)) => Some((Err(e), at)),
                    Some((Ok(_), at)) => match patched_reminds_trace(t, at, body, task_number) {
                        None => None,
                        Some((Err(e), at)) => Some((Err(e), at)),
                        Some((Ok(_), at)) => read_back_trace(
                            t,
                            at,
                            task_number,
                            ErrorView::Config("task disappeared after UPDATE"@),
                        ),
                    },
                },
            },
        },
    }
}

#[verifier::rlimit(40)]
pub broadcast proof fn lemma_patch_in_transaction_kept(
    later: Transcript,
    earlier: Transcript,
    at: int,
    task_number: i64,
    body: Json,
)
    requires
        #[trigger] continues(later, earlier),
        (#[trigger] patch_in_transaction_trace(earlier, at, task_number, body)) is Some,
    ensures
        patch_in_transaction_trace(later, at, task_number, body) == patch_in_transaction_trace(
            earlier,
            at,
            task_number,
            body,
        ),
{
    broadcast use {
        lemma_update_task_row_kept,
        lemma_replace_reminds_kept,
        lemma_read_back_kept,
    };

}

/// Reads a task, applies the body to it, writes it and reads it back.
#[verifier::rlimit(40)]
fn patch_in_transaction(session: &mut Session, task_number: i64, body: &Json) -> (r: Result<
    (Task, Vec<Date>),
    Error,
>)
    ensures
        continues(final(session)@, old(session)@),
        patch_in_transaction_trace(
            final(session)@,
            old(session)@.len() as int,
            task_number,
            *body,
        ) == Some((read_view(r), final(session)@.len() as int)),
{
    broadcast use {lemma_update_task_row_kept, lemma_replace_reminds_kept};

    let existing = match sqlite::read_task_by_id(session, task_number) {
        Ok(Some(task)) => task,
        Ok(None) => return Err(Error::NotFound),
        Err(e) => return Err(e),
    };
    let fields = match merge_fields(body, &existing) {
        Ok(fields) => fields,
        Err(e) => {
            assert(patched_row(*body, existing@, existing@.updated) is Err);
            return Err(e);
        },
    };
    assert(patched_row(*body, existing@, existing@.updated) is Ok);
    let updated = match patch_updated(session, body) {
        Ok(day) => day,
        Err(e) => return Err(e),
    };
    let row = TaskRow {
        title: fields.title.as_str(),
        status: fields.status.as_str(),
        source: fields.source.as_str(),
        project: borrowed(&fields.project),
        due: fields.due,
        done_at: fields.done_at,
        created: fields.created,
        updated,
        important: fields.important,
    };
    assert(row@ == patched_row(*body, existing@, updated)->Ok_0);
    match sqlite::update_task_row(session, task_number, &row) {
        Ok(_) => {},
        Err(e) => return Err(e),
    }
    match patch_reminds(session, body, task_number) {
        Ok(_) => {},
        Err(e) => return Err(e),
    }
    read_back(session, task_number, Error::Config("task disappeared after UPDATE".to_owned()))
}

/// The run of [`patch_task`].
pub open spec fn patch_task_trace(t: Transcript, at: int, task_number: i64, body: Json) -> Trace<
    TaskResponseView,
> {
    match patch_refusal(body) {
        Some(e) => Some((Err(e), at)),
        None => match begin_trace(t, at) {
            None => None,
            Some((Err(e), at)) => Some((Err(e), at)),
            Some((Ok(_), at)) => match patch_in_transaction_trace(t, at, task_number, body) {
                None => None,
                Some((outcome, at)) => match settle_trace(t, at, outcome) {
                    None => None,
                    Some((outcome, at)) => respond_trace(t, at, outcome),
                },
            },
        },
    }
}

/// Changes the fields of a task that the body sends, and gives the task as it
/// is then.
///
/// A field that may be empty is cleared by `null`. Reminders are replaced as a
/// whole. Where the body sends no `updatedAt`, the task counts as changed
/// today. A body with a task number is refused, and a task that does not exist
/// is not found. Reading, writing and reading back are one transaction.
#[verifier::rlimit(40)]
pub fn patch_task(session: &mut Session, task_number: i64, body: &Json) -> (r: Result<
    TaskResponse,
    Error,
>)
    ensures
        continues(final(session)@, old(session)@),
        patch_task_trace(final(session)@, old(session)@.len() as int, task_number, *body) == Some(
            (result_view(r), final(session)@.len() as int),
        ),
{
    broadcast use {lemma_patch_in_transaction_kept, lemma_settle_kept};

    match check_patch_body(body) {
        Ok(_) => {},
        Err(e) => return Err(e),
    }
    match begin(session) {
        Ok(_) => {},
        Err(e) => return Err(e),
    }
    let outcome = patch_in_transaction(session, task_number, body);
    let outcome = settle_read(session, outcome);
    respond(session, outcome)
}

} // verus!
