//! The sync cycle: push, then number the tasks that the remote side created,
//! then pull what changed there.
//!
//! The calls of the remote API are made by the caller. Each function here
//! takes the cycle from one reply to the next call.

use vstd::prelude::*;

use crate::date::{midnight_of, read_date, Date};
use crate::error::{Error, ErrorView};
use crate::http::tasks::{ids_of, task_ids};
use crate::http::transaction::{
    begin, begin_trace, lemma_settle_kept, outcome_view, settle, settle_trace,
};
use crate::model::{
    ChangedTask, ChangedTaskView, ChangesResponse, ChangesView, PushResponse, SyncTask,
    SyncTaskView, Task, TaskView, UnsyncedTask, UnsyncedTaskView,
};
use crate::session::{
    clock_read, continues, fetched_row, group_transcript, ran, Session, Trace, Transcript,
};
use crate::sql::{
    get_text, list_result_view, opt_result_view, opt_view, result_view, text_at, views,
    FailureView, Param, SqlFailure,
};
use crate::sqlite;
use crate::sqlite::{
    borrowed, insert_reminds_trace, insert_task_row_trace, lemma_insert_reminds_kept,
    lemma_insert_task_row_kept, lemma_replace_reminds_kept, lemma_update_task_row_kept, params0,
    params1, plain, read_reminds_trace, read_tasks_since_trace, reminds_of, replace_reminds_trace,
    take_reminds, update_task_row_trace, with_id, Reminds, TaskRow, TaskRowView,
};
use crate::statement::Statement;
use crate::sync_state::{get_trace, set_trace, SyncState};
use crate::text::{debug_text, join, join3, quoted};

verus! {

broadcast use group_transcript;

// ------------------------------------------------------------------
// apply_changed_task
// ------------------------------------------------------------------

/// The columns of a task that changed on the remote side.
pub open spec fn changed_row(task: ChangedTaskView) -> TaskRowView {
    TaskRowView {
        title: task.title,
        status: task.status,
        source: task.source,
        project: task.project_name,
        due: task.due,
        done_at: task.done_at,
        created: task.created_at.date(),
        updated: task.updated_at.date(),
        important: task.important,
    }
}

fn changed_to_row(task: &ChangedTask) -> (r: TaskRow<'_>)
    ensures
        r@ == changed_row(task@),
{
    TaskRow {
        title: task.title.as_str(),
        status: task.status.as_str(),
        source: task.source.as_str(),
        project: borrowed(&task.project_name),
        due: task.due,
        done_at: task.done_at,
        created: task.created_at.date_naive(),
        updated: task.updated_at.date_naive(),
        important: task.important,
    }
}

/// The error for a local row whose `updated` holds no date.
pub open spec fn bad_updated(text: Seq<char>, reason: Seq<char>) -> ErrorView {
    ErrorView::Config("invalid local updated "@ + debug_text(text) + ": "@ + reason)
}

/// The text of the column `updated` of the local row, if there is one.
pub open spec fn local_updated_trace(t: Transcript, at: int, task_number: i64) -> Trace<
    Option<Seq<char>>,
> {
    match fetched_row(t, at, with_id(Statement::TaskUpdated, task_number)) {
        None => None,
        Some((Err(FailureView::NoRows), at)) => Some((Ok(None), at)),
        Some((Err(e), at)) => Some((Err(ErrorView::Sqlite(e)), at)),
        Some((Ok(row), at)) => match text_at(row, 0, "updated"@) {
            Ok(text) => Some((Ok(Some(text)), at)),
            Err(e) => Some((Err(ErrorView::Sqlite(e)), at)),
        },
    }
}

/// The run of [`apply_changed_task`].
pub open spec fn apply_changed_task_trace(t: Transcript, at: int, task: ChangedTaskView) -> Trace<
    (),
> {
    match local_updated_trace(t, at, task.task_number) {
        None => None,
        Some((Err(e), at)) => Some((Err(e), at)),
        Some((Ok(None), at)) => match insert_task_row_trace(
            t,
            at,
            changed_row(task),
            Some(task.task_number),
        ) {
            None => None,
            Some((Err(e), at)) => Some((Err(e), at)),
            Some((Ok(_), at)) => replace_reminds_trace(t, at, task.task_number, task.reminds),
        },
        Some((Ok(Some(local)), at)) => match read_date(local) {
            Err(reason) => Some((Err(bad_updated(local, reason)), at)),
            Ok(day) => if task.updated_at.date().after(day) {
                match update_task_row_trace(t, at, task.task_number, changed_row(task)) {
                    None => None,
                    Some((Err(e), at)) => Some((Err(e), at)),
                    Some((Ok(_), at)) => replace_reminds_trace(
                        t,
                        at,
                        task.task_number,
                        task.reminds,
                    ),
                }
            } else {
                Some((Ok(()), at))
            },
        },
    }
}

pub broadcast proof fn lemma_apply_changed_task_kept(
    later: Transcript,
    earlier: Transcript,
    at: int,
    task: ChangedTaskView,
)
    requires
        #[trigger] continues(later, earlier),
        (#[trigger] apply_changed_task_trace(earlier, at, task)) is Some,
    ensures
        apply_changed_task_trace(later, at, task) == apply_changed_task_trace(earlier, at, task),
{
    broadcast use {
        lemma_insert_task_row_kept,
        lemma_update_task_row_kept,
        lemma_replace_reminds_kept,
    };

}

fn local_updated(session: &mut Session, task_number: i64) -> (r: Result<Option<String>, Error>)
    ensures
        continues(final(session)@, old(session)@),
        local_updated_trace(final(session)@, old(session)@.len() as int, task_number) == Some(
            (opt_result_view(r), final(session)@.len() as int),
        ),
{
    match session.fetch_row(Statement::TaskUpdated, params1(Param::Integer(task_number))) {
        Ok(row) => match get_text(&row, 0, "updated") {
            Ok(text) => Ok(Some(text)),
            Err(e) => Err(Error::Sqlite(e)),
        },
        Err(SqlFailure::NoRows) => Ok(None),
        Err(e) => Err(Error::Sqlite(e)),
    }
}

/// Applies one change of the remote side. The last change wins, by the day: a
/// task that is not there is inserted under its number, one that changed here
/// on an earlier day is overwritten, and any other is left as it is. The
/// reminders of a task that was written are replaced.
pub fn apply_changed_task(session: &mut Session, task: &ChangedTask) -> (r: Result<(), Error>)
    ensures
        continues(final(session)@, old(session)@),
        apply_changed_task_trace(final(session)@, old(session)@.len() as int, task@) == Some(
            (result_view(r), final(session)@.len() as int),
        ),
{
    broadcast use {lemma_insert_task_row_kept, lemma_update_task_row_kept};

    let local = match local_updated(session, task.task_number) {
        Ok(local) => local,
        Err(e) => return Err(e),
    };
    let row = changed_to_row(task);
    match local {
        None => match sqlite::insert_task_row(session, &row, Some(task.task_number)) {
            Ok(_) => {},
            Err(e) => return Err(e),
        },
        Some(text) => {
            let day = match Date::parse(text.as_str()) {
                Ok(day) => day,
                Err(reason) => {
                    let head = join3(
                        "invalid local updated ",
                        quoted(text.as_str()).as_str(),
                        ": ",
                    );
                    return Err(Error::Config(join(head.as_str(), reason.as_str())));
                },
            };
            if task.updated_at.date_naive().is_after(&day) {
                match sqlite::update_task_row(session, task.task_number, &row) {
                    Ok(_) => {},
                    Err(e) => return Err(e),
                }
            } else {
                return Ok(());
            }
        },
    }
    sqlite::replace_reminds(session, task.task_number, task.reminds.as_slice())
}

// ------------------------------------------------------------------
// push
// ------------------------------------------------------------------

/// A task with its reminders, as it is pushed.
pub open spec fn sync_task(task: TaskView, reminds: Seq<Date>) -> SyncTaskView {
    SyncTaskView {
        task_number: task.id,
        title: task.title,
        status: task.status.word(),
        source: task.source,
        project_name: task.project,
        due: task.due,
        done_at: task.done_at,
        important: task.important,
        updated_at: midnight_of(task.updated),
        created_at: midnight_of(task.created),
        reminds,
    }
}

/// Tasks with their reminders, as they are pushed.
pub open spec fn sync_tasks(tasks: Seq<TaskView>, reminds: Reminds) -> Seq<SyncTaskView> {
    tasks.map_values(|task: TaskView| sync_task(task, reminds_of(reminds, task.id)))
}

fn task_to_sync(task: &Task, reminds: Vec<Date>) -> (r: SyncTask)
    ensures
        r@ == sync_task(task@, reminds@),
{
    SyncTask {
        task_number: task.id,
        title: task.title.clone(),
        status: task.status.as_str().to_owned(),
        source: task.source.clone(),
        project_name: match &task.project {
            Some(name) => Some(name.clone()),
            None => None,
        },
        due: task.due,
        done_at: task.done_at,
        important: task.important,
        updated_at: task.updated.midnight(),
        created_at: task.created.midnight(),
        reminds,
    }
}

/// What is to be pushed, if anything, and the places in the two transcripts
/// behind it.
pub type PushTrace = Option<(Result<Option<Seq<SyncTaskView>>, ErrorView>, int, int)>;

/// The run of [`push`], from the place `at` of the transcript `t` of
/// the tasks and the place `state_at` of the transcript `s` of the state.
pub open spec fn push_trace(
    t: Transcript,
    at: int,
    s: Transcript,
    state_at: int,
    dry_run: bool,
) -> PushTrace {
    match get_trace(s, state_at, "last_push_at"@) {
        None => None,
        Some((Err(e), state_at)) => Some((Err(e), at, state_at)),
        Some((Ok(last), state_at)) => match read_tasks_since_trace(
            t,
            at,
            match last {
                Some(text) => text,
                None => ""@,
            },
        ) {
            None => None,
            Some((Err(e), at)) => Some((Err(e), at, state_at)),
            Some((Ok(tasks), at)) => if tasks.len() == 0 {
                Some((Ok(None), at, state_at))
            } else {
                match read_reminds_trace(t, at, task_ids(tasks)) {
                    None => None,
                    Some((Err(e), at)) => Some((Err(e), at, state_at)),
                    Some((Ok(reminds), at)) => Some(
                        (
                            Ok(
                                if dry_run {
                                    None
                                } else {
                                    Some(sync_tasks(tasks, reminds))
                                },
                            ),
                            at,
                            state_at,
                        ),
                    ),
                }
            },
        },
    }
}

/// The model of what is to be pushed.
pub open spec fn payload_view(r: Result<Option<Vec<SyncTask>>, Error>) -> Result<
    Option<Seq<SyncTaskView>>,
    ErrorView,
> {
    match r {
        Ok(Some(tasks)) => Ok(Some(views(tasks@))),
        Ok(None) => Ok(None),
        Err(e) => Err(e@),
    }
}

/// Collects the tasks that changed since the last push, with their reminders.
/// There is nothing to push where none changed, or in a dry run.
pub fn push(session: &mut Session, state: &mut SyncState, dry_run: bool) -> (r: Result<
    Option<Vec<SyncTask>>,
    Error,
>)
    ensures
        continues(final(session)@, old(session)@),
        continues(final(state)@, old(state)@),
        push_trace(
            final(session)@,
            old(session)@.len() as int,
            final(state)@,
            old(state)@.len() as int,
            dry_run,
        ) == Some((payload_view(r), final(session)@.len() as int, final(state)@.len() as int)),
{
    let last = match state.get("last_push_at") {
        Ok(Some(text)) => text,
        Ok(None) => "".to_owned(),
        Err(e) => return Err(e),
    };
    let tasks = match sqlite::read_tasks_since(session, last.as_str()) {
        Ok(tasks) => tasks,
        Err(e) => return Err(e),
    };
    if tasks.len() == 0 {
        return Ok(None);
    }
    let ids = ids_of(&tasks);
    let reminds = match sqlite::read_reminds_for_tasks(session, ids.as_slice()) {
        Ok(reminds) => reminds,
        Err(e) => return Err(e),
    };
    if dry_run {
        return Ok(None);
    }
    Ok(Some(tasks_to_sync(&tasks, &reminds)))
}

fn tasks_to_sync(
    tasks: &Vec<Task>,
    reminds: &std::collections::HashMap<i64, Vec<Date>>,
) -> (r: Vec<SyncTask>)
    ensures
        views(r@) == sync_tasks(views(tasks@), sqlite::reminds_view(reminds@)),
{
    let ghost map = sqlite::reminds_view(reminds@);
    let mut out: Vec<SyncTask> = Vec::new();
    let mut i: usize = 0;
    while i < tasks.len()
        invariant
            i <= tasks.len(),
            out@.len() == i,
            map == sqlite::reminds_view(reminds@),
            forall|j: int|
                0 <= j < i ==> (#[trigger] out@[j])@ == sync_task(
                    tasks@[j]@,
                    reminds_of(map, tasks@[j].id),
                ),
        decreases tasks.len() - i,
    {
        let dates = take_reminds(reminds, tasks[i].id);
        out.push(task_to_sync(&tasks[i], dates));
        i = i + 1;
    }
    assert(views(out@) =~= sync_tasks(views(tasks@), map));
    out
}

/// The run of [`push_done`].
pub open spec fn push_done_trace(s: Transcript, state_at: int, reply: Result<(), ErrorView>) -> Trace<
    (),
> {
    match reply {
        Err(e) => Some((Err(e), state_at)),
        Ok(_) => match clock_read(s, state_at) {
            None => None,
            Some((now, state_at)) => set_trace(s, state_at, "last_push_at"@, now.iso()),
        },
    }
}

/// Notes the time of a push that succeeded.
pub fn push_done(state: &mut SyncState, reply: Result<PushResponse, Error>) -> (r: Result<
    (),
    Error,
>)
    ensures
        continues(final(state)@, old(state)@),
        push_done_trace(final(state)@, old(state)@.len() as int, outcome_view(reply)) == Some(
            (result_view(r), final(state)@.len() as int),
        ),
{
    match reply {
        Err(e) => Err(e),
        Ok(_) => {
            let now = state.now();
            state.set("last_push_at", now.to_iso().as_str())
        },
    }
}

// ------------------------------------------------------------------
// pull_unsynced
// ------------------------------------------------------------------

/// The columns of a task that the remote side created.
pub open spec fn unsynced_row(task: UnsyncedTaskView) -> TaskRowView {
    TaskRowView {
        title: task.title,
        status: task.status,
        source: task.source,
        project: task.project_name,
        due: task.due,
        done_at: task.done_at,
        created: task.created_at.date(),
        updated: task.updated_at.date(),
        important: task.important,
    }
}

fn unsynced_to_row(task: &UnsyncedTask) -> (r: TaskRow<'_>)
    ensures
        r@ == unsynced_row(task@),
{
    TaskRow {
        title: task.title.as_str(),
        status: task.status.as_str(),
        source: task.source.as_str(),
        project: borrowed(&task.project_name),
        due: task.due,
        done_at: task.done_at,
        created: task.created_at.date_naive(),
        updated: task.updated_at.date_naive(),
        important: task.important,
    }
}

/// The insertion of a task and its reminders.
pub open spec fn unsynced_rows_trace(t: Transcript, at: int, task: UnsyncedTaskView) -> Trace<
    i64,
> {
    match insert_task_row_trace(t, at, unsynced_row(task), None) {
        None => None,
        Some((Err(e), at)) => Some((Err(e), at)),
        Some((Ok(id), at)) => match insert_reminds_trace(t, at, id, task.reminds) {
            None => None,
            Some((Err(e), at)) => Some((Err(e), at)),
            Some((Ok(_), at)) => Some((Ok(id), at)),
        },
    }
}

pub broadcast proof fn lemma_unsynced_rows_kept(
    later: Transcript,
    earlier: Transcript,
    at: int,
    task: UnsyncedTaskView,
)
    requires
        #[trigger] continues(later, earlier),
        (#[trigger] unsynced_rows_trace(earlier, at, task)) is Some,
    ensures
        unsynced_rows_trace(later, at, task) == unsynced_rows_trace(earlier, at, task),
{
    broadcast use {lemma_insert_task_row_kept, lemma_insert_reminds_kept};

}

fn unsynced_rows(session: &mut Session, task: &UnsyncedTask) -> (r: Result<i64, Error>)
    ensures
        continues(final(session)@, old(session)@),
        unsynced_rows_trace(final(session)@, old(session)@.len() as int, task@) == Some(
            (result_view(r), final(session)@.len() as int),
        ),
{
    broadcast use {lemma_insert_task_row_kept, lemma_insert_reminds_kept};

    let id: i64 = match sqlite::insert_task_row(session, &unsynced_to_row(task), None) {
        Ok(id) => id,
        Err(e) => return Err(e),
    };
    match sqlite::insert_reminds(session, id, task.reminds.as_slice()) {
        Ok(_) => Ok(id),
        Err(e) => Err(e),
    }
}

/// The run of [`open_unsynced`].
pub open spec fn open_unsynced_trace(t: Transcript, at: int, task: UnsyncedTaskView) -> Trace<
    i64,
> {
    match begin_trace(t, at) {
        None => None,
        Some((Err(e), at)) => Some((Err(e), at)),
        Some((Ok(_), at)) => match unsynced_rows_trace(t, at, task) {
            None => None,
            Some((Ok(id), at)) => Some((Ok(id), at)),
            Some((Err(e), at)) => match ran(t, at, plain(Statement::Rollback)) {
                None => None,
                Some((_, at)) => Some((Err(e), at)),
            },
        },
    }
}

/// Inserts a task that the remote side created, and gives the number that the
/// database gave to it. The transaction stays open until the remote side has
/// taken the number: see [`close_unsynced`].
pub fn open_unsynced(session: &mut Session, task: &UnsyncedTask) -> (r: Result<i64, Error>)
    ensures
        continues(final(session)@, old(session)@),
        open_unsynced_trace(final(session)@, old(session)@.len() as int, task@) == Some(
            (result_view(r), final(session)@.len() as int),
        ),
{
    broadcast use lemma_unsynced_rows_kept;

    match begin(session) {
        Ok(_) => {},
        Err(e) => return Err(e),
    }
    match unsynced_rows(session, task) {
        Ok(id) => Ok(id),
        Err(e) => {
            let _ = session.run(Statement::Rollback, params0());
            Err(e)
        },
    }
}

/// Ends the transaction of [`open_unsynced`]: a number that the remote side
/// took is committed, any other is rolled back.
pub fn close_unsynced(session: &mut Session, reply: Result<(), Error>) -> (r: Result<(), Error>)
    ensures
        continues(final(session)@, old(session)@),
        settle_trace(final(session)@, old(session)@.len() as int, result_view(reply)) == Some(
            (result_view(r), final(session)@.len() as int),
        ),
{
    settle(session, reply)
}

// ------------------------------------------------------------------
// pull_updates
// ------------------------------------------------------------------

/// The run of [`apply_changes`].
pub open spec fn apply_changes_trace(t: Transcript, at: int, tasks: Seq<ChangedTaskView>) -> Trace<
    (),
>
    decreases tasks.len(),
{
    if tasks.len() == 0 {
        Some((Ok(()), at))
    } else {
        match apply_changes_trace(t, at, tasks.drop_last()) {
            None => None,
            Some((Err(e), at)) => Some((Err(e), at)),
            Some((Ok(_), at)) => apply_changed_task_trace(t, at, tasks.last()),
        }
    }
}

proof fn lemma_apply_changes_kept(
    later: Transcript,
    earlier: Transcript,
    at: int,
    tasks: Seq<ChangedTaskView>,
)
    requires
        continues(later, earlier),
        apply_changes_trace(earlier, at, tasks) is Some,
    ensures
        apply_changes_trace(later, at, tasks) == apply_changes_trace(earlier, at, tasks),
    decreases tasks.len(),
{
    broadcast use lemma_apply_changed_task_kept;

    if tasks.len() > 0 {
        lemma_apply_changes_kept(later, earlier, at, tasks.drop_last());
    }
}

proof fn lemma_apply_changes_stay_failed(
    t: Transcript,
    at: int,
    tasks: Seq<ChangedTaskView>,
    n: int,
)
    requires
        0 <= n <= tasks.len(),
        apply_changes_trace(t, at, tasks.take(n)) matches Some((Err(_), _)),
    ensures
        apply_changes_trace(t, at, tasks) == apply_changes_trace(t, at, tasks.take(n)),
    decreases tasks.len(),
{
    if n < tasks.len() {
        assert(tasks.drop_last().take(n) =~= tasks.take(n));
        lemma_apply_changes_stay_failed(t, at, tasks.drop_last(), n);
    } else {
        assert(tasks.take(n) =~= tasks);
    }
}

/// Applies the changes of the remote side one after the other, up to the first
/// failure.
pub fn apply_changes(session: &mut Session, tasks: &Vec<ChangedTask>) -> (r: Result<(), Error>)
    ensures
        continues(final(session)@, old(session)@),
        apply_changes_trace(final(session)@, old(session)@.len() as int, views(tasks@)) == Some(
            (result_view(r), final(session)@.len() as int),
        ),
{
    let ghost at = session@.len() as int;
    let ghost all = views(tasks@);
    let mut i: usize = 0;
    assert(all.take(0) =~= seq![]);
    while i < tasks.len()
        invariant
            i <= tasks.len(),
            all == views(tasks@),
            at == old(session)@.len(),
            continues(session@, old(session)@),
            apply_changes_trace(session@, at, all.take(i as int)) == Some(
                (Ok::<(), ErrorView>(()), session@.len() as int),
            ),
        decreases tasks.len() - i,
    {
        proof {
            assert(all.take(i + 1).drop_last() =~= all.take(i as int));
            assert(all.take(i + 1).last() == tasks@[i as int]@);
        }
        let ghost before = session@;
        let outcome = apply_changed_task(session, &tasks[i]);
        proof {
            lemma_apply_changes_kept(session@, before, at, all.take(i as int));
        }
        match outcome {
            Ok(_) => {},
            Err(e) => {
                proof {
                    lemma_apply_changes_stay_failed(session@, at, all, i + 1);
                }
                return Err(e);
            },
        }
        i = i + 1;
    }
    assert(all.take(i as int) =~= all);
    Ok(())
}

/// An outcome, and the places in the transcripts of the tasks and of the state
/// behind it.
pub type PairTrace = Option<(Result<(), ErrorView>, int, int)>;

/// The run of [`pull_updates`].
pub open spec fn pull_updates_trace(
    t: Transcript,
    at: int,
    s: Transcript,
    state_at: int,
    dry_run: bool,
    reply: Result<ChangesView, ErrorView>,
) -> PairTrace {
    match reply {
        Err(e) => Some((Err(e), at, state_at)),
        Ok(changes) => if dry_run {
            Some((Ok(()), at, state_at))
        } else {
            match apply_changes_trace(t, at, changes.tasks) {
                None => None,
                Some((Err(e), at)) => Some((Err(e), at, state_at)),
                Some((Ok(_), at)) => match set_trace(
                    s,
                    state_at,
                    "last_pull_at"@,
                    changes.server_time.iso(),
                ) {
                    None => None,
                    Some((r, state_at)) => Some((r, at, state_at)),
                },
            }
        },
    }
}

/// Applies the changes of the remote side and notes the time that it gave. In
/// a dry run nothing is written.
pub fn pull_updates(
    session: &mut Session,
    state: &mut SyncState,
    dry_run: bool,
    reply: Result<ChangesResponse, Error>,
) -> (r: Result<(), Error>)
    ensures
        continues(final(session)@, old(session)@),
        continues(final(state)@, old(state)@),
        pull_updates_trace(
            final(session)@,
            old(session)@.len() as int,
            final(state)@,
            old(state)@.len() as int,
            dry_run,
            result_view(reply),
        ) == Some((result_view(r), final(session)@.len() as int, final(state)@.len() as int)),
{
    let changes = match reply {
        Ok(changes) => changes,
        Err(e) => return Err(e),
    };
    if dry_run {
        return Ok(());
    }
    match apply_changes(session, &changes.tasks) {
        Ok(_) => {},
        Err(e) => return Err(e),
    }
    state.set("last_pull_at", changes.server_time.to_iso().as_str())
}

// ------------------------------------------------------------------
// sync_cycle
// ------------------------------------------------------------------

/// The next call of the remote API, or the end of the cycle.
pub enum CycleStep {
    /// Push these tasks, then call [`after_push`].
    PushTasks(Vec<SyncTask>),
    /// Ask for the tasks without a number, then call [`pull_unsynced`].
    GetUnsynced,
    /// Give a task its number, then call [`after_number`].
    PatchTaskNumber { numbering: Numbering, neon_id: i64, task_number: i64 },
    /// Ask for the changes since this time, then call [`after_changes`].
    GetChanges(Option<String>),
    /// The cycle is over.
    Finished(Result<(), Error>),
}

/// The tasks of the remote side that get a number in this cycle, and the place
/// of the one whose number is on its way.
pub struct Numbering {
    pub pending: Vec<UnsyncedTask>,
    pub place: usize,
}

/// The model of a [`CycleStep`].
pub enum StepView {
    PushTasks(Seq<SyncTaskView>),
    GetUnsynced,
    PatchTaskNumber { pending: Seq<UnsyncedTaskView>, place: int, neon_id: i64, task_number: i64 },
    GetChanges(Option<Seq<char>>),
    Finished(Result<(), ErrorView>),
}

impl View for CycleStep {
    type V = StepView;

    open spec fn view(&self) -> StepView {
        match self {
            CycleStep::PushTasks(tasks) => StepView::PushTasks(views(tasks@)),
            CycleStep::GetUnsynced => StepView::GetUnsynced,
            CycleStep::PatchTaskNumber { numbering, neon_id, task_number } =>
                StepView::PatchTaskNumber {
                pending: views(numbering.pending@),
                place: numbering.place as int,
                neon_id: *neon_id,
                task_number: *task_number,
            },
            CycleStep::GetChanges(since) => StepView::GetChanges(opt_view(*since)),
            CycleStep::Finished(r) => StepView::Finished(result_view(*r)),
        }
    }
}

/// The next step of the cycle, and the places in the transcripts of the tasks
/// and of the state behind what led to it.
pub type StepTrace = Option<(StepView, int, int)>;

/// The run of [`sync_cycle`].
pub open spec fn sync_cycle_trace(
    t: Transcript,
    at: int,
    s: Transcript,
    state_at: int,
    dry_run: bool,
) -> StepTrace {
    match push_trace(t, at, s, state_at, dry_run) {
        None => None,
        Some((Err(e), at, state_at)) => Some((StepView::Finished(Err(e)), at, state_at)),
        Some((Ok(Some(tasks)), at, state_at)) => Some((StepView::PushTasks(tasks), at, state_at)),
        Some((Ok(None), at, state_at)) => Some((StepView::GetUnsynced, at, state_at)),
    }
}

/// Starts a cycle.
pub fn sync_cycle(session: &mut Session, state: &mut SyncState, dry_run: bool) -> (r: CycleStep)
    ensures
        continues(final(session)@, old(session)@),
        continues(final(state)@, old(state)@),
        sync_cycle_trace(
            final(session)@,
            old(session)@.len() as int,
            final(state)@,
            old(state)@.len() as int,
            dry_run,
        ) == Some((r@, final(session)@.len() as int, final(state)@.len() as int)),
{
    match push(session, state, dry_run) {
        Ok(Some(tasks)) => CycleStep::PushTasks(tasks),
        Ok(None) => CycleStep::GetUnsynced,
        Err(e) => CycleStep::Finished(Err(e)),
    }
}

/// The step behind a push.
pub open spec fn after_push_trace(s: Transcript, state_at: int, reply: Result<(), ErrorView>) -> Option<
    (StepView, int),
> {
    match push_done_trace(s, state_at, reply) {
        None => None,
        Some((Err(e), state_at)) => Some((StepView::Finished(Err(e)), state_at)),
        Some((Ok(_), state_at)) => Some((StepView::GetUnsynced, state_at)),
    }
}

/// Goes on after the reply to a push.
pub fn after_push(state: &mut SyncState, reply: Result<PushResponse, Error>) -> (r: CycleStep)
    ensures
        continues(final(state)@, old(state)@),
        after_push_trace(final(state)@, old(state)@.len() as int, outcome_view(reply)) == Some(
            (r@, final(state)@.len() as int),
        ),
{
    match push_done(state, reply) {
        Ok(_) => CycleStep::GetUnsynced,
        Err(e) => CycleStep::Finished(Err(e)),
    }
}

/// The step behind the last task that gets a number: ask for changes since the
/// time that was noted last.
pub open spec fn ask_changes_trace(t: Transcript, at: int, s: Transcript, state_at: int) -> StepTrace {
    match get_trace(s, state_at, "last_pull_at"@) {
        None => None,
        Some((Err(e), state_at)) => Some((StepView::Finished(Err(e)), at, state_at)),
        Some((Ok(since), state_at)) => Some((StepView::GetChanges(since), at, state_at)),
    }
}

fn ask_changes(session: &mut Session, state: &mut SyncState) -> (r: CycleStep)
    ensures
        final(session)@ == old(session)@,
        continues(final(state)@, old(state)@),
        ask_changes_trace(
            final(session)@,
            old(session)@.len() as int,
            final(state)@,
            old(state)@.len() as int,
        ) == Some((r@, final(session)@.len() as int, final(state)@.len() as int)),
{
    match state.get("last_pull_at") {
        Ok(since) => CycleStep::GetChanges(since),
        Err(e) => CycleStep::Finished(Err(e)),
    }
}

/// The step that gives the task at `place` its number, or the one behind the
/// last task.
pub open spec fn number_next_trace(
    t: Transcript,
    at: int,
    s: Transcript,
    state_at: int,
    pending: Seq<UnsyncedTaskView>,
    place: int,
) -> StepTrace {
    if place >= pending.len() {
        ask_changes_trace(t, at, s, state_at)
    } else {
        match open_unsynced_trace(t, at, pending[place]) {
            None => None,
            Some((Err(e), at)) => Some((StepView::Finished(Err(e)), at, state_at)),
            Some((Ok(id), at)) => Some(
                (
                    StepView::PatchTaskNumber {
                        pending,
                        place,
                        neon_id: pending[place].neon_id,
                        task_number: id,
                    },
                    at,
                    state_at,
                ),
            ),
        }
    }
}

fn number_next(
    session: &mut Session,
    state: &mut SyncState,
    pending: Vec<UnsyncedTask>,
    place: usize,
) -> (r: CycleStep)
    ensures
        continues(final(session)@, old(session)@),
        continues(final(state)@, old(state)@),
        number_next_trace(
            final(session)@,
            old(session)@.len() as int,
            final(state)@,
            old(state)@.len() as int,
            views(pending@),
            place as int,
        ) == Some((r@, final(session)@.len() as int, final(state)@.len() as int)),
{
    if place >= pending.len() {
        return ask_changes(session, state);
    }
    let neon_id: i64 = pending[place].neon_id;
    match open_unsynced(session, &pending[place]) {
        Ok(id) => CycleStep::PatchTaskNumber {
            numbering: Numbering { pending, place },
            neon_id,
            task_number: id,
        },
        Err(e) => CycleStep::Finished(Err(e)),
    }
}

/// The step behind the list of the tasks without a number.
pub open spec fn pull_unsynced_trace(
    t: Transcript,
    at: int,
    s: Transcript,
    state_at: int,
    dry_run: bool,
    reply: Result<Seq<UnsyncedTaskView>, ErrorView>,
) -> StepTrace {
    match reply {
        Err(e) => Some((StepView::Finished(Err(e)), at, state_at)),
        Ok(pending) => if dry_run {
            ask_changes_trace(t, at, s, state_at)
        } else {
            number_next_trace(t, at, s, state_at, pending, 0)
        },
    }
}

/// Goes on after the list of the tasks without a number.
pub fn pull_unsynced(
    session: &mut Session,
    state: &mut SyncState,
    dry_run: bool,
    reply: Result<Vec<UnsyncedTask>, Error>,
) -> (r: CycleStep)
    ensures
        continues(final(session)@, old(session)@),
        continues(final(state)@, old(state)@),
        pull_unsynced_trace(
            final(session)@,
            old(session)@.len() as int,
            final(state)@,
            old(state)@.len() as int,
            dry_run,
            list_result_view(reply),
        ) == Some((r@, final(session)@.len() as int, final(state)@.len() as int)),
{
    match reply {
        Err(e) => CycleStep::Finished(Err(e)),
        Ok(pending) => if dry_run {
            ask_changes(session, state)
        } else {
            number_next(session, state, pending, 0)
        },
    }
}

/// The step behind the reply to a number.
pub open spec fn after_number_trace(
    t: Transcript,
    at: int,
    s: Transcript,
    state_at: int,
    pending: Seq<UnsyncedTaskView>,
    place: int,
    reply: Result<(), ErrorView>,
) -> StepTrace {
    match settle_trace(t, at, reply) {
        None => None,
        Some((Err(e), at)) => Some((StepView::Finished(Err(e)), at, state_at)),
        Some((Ok(_), at)) => number_next_trace(t, at, s, state_at, pending, place + 1),
    }
}

/// Goes on after the reply to a number.
pub fn after_number(
    session: &mut Session,
    state: &mut SyncState,
    numbering: Numbering,
    reply: Result<(), Error>,
) -> (r: CycleStep)
    ensures
        continues(final(session)@, old(session)@),
        continues(final(state)@, old(state)@),
        after_number_trace(
            final(session)@,
            old(session)@.len() as int,
            final(state)@,
            old(state)@.len() as int,
            views(numbering.pending@),
            numbering.place as int,
            result_view(reply),
        ) == Some((r@, final(session)@.len() as int, final(state)@.len() as int)),
{
    broadcast use lemma_settle_kept;

    match close_unsynced(session, reply) {
        Ok(_) => {},
        Err(e) => return CycleStep::Finished(Err(e)),
    }
    let Numbering { pending, place } = numbering;
    if place >= pending.len() {
        return ask_changes(session, state);
    }
    number_next(session, state, pending, place + 1)
}

/// The end of the cycle behind the changes of the remote side.
pub open spec fn after_changes_trace(
    t: Transcript,
    at: int,
    s: Transcript,
    state_at: int,
    dry_run: bool,
    reply: Result<ChangesView, ErrorView>,
) -> StepTrace {
    match pull_updates_trace(t, at, s, state_at, dry_run, reply) {
        None => None,
        Some((r, at, state_at)) => Some((StepView::Finished(r), at, state_at)),
    }
}

/// Ends the cycle after the changes of the remote side.
pub fn after_changes(
    session: &mut Session,
    state: &mut SyncState,
    dry_run: bool,
    reply: Result<ChangesResponse, Error>,
) -> (r: CycleStep)
    ensures
        continues(final(session)@, old(session)@),
        continues(final(state)@, old(state)@),
        after_changes_trace(
            final(session)@,
            old(session)@.len() as int,
            final(state)@,
            old(state)@.len() as int,
            dry_run,
            result_view(reply),
        ) == Some((r@, final(session)@.len() as int, final(state)@.len() as int)),
{
    CycleStep::Finished(pull_updates(session, state, dry_run, reply))
}

} // verus!
