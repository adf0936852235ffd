//! Requests that fail leave the database as it was.

use vstd::prelude::*;

use crate::date::Date;
use crate::effects::{lemma_broken_reminds, lemma_insert_reminds_ends_later};
use crate::error::ErrorView;
use crate::http::transaction::{begin_trace, settle_trace};
use crate::http::{projects, tasks};
use crate::json::{field, Json};
use crate::model::{ProjectResponseView, TaskCreateView, TaskResponseView};
use crate::session::{Event, Transcript};
use crate::sqlite::{
    insert_reminds_trace, insert_task_row_trace, read_reminds_trace, read_task_by_id_trace,
    replace_reminds_trace, resolve_project_trace, update_task_row_trace, TaskRowView,
};
use crate::tables::{broken_off, faithful, no_failures, steps, Database, History};

verus! {

/// What is left after a rollback did not change, and after success the
/// transaction is still open.
pub open spec fn undecided(before: Database, after: Database, ok: bool) -> bool {
    after.committed == before.committed && (ok ==> after.open)
}

proof fn lemma_resolve_project_undecided(
    t: Transcript,
    h: History,
    at: int,
    to: int,
    name: Seq<char>,
)
    requires
        steps(t, h, at, to),
        h[at].open,
        resolve_project_trace(t, at, name) matches Some((_, end)) && end <= to,
    ensures
        resolve_project_trace(t, at, name) matches Some((r, end)) && at <= end && undecided(
            h[at],
            h[end],
            r is Ok,
        ),
{
}

pub(crate) proof fn lemma_insert_task_row_undecided(
    t: Transcript,
    h: History,
    at: int,
    to: int,
    row: TaskRowView,
    explicit_id: Option<i64>,
)
    requires
        steps(t, h, at, to),
        h[at].open,
        insert_task_row_trace(t, at, row, explicit_id) matches Some((_, end)) && end <= to,
    ensures
        insert_task_row_trace(t, at, row, explicit_id) matches Some((r, end)) && at <= end
            && undecided(h[at], h[end], r is Ok),
{
    if row.project is Some {
        assert(resolve_project_trace(t, at, row.project->0) is Some);
        lemma_resolve_project_undecided(t, h, at, to, row.project->0);
    }
}

proof fn lemma_update_task_row_undecided(
    t: Transcript,
    h: History,
    at: int,
    to: int,
    id: i64,
    row: TaskRowView,
)
    requires
        steps(t, h, at, to),
        h[at].open,
        update_task_row_trace(t, at, id, row) matches Some((_, end)) && end <= to,
    ensures
        update_task_row_trace(t, at, id, row) matches Some((r, end)) && at <= end && undecided(
            h[at],
            h[end],
            r is Ok,
        ),
{
    if row.project is Some {
        assert(resolve_project_trace(t, at, row.project->0) is Some);
        lemma_resolve_project_undecided(t, h, at, to, row.project->0);
    }
}

pub(crate) proof fn lemma_insert_reminds_undecided(
    t: Transcript,
    h: History,
    at: int,
    to: int,
    id: i64,
    dates: Seq<Date>,
)
    requires
        steps(t, h, at, to),
        h[at].open,
        insert_reminds_trace(t, at, id, dates) matches Some((_, end)) && end <= to,
    ensures
        insert_reminds_trace(t, at, id, dates) matches Some((r, end)) && at <= end && undecided(
            h[at],
            h[end],
            r is Ok,
        ),
    decreases dates.len(),
{
    if dates.len() > 0 {
        lemma_insert_reminds_undecided(t, h, at, to, id, dates.drop_last());
    }
}

proof fn lemma_replace_reminds_undecided(
    t: Transcript,
    h: History,
    at: int,
    to: int,
    id: i64,
    dates: Seq<Date>,
)
    requires
        steps(t, h, at, to),
        h[at].open,
        replace_reminds_trace(t, at, id, dates) matches Some((_, end)) && end <= to,
    ensures
        replace_reminds_trace(t, at, id, dates) matches Some((r, end)) && at <= end && undecided(
            h[at],
            h[end],
            r is Ok,
        ),
{
    lemma_insert_reminds_ends_later(t, at + 1, id, dates);
    if insert_reminds_trace(t, at + 1, id, dates) matches Some((_, end)) && end <= to && h[at
        + 1].open {
        lemma_insert_reminds_undecided(t, h, at + 1, to, id, dates);
    }
}

proof fn lemma_read_reminds_undecided(t: Transcript, h: History, at: int, to: int, ids: Seq<i64>)
    requires
        steps(t, h, at, to),
        h[at].open,
        read_reminds_trace(t, at, ids) matches Some((_, end)) && end <= to,
    ensures
        read_reminds_trace(t, at, ids) matches Some((r, end)) && at <= end && undecided(
            h[at],
            h[end],
            r is Ok,
        ),
{
    if ids.len() > 0 {
        match t[at] {
            Event::FetchedRows { call, rows: Ok(rows) } => if broken_off(rows) {
                lemma_broken_reminds(rows);
            },
            _ => {},
        }
    }
}

proof fn lemma_read_back_undecided(
    t: Transcript,
    h: History,
    at: int,
    to: int,
    id: i64,
    missing: ErrorView,
)
    requires
        steps(t, h, at, to),
        h[at].open,
        tasks::read_back_trace(t, at, id, missing) matches Some((_, end)) && end <= to,
    ensures
        tasks::read_back_trace(t, at, id, missing) matches Some((r, end)) && at <= end
            && undecided(h[at], h[end], r is Ok),
{
    if let Some((Ok(Some(_)), mid)) = read_task_by_id_trace(t, at, id) {
        lemma_read_reminds_undecided(t, h, mid, to, seq![id]);
    }
}

/// Ends a transaction that had left what a rollback leaves as it was: success
/// makes the changes final, an error takes them back.
pub(crate) proof fn lemma_settle<T>(
    t: Transcript,
    h: History,
    at: int,
    to: int,
    outcome: Result<T, ErrorView>,
)
    requires
        steps(t, h, at, to),
        outcome is Ok ==> h[at].open,
        settle_trace(t, at, outcome) matches Some((_, end)) && end <= to,
    ensures
        settle_trace(t, at, outcome) matches Some((r, end)) && at < end && !h[end].open
            && h[end].working == h[end].committed && match r {
            Ok(_) => outcome is Ok && h[end].committed == h[at].working && end == at + 1,
            Err(_) => h[end].committed == h[at].committed,
        },
{
}

/// Before a request that writes and after one that failed, the database holds
/// the same, and no transaction is open.
pub open spec fn left_alone(before: Database, after: Database) -> bool {
    !after.open && after.committed == before.committed && after.working == before.working
}

/// A request to create a task that fails leaves the database as it was.
pub proof fn law_failed_creation_changes_nothing(
    t: Transcript,
    h: History,
    at: int,
    end: int,
    body: Json,
    parsed: Result<TaskCreateView, Seq<char>>,
    error: ErrorView,
)
    requires
        faithful(t, h, at, end),
        !h[at].open,
        tasks::create_task_trace(t, at, body, parsed) == Some(
            (Err::<TaskResponseView, ErrorView>(error), end),
        ),
    ensures
        left_alone(h[at], h[end]),
{
    if tasks::create_refusal(body, parsed) is None {
        let dto = parsed->Ok_0;
        if let Some((Ok(_), begun)) = begin_trace(t, at) {
            let (outcome, worked) = tasks::create_in_transaction_trace(t, begun, dto)->0;
            lemma_settle_ends_later(t, worked, outcome);
            lemma_create_ends_later(t, begun, dto);
            lemma_create_undecided(t, h, begun, end, dto);
            lemma_settle(t, h, worked, end, outcome);
        }
    }
}

pub(crate) proof fn lemma_settle_ends_later<T>(t: Transcript, at: int, outcome: Result<T, ErrorView>)
    ensures
        settle_trace(t, at, outcome) matches Some((_, end)) ==> at < end <= at + 2,
{
}

#[verifier::rlimit(40)]
pub(crate) proof fn lemma_create_undecided(
    t: Transcript,
    h: History,
    at: int,
    to: int,
    dto: TaskCreateView,
)
    requires
        steps(t, h, at, to),
        h[at].open,
        tasks::create_in_transaction_trace(t, at, dto) matches Some((_, end)) && end <= to,
    ensures
        tasks::create_in_transaction_trace(t, at, dto) matches Some((r, end)) && at <= end
            && undecided(h[at], h[end], r is Ok),
{
    let row = tasks::create_row(dto);
    let missing = ErrorView::Config("just-inserted task disappeared from SQLite"@);
    let (inserted, a) = insert_task_row_trace(t, at, row, None)->0;
    if inserted is Ok {
        let id = inserted->Ok_0;
        lemma_replace_reminds_ends_later(t, a, id, dto.reminds);
        let (replaced, b) = replace_reminds_trace(t, a, id, dto.reminds)->0;
        if replaced is Ok {
            lemma_read_back_ends_later(t, b, id, missing);
        }
        lemma_insert_task_row_undecided(t, h, at, to, row, None);
        lemma_replace_reminds_undecided(t, h, a, to, id, dto.reminds);
        if replaced is Ok {
            lemma_read_back_undecided(t, h, b, to, id, missing);
        }
    } else {
        lemma_insert_task_row_undecided(t, h, at, to, row, None);
    }
}

pub(crate) proof fn lemma_replace_reminds_ends_later(t: Transcript, at: int, id: i64, dates: Seq<Date>)
    ensures
        replace_reminds_trace(t, at, id, dates) matches Some((_, end)) ==> at < end,
{
    lemma_insert_reminds_ends_later(t, at + 1, id, dates);
}

pub(crate) proof fn lemma_read_back_ends_later(t: Transcript, at: int, id: i64, missing: ErrorView)
    ensures
        tasks::read_back_trace(t, at, id, missing) matches Some((_, end)) ==> at < end,
{
}

pub(crate) proof fn lemma_create_ends_later(t: Transcript, at: int, dto: TaskCreateView)
    ensures
        tasks::create_in_transaction_trace(t, at, dto) matches Some((_, end)) ==> at < end,
{
    if let Some((Ok(id), a)) = insert_task_row_trace(t, at, tasks::create_row(dto), None) {
        lemma_replace_reminds_ends_later(t, a, id, dto.reminds);
    }
}

pub(crate) proof fn lemma_patch_ends_later(t: Transcript, at: int, id: i64, body: Json)
    ensures
        tasks::patch_in_transaction_trace(t, at, id, body) matches Some((_, end)) ==> at < end,
        tasks::patched_reminds_trace(t, at, body, id) matches Some((_, end)) ==> at <= end,
{
    assert forall|a: int, dates: Seq<Date>|
        (#[trigger] replace_reminds_trace(t, a, id, dates)) is Some implies a < (
    replace_reminds_trace(t, a, id, dates)->0).1 by {
        lemma_replace_reminds_ends_later(t, a, id, dates);
    }
}

#[verifier::rlimit(40)]
pub(crate) proof fn lemma_patch_undecided(t: Transcript, h: History, at: int, to: int, id: i64, body: Json)
    requires
        steps(t, h, at, to),
        h[at].open,
        tasks::patch_in_transaction_trace(t, at, id, body) matches Some((_, end)) && end <= to,
    ensures
        tasks::patch_in_transaction_trace(t, at, id, body) matches Some((r, end)) && at <= end
            && undecided(h[at], h[end], r is Ok),
{
    let missing = ErrorView::Config("task disappeared after UPDATE"@);
    if let Some((Ok(Some(existing)), a)) = read_task_by_id_trace(t, at, id) {
        if tasks::patched_row(body, existing, existing.updated) is Ok {
            if let Some((Ok(updated), b)) = tasks::patched_updated_trace(t, a, body) {
                let row = tasks::patched_row(body, existing, updated)->Ok_0;
                let (wrote, c) = update_task_row_trace(t, b, id, row)->0;
                if wrote is Ok {
                    lemma_patch_ends_later(t, c, id, body);
                    let (reminded, d) = tasks::patched_reminds_trace(t, c, body, id)->0;
                    if reminded is Ok {
                        lemma_read_back_ends_later(t, d, id, missing);
                    }
                    lemma_update_task_row_undecided(t, h, b, to, id, row);
                    lemma_patched_reminds_undecided(t, h, c, to, id, body);
                    if reminded is Ok {
                        lemma_read_back_undecided(t, h, d, to, id, missing);
                    }
                } else {
                    lemma_update_task_row_undecided(t, h, b, to, id, row);
                }
            }
        }
    }
}

proof fn lemma_patched_reminds_undecided(
    t: Transcript,
    h: History,
    at: int,
    to: int,
    id: i64,
    body: Json,
)
    requires
        steps(t, h, at, to),
        h[at].open,
        tasks::patched_reminds_trace(t, at, body, id) matches Some((_, end)) && end <= to,
    ensures
        tasks::patched_reminds_trace(t, at, body, id) matches Some((r, end)) && at <= end
            && undecided(h[at], h[end], r is Ok),
{
    if let Some(value) = field(body, "reminds"@) {
        if let Ok(dates) = tasks::remind_dates(value) {
            lemma_replace_reminds_undecided(t, h, at, to, id, dates);
        }
    }
}

/// A request to change a task that fails leaves the database as it was.
pub proof fn law_failed_patch_changes_nothing(
    t: Transcript,
    h: History,
    at: int,
    end: int,
    id: i64,
    body: Json,
    error: ErrorView,
)
    requires
        faithful(t, h, at, end),
        !h[at].open,
        tasks::patch_task_trace(t, at, id, body) == Some(
            (Err::<TaskResponseView, ErrorView>(error), end),
        ),
    ensures
        left_alone(h[at], h[end]),
{
    if tasks::patch_refusal(body) is None {
        if let Some((Ok(_), begun)) = begin_trace(t, at) {
            let (outcome, worked) = tasks::patch_in_transaction_trace(t, begun, id, body)->0;
            lemma_settle_ends_later(t, worked, outcome);
            lemma_patch_ends_later(t, begun, id, body);
            lemma_patch_undecided(t, h, begun, end, id, body);
            lemma_settle(t, h, worked, end, outcome);
        }
    }
}

/// A request to create a project that fails leaves the database as it was.
pub proof fn law_failed_project_creation_changes_nothing(
    t: Transcript,
    h: History,
    at: int,
    end: int,
    body: Json,
    error: ErrorView,
)
    requires
        faithful(t, h, at, end),
        !h[at].open,
        projects::create_project_trace(t, at, body) == Some(
            (Err::<ProjectResponseView, ErrorView>(error), end),
        ),
    ensures
        left_alone(h[at], h[end]),
{
    if let Ok(name) = projects::name_in(body) {
        if let Some((Ok(_), begun)) = begin_trace(t, at) {
            let (outcome, worked) = projects::create_in_transaction_trace(t, begun, name)->0;
            lemma_settle_ends_later(t, worked, outcome);
            lemma_settle(t, h, worked, end, outcome);
        }
    }
}

/// A request to rename a project that fails leaves the database as it was.
pub proof fn law_failed_rename_changes_nothing(
    t: Transcript,
    h: History,
    at: int,
    end: int,
    id: i64,
    body: Json,
    error: ErrorView,
)
    requires
        faithful(t, h, at, end),
        !h[at].open,
        projects::update_project_trace(t, at, id, body) == Some(
            (Err::<ProjectResponseView, ErrorView>(error), end),
        ),
    ensures
        left_alone(h[at], h[end]),
{
    if let Ok(name) = projects::name_in(body) {
        if let Some((Ok(_), begun)) = begin_trace(t, at) {
            let (outcome, worked) = projects::update_in_transaction_trace(t, begun, id, name)->0;
            lemma_settle_ends_later(t, worked, outcome);
            lemma_settle(t, h, worked, end, outcome);
        }
    }
}

/// A request to delete a project that fails leaves the database as it was.
pub proof fn law_failed_deletion_changes_nothing(
    t: Transcript,
    h: History,
    at: int,
    end: int,
    id: i64,
    error: ErrorView,
)
    requires
        faithful(t, h, at, end),
        !h[at].open,
        projects::delete_project_request_trace(t, at, id) == Some(
            (Err::<(), ErrorView>(error), end),
        ),
    ensures
        left_alone(h[at], h[end]),
{
    if let Some((Ok(_), begun)) = begin_trace(t, at) {
        let (outcome, worked) = projects::delete_in_transaction_trace(t, begun, id)->0;
        lemma_settle_ends_later(t, worked, outcome);
        lemma_settle(t, h, worked, end, outcome);
    }
}

/// Whether a request that ran between two places was answered with this error,
/// or with one that tells that the database failed, where it did.
pub open spec fn answers_error<T>(
    t: Transcript,
    from: int,
    to: int,
    r: Result<T, ErrorView>,
    error: ErrorView,
) -> bool {
    &&& r matches Err(e) && (e == error || e is Sqlite)
    &&& no_failures(t, from, to) ==> r == Err::<T, ErrorView>(error)
}

} // verus!
