//! Laws of the sync cycle.

use vstd::prelude::*;

use crate::date::{law_dates_read_back, law_every_instant_has_a_day, read_date};
use crate::effects::{
    keeps_projects, lemma_broken_tasks, lemma_insert_reminds_effect,
    lemma_insert_reminds_ends_later, lemma_insert_reminds_succeeds, lemma_insert_task_row_effect,
    lemma_insert_task_row_succeeds, lemma_read_reminds_effect, lemma_read_reminds_succeeds,
    lemma_replace_reminds_effect, lemma_replace_reminds_succeeds, lemma_task_rows_succeed,
    lemma_tasks_of_rows, lemma_update_task_row_effect, lemma_update_task_row_succeeds,
    names_project, newest, record, shows_reminds, texts_of,
};
use crate::error::ErrorView;
use crate::http::tasks::task_ids;
use crate::http::transaction::{begin_trace, settle_trace};
use crate::laws::columns::{
    holds_changed, holds_unsynced, law_rows_are_read_by_columns, lemma_midnights, pushes_columns,
};
use crate::laws::failures::{
    left_alone, lemma_insert_reminds_undecided, lemma_insert_task_row_undecided,
    lemma_replace_reminds_ends_later,
};
use crate::laws::tasks::all_readable;
use crate::model::{ChangedTaskView, ChangesView, SyncTaskView, UnsyncedTaskView};
use crate::session::{Event, Transcript};
use crate::sql::ParamView;
use crate::sqlite::{
    insert_reminds_trace, insert_task_row_trace, read_reminds_trace, read_tasks_since_trace,
    reminds_of, task_of_row, update_task_row_trace, with_id, with_text,
};
use crate::statement::Statement;
use crate::sync_engine::{
    after_changes_trace, apply_changed_task_trace, apply_changes_trace, changed_row,
    local_updated_trace, open_unsynced_trace, pull_unsynced_trace, push_done_trace, push_trace,
    sync_cycle_trace, sync_task, unsynced_row,
};
use crate::sync_state::{get_trace, set_trace, write_call};
use crate::tables::{
    broken_off, faithful, follows, lemma_settled, lists, no_failures, task_rows, tells_failure,
    History, Tables,
};

verus! {

// ------------------------------------------------------------------
// Last change wins
// ------------------------------------------------------------------

/// Whether the tables after are those before with the remote task written in
/// place of what was there.
pub open spec fn takes_remote(before: Tables, after: Tables, task: ChangedTaskView) -> bool {
    let n = task.task_number;
    &&& after.tasks.contains_key(n)
    &&& exists|project_id: Option<i64>|
        after.tasks[n] == #[trigger] record(changed_row(task), project_id) && names_project(
            after,
            changed_row(task),
            project_id,
        )
    &&& holds_changed(after, after.tasks[n], task)
    &&& after.tasks.remove(n) == before.tasks.remove(n)
    &&& keeps_projects(before, after)
    &&& after.remind_texts(n) == texts_of(task.reminds).to_multiset()
    &&& forall|other: i64|
        other != n ==> #[trigger] after.remind_texts(other) == before.remind_texts(other)
}

/// A change of the remote side is taken where the task is not here, or changed
/// here on an earlier day. Any other task is left as it is, with its reminders.
#[verifier::rlimit(40)]
pub proof fn law_last_change_wins(
    t: Transcript,
    h: History,
    at: int,
    end: int,
    task: ChangedTaskView,
)
    requires
        faithful(t, h, at, end),
        apply_changed_task_trace(t, at, task) == Some((Ok::<(), ErrorView>(()), end)),
    ensures
        if h[at].working.tasks.contains_key(task.task_number) {
            let local = read_date(h[at].working.tasks[task.task_number].updated);
            &&& local is Ok
            &&& if task.updated_at.date().after(local->Ok_0) {
                takes_remote(h[at].working, h[end].working, task)
            } else {
                h[end] == h[at]
            }
        } else {
            takes_remote(h[at].working, h[end].working, task)
        },
{
    let n = task.task_number;
    let w = h[at].working;
    let row = changed_row(task);
    let (local, a) = local_updated_trace(t, at, n)->0;
    assert(with_id(Statement::TaskUpdated, n).params[0] == ParamView::Integer(n));
    if local == Ok::<Option<Seq<char>>, ErrorView>(None) {
        let (inserted, b) = insert_task_row_trace(t, a, row, Some(n))->0;
        lemma_replace_reminds_ends_later(t, b, n, task.reminds);
        assert(follows(h[at], t[at], h[a]));
        assert(!w.tasks.contains_key(n));
        let project_id = lemma_insert_task_row_effect(t, h, a, row, Some(n), inserted->Ok_0, b);
        lemma_replace_reminds_effect(t, h, b, n, task.reminds, end);
        assert(h[end].working.tasks[n] == record(row, project_id));
        assert(h[end].working.tasks.remove(n) =~= w.tasks.remove(n));
        assert forall|other: i64| other != n implies #[trigger] h[end].working.remind_texts(other)
            == w.remind_texts(other) by {
            assert(h[b].working.remind_texts(other) == w.remind_texts(other));
        }
    } else {
        let text = local->Ok_0->0;
        let day = read_date(text)->Ok_0;
        if task.updated_at.date().after(day) {
            let (_, b) = update_task_row_trace(t, a, n, row)->0;
            lemma_replace_reminds_ends_later(t, b, n, task.reminds);
            assert(follows(h[at], t[at], h[a]));
            assert(w.tasks.contains_key(n));
            assert(text == w.tasks[n].updated);
            let project_id = lemma_update_task_row_effect(t, h, a, n, row, b);
            lemma_replace_reminds_effect(t, h, b, n, task.reminds, end);
            assert(h[end].working.tasks[n] == record(row, project_id));
            assert(h[end].working.tasks.remove(n) =~= w.tasks.remove(n));
            assert forall|other: i64| other != n implies #[trigger] h[end].working.remind_texts(
                other,
            ) == w.remind_texts(other) by {
                assert(h[b].working.remind_texts(other) == w.remind_texts(other));
            }
        } else {
            assert(follows(h[at], t[at], h[a]));
            assert(w.tasks.contains_key(n));
            assert(text == w.tasks[n].updated);
        }
    }
}

/// A change of the remote side is applied, or left where the local task is not
/// older, unless the database fails or the local day cannot be read.
#[verifier::rlimit(40)]
pub proof fn law_applying_succeeds(
    t: Transcript,
    h: History,
    at: int,
    end: int,
    task: ChangedTaskView,
    outcome: Result<(), ErrorView>,
)
    requires
        faithful(t, h, at, end),
        no_failures(t, at, end),
        h[at].working.tasks.contains_key(task.task_number) ==> read_date(
            h[at].working.tasks[task.task_number].updated,
        ) is Ok,
        apply_changed_task_trace(t, at, task) == Some((outcome, end)),
    ensures
        outcome is Ok,
{
    let n = task.task_number;
    let row = changed_row(task);
    let w = h[at].working;
    let a = at + 1;
    assert(with_id(Statement::TaskUpdated, n).params[0] == ParamView::Integer(n));
    let (local, _) = local_updated_trace(t, at, n)->0;
    assert(t.len() >= a);
    if local == Ok::<Option<Seq<char>>, ErrorView>(None) {
        let (inserted, b) = insert_task_row_trace(t, a, row, Some(n))->0;
        if inserted is Ok {
            lemma_replace_reminds_ends_later(t, b, n, task.reminds);
        }
        lemma_insert_task_row_succeeds(t, h, a, row, Some(n), inserted, b);
        lemma_replace_reminds_succeeds(t, b, n, task.reminds, outcome, end);
    } else {
        if let Ok(Some(text)) = local {
            if read_date(text) is Ok && task.updated_at.date().after(read_date(text)->Ok_0) {
                let (updated, b) = update_task_row_trace(t, a, n, row)->0;
                if updated is Ok {
                    lemma_replace_reminds_ends_later(t, b, n, task.reminds);
                }
            }
        }
        assert(end >= a);
        assert(follows(h[at], t[at], h[a]));
        assert(!tells_failure(t[at]));
        assert(w.tasks.contains_key(n));
        let text = w.tasks[n].updated;
        assert(local == Ok::<Option<Seq<char>>, ErrorView>(Some(text)));
        let day = read_date(text)->Ok_0;
        if task.updated_at.date().after(day) {
            let (updated, b) = update_task_row_trace(t, a, n, row)->0;
            lemma_update_task_row_succeeds(t, h, a, n, row, updated, b);
            lemma_replace_reminds_succeeds(t, b, n, task.reminds, outcome, end);
        }
    }
}

/// A change that was applied once is not applied again: the second time succeeds
/// and changes nothing, unless the database fails.
pub proof fn law_applying_twice_changes_nothing(
    t: Transcript,
    h: History,
    at: int,
    mid: int,
    end: int,
    task: ChangedTaskView,
    again: Result<(), ErrorView>,
)
    requires
        faithful(t, h, at, end),
        at <= mid <= end,
        task.updated_at.valid(),
        apply_changed_task_trace(t, at, task) == Some((Ok::<(), ErrorView>(()), mid)),
        apply_changed_task_trace(t, mid, task) == Some((again, end)),
    ensures
        no_failures(t, mid, end) ==> again is Ok,
        again is Ok ==> h[end] == h[mid],
{
    lemma_settled(t, h, at, end, mid);
    law_last_change_wins(t, h, at, mid, task);
    law_every_instant_has_a_day(task.updated_at);
    law_dates_read_back(task.updated_at.date());
    if no_failures(t, mid, end) {
        law_applying_succeeds(t, h, mid, end, task, again);
    }
    if again is Ok {
        law_last_change_wins(t, h, mid, end, task);
    }
}

// ------------------------------------------------------------------
// Push
// ------------------------------------------------------------------

/// A push carries the tasks of the table whose last change is later than the
/// time of the last push, in the order of their numbers, each with its
/// reminders. Where no push was made before, it carries every task that has a
/// day of change.
pub proof fn law_push_carries_what_changed(
    t: Transcript,
    h: History,
    at: int,
    end: int,
    s: Transcript,
    state_at: int,
    state_end: int,
    since: Option<Seq<char>>,
    payload: Seq<SyncTaskView>,
) -> (ids: Seq<i64>)
    requires
        faithful(t, h, at, end),
        get_trace(s, state_at, "last_push_at"@) == Some(
            (Ok::<Option<Seq<char>>, ErrorView>(since), state_end),
        ),
        push_trace(t, at, s, state_at, false) == Some(
            (Ok::<Option<Seq<SyncTaskView>>, ErrorView>(Some(payload)), end, state_end),
        ),
    ensures
        h[end] == h[at],
        payload.len() == ids.len(),
        lists(ids, h[at].working.changed_after(since.unwrap_or(seq![])), -1),
        forall|i: int|
            0 <= i < ids.len() ==> carries_stored(h[at].working, #[trigger] ids[i], payload[i]),
{
    reveal_strlit("");
    assert(""@ =~= seq![]);
    let last = since.unwrap_or(seq![]);
    let w = h[at].working;
    let (read, a) = read_tasks_since_trace(t, at, last)->0;
    let found = read->Ok_0;
    let (reminded, b) = read_reminds_trace(t, a, task_ids(found))->0;
    let reminds = reminded->Ok_0;
    assert(follows(h[at], t[at], h[a]));
    let call = with_text(Statement::TasksUpdatedAfter, last);
    assert(call.params[0] == ParamView::Text(last));
    let rows = match t[at] {
        Event::FetchedRows { call, rows: Ok(rows) } => rows,
        _ => arbitrary(),
    };
    if broken_off(rows) {
        lemma_broken_tasks(rows);
    }
    let ids = choose|ids: Seq<i64>|
        rows == #[trigger] task_rows(w, ids) && lists(ids, w.changed_after(last), -1);
    lemma_tasks_of_rows(w, ids, found);
    assert(task_ids(found) =~= ids);
    lemma_read_reminds_effect(t, h, a, ids, reminds, b);
    assert forall|i: int| 0 <= i < ids.len() implies carries_stored(
        w,
        #[trigger] ids[i],
        payload[i],
    ) by {
        assert(payload[i] == sync_task(found[i], reminds_of(reminds, ids[i])));
        law_rows_are_read_by_columns(w, ids[i]);
        lemma_midnights(found[i], w, ids[i]);
        assert(shows_reminds(w, ids[i], reminds_of(reminds, ids[i])));
    }
    ids
}

/// What is to be pushed is collected where every task can be read, unless a
/// database fails.
pub proof fn law_push_is_collected(
    t: Transcript,
    h: History,
    at: int,
    end: int,
    s: Transcript,
    states: History,
    state_at: int,
    state_end: int,
    dry_run: bool,
    payload: Result<Option<Seq<SyncTaskView>>, ErrorView>,
)
    requires
        faithful(t, h, at, end),
        faithful(s, states, state_at, state_end),
        no_failures(t, at, end),
        no_failures(s, state_at, state_end),
        all_readable(h[at].working),
        push_trace(t, at, s, state_at, dry_run) == Some((payload, end, state_end)),
    ensures
        payload is Ok,
{
    let key = "last_push_at"@;
    assert(with_text(Statement::ReadState, key).params[0] == ParamView::Text(key));
    assert(follows(states[state_at], s[state_at], states[state_at + 1]));
    assert(!tells_failure(s[state_at]));
    let (last, _) = get_trace(s, state_at, key)->0;
    assert(last is Ok);
    let since = match last->Ok_0 {
        Some(text) => text,
        None => ""@,
    };
    let w = h[at].working;
    let (read, a) = read_tasks_since_trace(t, at, since)->0;
    assert(at < a);
    if read is Ok && (read->Ok_0).len() > 0 {
        assert(a <= end);
    }
    assert(follows(h[at], t[at], h[a]));
    assert(!tells_failure(t[at]));
    let call = with_text(Statement::TasksUpdatedAfter, since);
    assert(call.params[0] == ParamView::Text(since));
    let rows = match t[at] {
        Event::FetchedRows { call, rows: Ok(rows) } => rows,
        _ => arbitrary(),
    };
    let ids = choose|ids: Seq<i64>|
        rows == #[trigger] task_rows(w, ids) && lists(ids, w.changed_after(since), -1);
    assert forall|i: int| 0 <= i < ids.len() implies w.tasks.contains_key(#[trigger] ids[i]) by {
        assert(w.changed_after(since)(ids[i]));
    }
    lemma_task_rows_succeed(w, ids);
    let found = read->Ok_0;
    lemma_tasks_of_rows(w, ids, found);
    if found.len() > 0 {
        assert(task_ids(found) =~= ids);
        let (reminded, b) = read_reminds_trace(t, a, ids)->0;
        lemma_read_reminds_succeeds(t, h, a, ids, reminded, b);
    }
}

/// Whether `pushed` is the task of the table, with its reminders.
pub open spec fn carries_stored(w: Tables, id: i64, pushed: SyncTaskView) -> bool {
    &&& task_of_row(w.task_row(id)) is Ok
    &&& pushed == sync_task(task_of_row(w.task_row(id))->Ok_0, pushed.reminds)
    &&& shows_reminds(w, id, pushed.reminds)
    &&& pushes_columns(w, id, pushed)
}

// ------------------------------------------------------------------
// Numbers
// ------------------------------------------------------------------

/// A task of the remote side whose number is not taken there is not kept here:
/// the database is as it was, and the next cycle starts over.
pub proof fn law_refused_number_changes_nothing(
    t: Transcript,
    h: History,
    at: int,
    mid: int,
    end: int,
    task: UnsyncedTaskView,
    id: i64,
    refusal: ErrorView,
    outcome: Result<(), ErrorView>,
)
    requires
        faithful(t, h, at, end),
        !h[at].open,
        open_unsynced_trace(t, at, task) == Some((Ok::<i64, ErrorView>(id), mid)),
        settle_trace(t, mid, Err::<(), ErrorView>(refusal)) == Some((outcome, end)),
    ensures
        outcome == Err::<(), ErrorView>(refusal),
        left_alone(h[at], h[end]),
{
    let begun = at + 1;
    let row = unsynced_row(task);
    let (inserted, a) = insert_task_row_trace(t, begun, row, None)->0;
    lemma_insert_reminds_ends_later(t, a, id, task.reminds);
    assert(follows(h[at], t[at], h[begun]));
    lemma_insert_task_row_undecided(t, h, begun, end, row, None);
    lemma_insert_reminds_undecided(t, h, a, end, id, task.reminds);
    assert(follows(h[mid], t[mid], h[end]));
}

/// A task of the remote side whose number is taken there is kept here, under
/// that number, which is positive and greater than all others. No other task and
/// no reminder of another task changed.
pub proof fn law_taken_number_is_kept(
    t: Transcript,
    h: History,
    at: int,
    mid: int,
    end: int,
    task: UnsyncedTaskView,
    id: i64,
) -> (project_id: Option<i64>)
    requires
        faithful(t, h, at, end),
        !h[at].open,
        open_unsynced_trace(t, at, task) == Some((Ok::<i64, ErrorView>(id), mid)),
        settle_trace(t, mid, Ok::<(), ErrorView>(())) == Some((Ok::<(), ErrorView>(()), end)),
    ensures
        !h[end].open,
        h[end].working == h[end].committed,
        id > 0,
        newest(h[at].working, id),
        h[end].committed.tasks == h[at].working.tasks.insert(
            id,
            record(unsynced_row(task), project_id),
        ),
        names_project(h[end].committed, unsynced_row(task), project_id),
        holds_unsynced(h[end].committed, h[end].committed.tasks[id], task),
        keeps_projects(h[at].working, h[end].committed),
        h[end].committed.remind_texts(id) == h[at].working.remind_texts(id).add(
            texts_of(task.reminds).to_multiset(),
        ),
        forall|other: i64|
            other != id ==> #[trigger] h[end].committed.remind_texts(other)
                == h[at].working.remind_texts(other),
{
    let begun = at + 1;
    let row = unsynced_row(task);
    let (inserted, a) = insert_task_row_trace(t, begun, row, None)->0;
    lemma_insert_reminds_ends_later(t, a, id, task.reminds);
    assert(follows(h[at], t[at], h[begun]));
    let project_id = lemma_insert_task_row_effect(t, h, begun, row, None, id, a);
    lemma_insert_reminds_effect(t, h, a, id, task.reminds, mid);
    assert(follows(h[mid], t[mid], h[end]));
    assert(h[a].working.remind_texts(id) == h[at].working.remind_texts(id));
    assert forall|other: i64| other != id implies #[trigger] h[end].committed.remind_texts(other)
        == h[at].working.remind_texts(other) by {
        assert(h[mid].working.remind_texts(other) == h[a].working.remind_texts(other));
        assert(h[a].working.remind_texts(other) == h[at].working.remind_texts(other));
    }
    project_id
}

/// A task of the remote side is inserted, ready for its number to be sent,
/// unless the database fails.
pub proof fn law_insertion_succeeds(
    t: Transcript,
    h: History,
    at: int,
    end: int,
    task: UnsyncedTaskView,
    inserted: Result<i64, ErrorView>,
)
    requires
        faithful(t, h, at, end),
        !h[at].open,
        no_failures(t, at, end),
        open_unsynced_trace(t, at, task) == Some((inserted, end)),
    ensures
        inserted is Ok,
        h[end].open,
{
    assert(!tells_failure(t[at]));
    let begun = at + 1;
    let row = unsynced_row(task);
    let (stored, a) = insert_task_row_trace(t, begun, row, None)->0;
    if stored is Ok {
        lemma_insert_reminds_ends_later(t, a, stored->Ok_0, task.reminds);
    }
    assert(follows(h[at], t[at], h[begun]));
    lemma_insert_task_row_succeeds(t, h, begun, row, None, stored, a);
    let id = stored->Ok_0;
    let (reminded, b) = insert_reminds_trace(t, a, id, task.reminds)->0;
    lemma_insert_reminds_succeeds(t, a, id, task.reminds, reminded, b);
    lemma_insert_task_row_undecided(t, h, begun, end, row, None);
    lemma_insert_reminds_undecided(t, h, a, end, id, task.reminds);
}

/// A task of the remote side that cannot be inserted leaves the database as it
/// was.
pub proof fn law_failed_insertion_changes_nothing(
    t: Transcript,
    h: History,
    at: int,
    end: int,
    task: UnsyncedTaskView,
    error: ErrorView,
)
    requires
        faithful(t, h, at, end),
        !h[at].open,
        open_unsynced_trace(t, at, task) == Some((Err::<i64, ErrorView>(error), end)),
    ensures
        left_alone(h[at], h[end]),
{
    if let Some((Ok(_), begun)) = begin_trace(t, at) {
        let row = unsynced_row(task);
        let (inserted, a) = insert_task_row_trace(t, begun, row, None)->0;
        if inserted is Ok {
            lemma_insert_reminds_ends_later(t, a, inserted->Ok_0, task.reminds);
        }
        assert(follows(h[at], t[at], h[begun]));
        if inserted is Ok {
            let id = inserted->Ok_0;
            lemma_insert_task_row_undecided(t, h, begun, end, row, None);
            lemma_insert_reminds_undecided(t, h, a, end, id, task.reminds);
        } else {
            lemma_insert_task_row_undecided(t, h, begun, end, row, None);
        }
        assert(follows(h[end - 1], t[end - 1], h[end]));
    }
}

// ------------------------------------------------------------------
// Dry runs
// ------------------------------------------------------------------

/// Whether the events between two places only read.
pub open spec fn only_reads(t: Transcript, from: int, to: int) -> bool {
    forall|i: int| from <= i < to ==> !(#[trigger] t[i] is Ran)
}

/// A dry run writes nothing, here or there: it only asks the database, and
/// only asks the remote side for its lists.
pub proof fn law_dry_run_writes_nothing(
    t: Transcript,
    at: int,
    s: Transcript,
    state_at: int,
    unsynced: Result<Seq<UnsyncedTaskView>, ErrorView>,
    changes: Result<ChangesView, ErrorView>,
)
    ensures
        sync_cycle_trace(t, at, s, state_at, true) matches Some((step, end, state_end)) ==> {
            &&& step is GetUnsynced || step is Finished
            &&& only_reads(t, at, end)
            &&& only_reads(s, state_at, state_end)
        },
        pull_unsynced_trace(t, at, s, state_at, true, unsynced) matches Some(
            (step, end, state_end),
        ) ==> {
            &&& step is GetChanges || step is Finished
            &&& only_reads(t, at, end)
            &&& only_reads(s, state_at, state_end)
        },
        after_changes_trace(t, at, s, state_at, true, changes) matches Some(
            (step, end, state_end),
        ) ==> {
            &&& step is Finished
            &&& end == at
            &&& state_end == state_at
        },
{
}

/// The time of the last push is noted only after a push that succeeded, and
/// the time of the last pull only after every change was applied.
pub proof fn law_times_are_noted_after_success(
    t: Transcript,
    at: int,
    s: Transcript,
    state_at: int,
    dry_run: bool,
    pushed: Result<(), ErrorView>,
    changes: Result<ChangesView, ErrorView>,
)
    ensures
        push_done_trace(s, state_at, pushed) matches Some((_, state_end)) ==> (state_end > state_at
            ==> pushed is Ok),
        after_changes_trace(t, at, s, state_at, dry_run, changes) matches Some(
            (_, end, state_end),
        ) ==> (state_end > state_at ==> !dry_run && changes is Ok && apply_changes_trace(
            t,
            at,
            (changes->Ok_0).tasks,
        ) == Some((Ok::<(), ErrorView>(()), end))),
{
}

// ------------------------------------------------------------------
// State
// ------------------------------------------------------------------

/// A value that was set is what the next reading gives, unless the database
/// fails.
pub proof fn law_state_reads_back(
    t: Transcript,
    h: History,
    at: int,
    mid: int,
    end: int,
    key: Seq<char>,
    value: Seq<char>,
    read: Result<Option<Seq<char>>, ErrorView>,
)
    requires
        faithful(t, h, at, end),
        set_trace(t, at, key, value) == Some((Ok::<(), ErrorView>(()), mid)),
        get_trace(t, mid, key) == Some((read, end)),
    ensures
        no_failures(t, mid, end) ==> read is Ok,
        read matches Ok(found) ==> found == Some(value),
{
    assert(follows(h[at], t[at], h[mid]));
    assert(follows(h[mid], t[mid], h[end]));
    if no_failures(t, mid, end) {
        assert(!tells_failure(t[mid]));
    }
    assert(write_call(key, value).params[0] == ParamView::Text(key));
    assert(write_call(key, value).params[1] == ParamView::Text(value));
    assert(with_text(Statement::ReadState, key).params[0] == ParamView::Text(key));
}

/// Setting one key leaves the others as they are.
pub proof fn law_state_keys_are_independent(
    t: Transcript,
    h: History,
    at: int,
    end: int,
    key: Seq<char>,
    value: Seq<char>,
    other: Seq<char>,
)
    requires
        faithful(t, h, at, end),
        set_trace(t, at, key, value) == Some((Ok::<(), ErrorView>(()), end)),
        other != key,
    ensures
        h[end].working.state.contains_key(other) == h[at].working.state.contains_key(other),
        h[at].working.state.contains_key(other) ==> h[end].working.state[other]
            == h[at].working.state[other],
{
    assert(follows(h[at], t[at], h[end]));
    assert(write_call(key, value).params[0] == ParamView::Text(key));
}

} // verus!
