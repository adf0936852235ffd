//! What a cycle does as a whole: push, number, pull, in this order.

use vstd::prelude::*;

use crate::date::{law_dates_read_back, law_every_instant_has_a_day, read_date};
use crate::effects::{
    keeps_projects, lemma_broken_tasks, lemma_insert_reminds_effect,
    lemma_insert_reminds_ends_later, lemma_insert_task_row_effect, lemma_read_reminds_effect,
    lemma_tasks_of_rows, newest, texts_of,
};
use crate::error::ErrorView;
use crate::http::tasks::task_ids;
use crate::http::transaction::settle_trace;
use crate::laws::columns::{holds_changed, holds_unsynced, pushes_columns};
use crate::laws::failures::{
    answers_error, lemma_replace_reminds_ends_later, lemma_settle_ends_later,
};
use crate::laws::sync::{
    law_applying_succeeds, law_insertion_succeeds, law_last_change_wins,
    law_push_carries_what_changed, law_push_is_collected,
};
use crate::laws::tasks::all_readable;
use crate::model::{ChangedTaskView, ChangesView, UnsyncedTaskView};
use crate::session::{clock_read, Event, Transcript};
use crate::sql::ParamView;
use crate::sqlite::{
    insert_task_row_trace, read_reminds_trace, read_tasks_since_trace, update_task_row_trace,
    with_id, with_text,
};
use crate::statement::Statement;
use crate::sync_engine::{
    after_changes_trace, after_number_trace, after_push_trace, apply_changed_task_trace,
    apply_changes_trace, changed_row, number_next_trace, open_unsynced_trace,
    pull_unsynced_trace, push_trace, sync_cycle_trace, unsynced_row, StepView,
};
use crate::sync_state::{get_trace, set_trace, write_call};
use crate::tables::{
    broken_off, faithful, follows, lemma_settled, lists, no_failures, task_rows, tells_failure,
    Database, History, Tables,
};
use crate::text::{debug_text, text_before};

verus! {

/// The value of a key of the state, where it has one.
pub open spec fn noted(w: Tables, key: Seq<char>) -> Option<Seq<char>> {
    if w.state.contains_key(key) {
        Some(w.state[key])
    } else {
        None
    }
}

/// Reading a key of the state gives the value that it has, or nothing where it
/// has none, and changes nothing. It gives an answer unless the database fails.
pub proof fn law_state_is_read(
    s: Transcript,
    states: History,
    at: int,
    key: Seq<char>,
    read: Result<Option<Seq<char>>, ErrorView>,
    end: int,
)
    requires
        faithful(s, states, at, end),
        get_trace(s, at, key) == Some((read, end)),
    ensures
        end == at + 1,
        read matches Ok(value) ==> value == noted(states[at].working, key) && states[end]
            == states[at],
        no_failures(s, at, end) ==> read is Ok,
{
    assert(follows(states[at], s[at], states[end]));
    assert(with_text(Statement::ReadState, key).params[0] == ParamView::Text(key));
    if no_failures(s, at, end) {
        assert(!tells_failure(s[at]));
    }
}

/// Setting a key of the state gives it the value and changes nothing else. It
/// succeeds unless the database fails.
pub proof fn law_state_is_set(
    s: Transcript,
    states: History,
    at: int,
    key: Seq<char>,
    value: Seq<char>,
    outcome: Result<(), ErrorView>,
    end: int,
)
    requires
        faithful(s, states, at, end),
        set_trace(s, at, key, value) == Some((outcome, end)),
    ensures
        end == at + 1,
        outcome is Ok ==> states[end].working == (Tables {
            state: states[at].working.state.insert(key, value),
            ..states[at].working
        }),
        no_failures(s, at, end) ==> outcome is Ok,
{
    assert(follows(states[at], s[at], states[end]));
    assert(write_call(key, value).params[0] == ParamView::Text(key));
    assert(write_call(key, value).params[1] == ParamView::Text(value));
    if no_failures(s, at, end) {
        assert(!tells_failure(s[at]));
    }
}

// ------------------------------------------------------------------
// Push
// ------------------------------------------------------------------

/// A cycle starts with a push of every task that changed after the time of the
/// last push, or after no time where there was none. Where no task did, and in a
/// dry run, it goes on to the tasks without a number. Nothing is written. Where
/// the tasks can be read, it goes on, unless a database fails.
#[verifier::rlimit(40)]
pub proof fn law_cycle_starts_with_the_push(
    t: Transcript,
    h: History,
    at: int,
    end: int,
    s: Transcript,
    states: History,
    state_at: int,
    state_end: int,
    dry_run: bool,
    step: StepView,
) -> (ids: Seq<i64>)
    requires
        faithful(t, h, at, end),
        faithful(s, states, state_at, state_end),
        sync_cycle_trace(t, at, s, state_at, dry_run) == Some((step, end, state_end)),
    ensures
        !(step is Finished) ==> h[end] == h[at] && states[state_end] == states[state_at],
        match step {
            StepView::PushTasks(payload) => {
                let last = noted(states[state_at].working, "last_push_at"@).unwrap_or(seq![]);
                &&& !dry_run
                &&& payload.len() > 0
                &&& payload.len() == ids.len()
                &&& lists(ids, h[at].working.changed_after(last), -1)
                &&& forall|i: int|
                    0 <= i < ids.len() ==> pushes_columns(
                        h[at].working,
                        #[trigger] ids[i],
                        payload[i],
                    )
            },
            StepView::GetUnsynced => {
                let last = noted(states[state_at].working, "last_push_at"@).unwrap_or(seq![]);
                dry_run || forall|id: i64| #[trigger]
                    h[at].working.tasks.contains_key(id) ==> !text_before(
                        last,
                        h[at].working.tasks[id].updated,
                    )
            },
            StepView::Finished(outcome) => outcome is Err,
            _ => false,
        },
        no_failures(t, at, end) && no_failures(s, state_at, state_end) && all_readable(
            h[at].working,
        ) ==> !(step is Finished),
{
    reveal_strlit("");
    assert(""@ =~= seq![]);
    let key = "last_push_at"@;
    let w = h[at].working;
    let (read, asked) = get_trace(s, state_at, key)->0;
    law_state_is_read(s, states, state_at, key, read, asked);
    let (payload, _, _) = push_trace(t, at, s, state_at, dry_run)->0;
    if no_failures(t, at, end) && no_failures(s, state_at, state_end) && all_readable(w) {
        law_push_is_collected(t, h, at, end, s, states, state_at, state_end, dry_run, payload);
    }
    if read is Ok {
        let since = read->Ok_0;
        let last = since.unwrap_or(seq![]);
        let (found, a) = read_tasks_since_trace(t, at, last)->0;
        if end > at {
            assert(follows(h[at], t[at], h[at + 1]));
        }
        if let Ok(Some(tasks)) = payload {
            law_push_carries_what_changed(t, h, at, end, s, state_at, state_end, since, tasks)
        } else if found is Ok {
            lemma_found(t, h, at, end, last);
            let tasks = found->Ok_0;
            if tasks.len() > 0 {
                let ids = task_ids(tasks);
                let (reminded, _) = read_reminds_trace(t, at + 1, ids)->0;
                if let Ok(reminds) = reminded {
                    lemma_read_reminds_effect(t, h, at + 1, ids, reminds, end);
                }
            }
            seq![]
        } else {
            seq![]
        }
    } else {
        seq![]
    }
}

/// Where reading the tasks that changed gives none, none did.
proof fn lemma_found(t: Transcript, h: History, at: int, end: int, last: Seq<char>)
    requires
        faithful(t, h, at, end),
        at < end,
        read_tasks_since_trace(t, at, last) matches Some((Ok(found), a)) && a <= end,
    ensures
        (read_tasks_since_trace(t, at, last)->0).0->Ok_0.len() == 0 ==> forall|id: i64| #[trigger]
            h[at].working.tasks.contains_key(id) ==> !text_before(
                last,
                h[at].working.tasks[id].updated,
            ),
        h[at + 1] == h[at],
{
    let w = h[at].working;
    let (read, a) = read_tasks_since_trace(t, at, last)->0;
    let found = read->Ok_0;
    assert(follows(h[at], t[at], h[at + 1]));
    let call = with_text(Statement::TasksUpdatedAfter, last);
    assert(call.params[0] == ParamView::Text(last));
    let rows = match t[at] {
        Event::FetchedRows { call, rows: Ok(rows) } => rows,
        _ => arbitrary(),
    };
    if broken_off(rows) {
        lemma_broken_tasks(rows);
    }
    let ids = choose|ids: Seq<i64>|
        rows == #[trigger] task_rows(w, ids) && lists(
            ids,
            w.changed_after(last),
            -1,
        );
    lemma_tasks_of_rows(w, ids, found);
    if found.len() == 0 {
        assert forall|id: i64| #[trigger] w.tasks.contains_key(id) implies !text_before(
            last,
            w.tasks[id].updated,
        ) by {
            if w.changed_after(last)(id) {
                assert(ids.contains(id));
            }
        }
    }
}

/// After a push that succeeded the time of the clock is noted as that of the
/// last push, and nothing else. After one that failed nothing is noted and the
/// cycle ends with the failure.
pub proof fn law_push_is_noted(
    s: Transcript,
    states: History,
    state_at: int,
    state_end: int,
    reply: Result<(), ErrorView>,
    step: StepView,
)
    requires
        faithful(s, states, state_at, state_end),
        after_push_trace(s, state_at, reply) == Some((step, state_end)),
    ensures
        match reply {
            Err(e) => step == StepView::Finished(Err(e)) && state_end == state_at,
            Ok(_) => {
                &&& state_at < state_end
                &&& s[state_at] is Clock
                &&& step is GetUnsynced || (step matches StepView::Finished(outcome)
                    && outcome is Err)
                &&& step is GetUnsynced ==> states[state_end].working == (Tables {
                    state: states[state_at].working.state.insert(
                        "last_push_at"@,
                        s[state_at]->now.iso(),
                    ),
                    ..states[state_at].working
                })
                &&& no_failures(s, state_at, state_end) ==> step is GetUnsynced
            },
        },
{
    if reply is Ok {
        let (now, read) = clock_read(s, state_at)->0;
        assert(read == state_at + 1);
        let (outcome, _) = set_trace(s, read, "last_push_at"@, now.iso())->0;
        assert(state_end == state_at + 2);
        assert(follows(states[state_at], s[state_at], states[read]));
        lemma_settled(s, states, state_at, state_end, read);
        law_state_is_set(s, states, read, "last_push_at"@, now.iso(), outcome, state_end);
    }
}

// ------------------------------------------------------------------
// Numbers
// ------------------------------------------------------------------

/// Whether a step goes on with the tasks without a number: the task at `place`
/// is in the tables under the number that the remote side is told with the id by
/// which it knows the task, not yet for good. Behind the last task the step asks
/// for the changes since the time that was noted last.
pub open spec fn goes_on_with(
    before: Database,
    after: Database,
    state: Tables,
    pending: Seq<UnsyncedTaskView>,
    place: int,
    step: StepView,
) -> bool {
    match step {
        StepView::PatchTaskNumber { pending: rest, place: here, neon_id, task_number } => {
            &&& rest == pending
            &&& here == place
            &&& place < pending.len()
            &&& neon_id == pending[place].neon_id
            &&& takes_number(before, after, task_number, pending[place])
        },
        StepView::GetChanges(since) => {
            &&& place >= pending.len()
            &&& after == before
            &&& since == noted(state, "last_pull_at"@)
        },
        StepView::Finished(outcome) => outcome is Err,
        _ => false,
    }
}

/// Whether a task of the remote side was added under a new number in a
/// transaction that is still open.
pub open spec fn takes_number(
    before: Database,
    after: Database,
    id: i64,
    task: UnsyncedTaskView,
) -> bool {
    &&& !before.open
    &&& after.open
    &&& after.committed == before.committed
    &&& id > 0
    &&& newest(before.working, id)
    &&& after.working.tasks.contains_key(id)
    &&& holds_unsynced(after.working, after.working.tasks[id], task)
    &&& after.working.tasks.remove(id) == before.working.tasks.remove(id)
    &&& keeps_projects(before.working, after.working)
    &&& after.working.remind_texts(id) == before.working.remind_texts(id).add(
        texts_of(task.reminds).to_multiset(),
    )
    &&& forall|other: i64|
        other != id ==> #[trigger] after.working.remind_texts(other)
            == before.working.remind_texts(other)
}

proof fn lemma_open_unsynced(
    t: Transcript,
    h: History,
    at: int,
    end: int,
    task: UnsyncedTaskView,
    id: i64,
)
    requires
        faithful(t, h, at, end),
        open_unsynced_trace(t, at, task) == Some((Ok::<i64, ErrorView>(id), end)),
    ensures
        takes_number(h[at], h[end], id, task),
{
    let begun = at + 1;
    let row = unsynced_row(task);
    let (inserted, a) = insert_task_row_trace(t, begun, row, None)->0;
    lemma_insert_reminds_ends_later(t, a, id, task.reminds);
    assert(follows(h[at], t[at], h[begun]));
    let project_id = lemma_insert_task_row_effect(t, h, begun, row, None, id, a);
    lemma_insert_reminds_effect(t, h, a, id, task.reminds, end);
    assert(h[a].working.remind_texts(id) == h[at].working.remind_texts(id));
    assert(h[end].working.tasks.remove(id) =~= h[at].working.tasks.remove(id));
    assert forall|other: i64| other != id implies #[trigger] h[end].working.remind_texts(other)
        == h[at].working.remind_texts(other) by {
        assert(h[a].working.remind_texts(other) == h[at].working.remind_texts(other));
    }
}

proof fn lemma_number_next(
    t: Transcript,
    h: History,
    at: int,
    end: int,
    s: Transcript,
    states: History,
    state_at: int,
    state_end: int,
    pending: Seq<UnsyncedTaskView>,
    place: int,
    step: StepView,
)
    requires
        faithful(t, h, at, end),
        faithful(s, states, state_at, state_end),
        place >= 0,
        number_next_trace(t, at, s, state_at, pending, place) == Some((step, end, state_end)),
    ensures
        goes_on_with(h[at], h[end], states[state_at].working, pending, place, step),
        !(step is Finished) ==> states[state_end] == states[state_at],
        !h[at].open && no_failures(t, at, end) && no_failures(s, state_at, state_end) ==> !(
        step is Finished),
{
    if place >= pending.len() {
        let (read, asked) = get_trace(s, state_at, "last_pull_at"@)->0;
        law_state_is_read(s, states, state_at, "last_pull_at"@, read, asked);
    } else {
        let (opened, _) = open_unsynced_trace(t, at, pending[place])->0;
        if let Ok(id) = opened {
            lemma_open_unsynced(t, h, at, end, pending[place], id);
        } else if !h[at].open && no_failures(t, at, end) {
            law_insertion_succeeds(t, h, at, end, pending[place], opened);
        }
    }
}

/// After the list of the tasks without a number comes the first of them, in a dry
/// run the question for changes. Where the list could not be had, the cycle ends
/// with the failure and nothing is written.
pub proof fn law_numbering_starts_with_the_first(
    t: Transcript,
    h: History,
    at: int,
    end: int,
    s: Transcript,
    states: History,
    state_at: int,
    state_end: int,
    dry_run: bool,
    reply: Result<Seq<UnsyncedTaskView>, ErrorView>,
    step: StepView,
)
    requires
        faithful(t, h, at, end),
        faithful(s, states, state_at, state_end),
        pull_unsynced_trace(t, at, s, state_at, dry_run, reply) == Some((step, end, state_end)),
    ensures
        !(step is Finished) ==> states[state_end] == states[state_at],
        match reply {
            Err(e) => step == StepView::Finished(Err(e)) && end == at && state_end == state_at,
            Ok(pending) => {
                &&& goes_on_with(
                    h[at],
                    h[end],
                    states[state_at].working,
                    if dry_run {
                        seq![]
                    } else {
                        pending
                    },
                    0,
                    step,
                )
                &&& dry_run ==> end == at
                &&& !h[at].open && no_failures(t, at, end) && no_failures(s, state_at, state_end)
                    ==> !(step is Finished)
            },
        },
{
    if let Ok(pending) = reply {
        if dry_run {
            let none = Seq::<UnsyncedTaskView>::empty();
            lemma_number_next(t, h, at, end, s, states, state_at, state_end, none, 0, step);
        } else {
            lemma_number_next(t, h, at, end, s, states, state_at, state_end, pending, 0, step);
        }
    }
}

/// A number that the remote side took is kept for good, and the next task
/// follows. A number that it did not take ends the cycle with the failure.
pub proof fn law_numbering_goes_on_in_order(
    t: Transcript,
    h: History,
    at: int,
    end: int,
    s: Transcript,
    states: History,
    state_at: int,
    state_end: int,
    pending: Seq<UnsyncedTaskView>,
    place: int,
    reply: Result<(), ErrorView>,
    step: StepView,
) -> (kept: int)
    requires
        faithful(t, h, at, end),
        faithful(s, states, state_at, state_end),
        0 <= place,
        h[at].open,
        after_number_trace(t, at, s, state_at, pending, place, reply) == Some(
            (step, end, state_end),
        ),
    ensures
        at <= kept <= end,
        reply matches Err(e) ==> step == StepView::Finished(Err(e)) && state_end == state_at,
        reply is Ok ==> {
            ||| {
                &&& !h[kept].open
                &&& h[kept].working == h[at].working
                &&& h[kept].committed == h[at].working
                &&& goes_on_with(
                    h[kept],
                    h[end],
                    states[state_at].working,
                    pending,
                    place + 1,
                    step,
                )
            }
            ||| step matches StepView::Finished(outcome) && outcome is Err
        },
        reply is Ok && no_failures(t, at, end) && no_failures(s, state_at, state_end) ==> !(
        step is Finished),
{
    let (settled, kept) = settle_trace(t, at, reply)->0;
    lemma_settle_ends_later(t, at, reply);
    if settled is Ok {
        if place + 1 < pending.len() {
            lemma_open_ends_later(t, kept, pending[place + 1]);
        }
        assert(follows(h[at], t[at], h[at + 1]));
        lemma_settled(t, h, at, end, kept);
        lemma_number_next(
            t,
            h,
            kept,
            end,
            s,
            states,
            state_at,
            state_end,
            pending,
            place + 1,
            step,
        );
    } else if reply is Ok && no_failures(t, at, end) {
        assert(!tells_failure(t[at]));
        assert(follows(h[at], t[at], h[at + 1]));
    }
    kept
}

proof fn lemma_open_ends_later(t: Transcript, at: int, task: UnsyncedTaskView)
    ensures
        open_unsynced_trace(t, at, task) matches Some((_, end)) ==> at < end,
{
    if let Some((Ok(id), a)) = insert_task_row_trace(t, at + 1, unsynced_row(task), None) {
        lemma_insert_reminds_ends_later(t, a, id, task.reminds);
    }
}

// ------------------------------------------------------------------
// Pull
// ------------------------------------------------------------------

/// Whether the task of a change is in the tables and did not change on an
/// earlier day than the change says.
pub open spec fn not_older(w: Tables, task: ChangedTaskView) -> bool {
    &&& w.tasks.contains_key(task.task_number)
    &&& read_date(w.tasks[task.task_number].updated) is Ok
    &&& !task.updated_at.date().after(read_date(w.tasks[task.task_number].updated)->Ok_0)
}

/// Whether the row of a task is the one before, or what one of the changes says.
pub open spec fn comes_from(
    before: Tables,
    after: Tables,
    tasks: Seq<ChangedTaskView>,
    id: i64,
) -> bool {
    ||| before.tasks.contains_key(id) && after.tasks[id] == before.tasks[id] && after.remind_texts(
        id,
    ) == before.remind_texts(id)
    ||| exists|i: int|
        0 <= i < tasks.len() && (#[trigger] tasks[i]).task_number == id && holds_changed(
            after,
            after.tasks[id],
            tasks[i],
        ) && after.remind_texts(id) == texts_of(tasks[i].reminds).to_multiset()
}

/// Whether the instants of the changes are some.
pub open spec fn valid_changes(tasks: Seq<ChangedTaskView>) -> bool {
    forall|i: int| 0 <= i < tasks.len() ==> (#[trigger] tasks[i]).updated_at.valid()
}

proof fn lemma_apply_ends_later(t: Transcript, at: int, task: ChangedTaskView)
    ensures
        apply_changed_task_trace(t, at, task) matches Some((_, end)) ==> at < end,
{
    let n = task.task_number;
    if let Some((Ok(_), a)) = insert_task_row_trace(t, at + 1, changed_row(task), Some(n)) {
        lemma_replace_reminds_ends_later(t, a, n, task.reminds);
    }
    if let Some((Ok(_), a)) = update_task_row_trace(t, at + 1, n, changed_row(task)) {
        lemma_replace_reminds_ends_later(t, a, n, task.reminds);
    }
}

proof fn lemma_apply_changes_ends_later(t: Transcript, at: int, tasks: Seq<ChangedTaskView>)
    ensures
        apply_changes_trace(t, at, tasks) matches Some((_, end)) ==> at <= end,
    decreases tasks.len(),
{
    if tasks.len() > 0 {
        lemma_apply_changes_ends_later(t, at, tasks.drop_last());
        if let Some((Ok(_), mid)) = apply_changes_trace(t, at, tasks.drop_last()) {
            lemma_apply_ends_later(t, mid, tasks.last());
        }
    }
}

/// After a pull no task is older than any change that was pulled for it. Every
/// task is as it was, or what a change for its number says. Tasks that no change
/// speaks of are as they were.
#[verifier::rlimit(60)]
pub proof fn law_pull_leaves_nothing_older(
    t: Transcript,
    h: History,
    at: int,
    end: int,
    tasks: Seq<ChangedTaskView>,
)
    requires
        faithful(t, h, at, end),
        valid_changes(tasks),
        apply_changes_trace(t, at, tasks) == Some((Ok::<(), ErrorView>(()), end)),
    ensures
        forall|i: int| 0 <= i < tasks.len() ==> not_older(h[end].working, #[trigger] tasks[i]),
        forall|id: i64| #[trigger]
            h[end].working.tasks.contains_key(id) ==> comes_from(
                h[at].working,
                h[end].working,
                tasks,
                id,
            ),
        forall|id: i64| #[trigger]
            h[at].working.tasks.contains_key(id) ==> h[end].working.tasks.contains_key(id),
        keeps_projects(h[at].working, h[end].working),
    decreases tasks.len(),
{
    if tasks.len() > 0 {
        let init = tasks.drop_last();
        let task = tasks.last();
        let n = task.task_number;
        let (_, mid) = apply_changes_trace(t, at, init)->0;
        lemma_apply_changes_ends_later(t, at, init);
        lemma_apply_ends_later(t, mid, task);
        assert forall|i: int| 0 <= i < init.len() implies (
        #[trigger] init[i]).updated_at.valid() by {
            assert(init[i] == tasks[i]);
        }
        law_pull_leaves_nothing_older(t, h, at, mid, init);
        lemma_settled(t, h, at, end, mid);
        law_last_change_wins(t, h, mid, end, task);
        assert(tasks[tasks.len() - 1] == task);
        law_every_instant_has_a_day(task.updated_at);
        law_dates_read_back(task.updated_at.date());
        let (a, b, c) = (h[at].working, h[mid].working, h[end].working);
        assert(forall|id: i64|
            id != n ==> (c.tasks.contains_key(id) == b.tasks.contains_key(id) && (
            #[trigger] c.tasks.contains_key(id) ==> c.tasks[id] == b.tasks[id]))) by {
            assert forall|id: i64| id != n implies (c.tasks.contains_key(id)
                == b.tasks.contains_key(id) && (#[trigger] c.tasks.contains_key(id) ==> c.tasks[id]
                == b.tasks[id])) by {
                assert(c.tasks.remove(n).contains_key(id) == c.tasks.contains_key(id));
                assert(b.tasks.remove(n).contains_key(id) == b.tasks.contains_key(id));
                if c.tasks.contains_key(id) {
                    assert(c.tasks.remove(n)[id] == c.tasks[id]);
                    assert(b.tasks.remove(n)[id] == b.tasks[id]);
                }
            }
        }
        assert forall|i: int| 0 <= i < tasks.len() implies not_older(c, #[trigger] tasks[i]) by {
            if i < init.len() {
                assert(init[i] == tasks[i]);
                assert(not_older(b, init[i]));
            }
        }
        assert forall|id: i64| #[trigger] c.tasks.contains_key(id) implies comes_from(
            a,
            c,
            tasks,
            id,
        ) by {
            lemma_comes_from_kept(a, b, c, tasks, id, n);
        }
    }
}

proof fn lemma_comes_from_kept(
    a: Tables,
    b: Tables,
    c: Tables,
    tasks: Seq<ChangedTaskView>,
    id: i64,
    n: i64,
)
    requires
        tasks.len() > 0,
        c.tasks.contains_key(id),
        n == tasks.last().task_number,
        b.tasks.contains_key(id) ==> comes_from(a, b, tasks.drop_last(), id),
        id != n ==> b.tasks.contains_key(id) && c.tasks[id] == b.tasks[id],
        id != n ==> c.remind_texts(id) == b.remind_texts(id),
        keeps_projects(b, c),
        id == n ==> (holds_changed(c, c.tasks[n], tasks.last()) && c.remind_texts(n) == texts_of(
            tasks.last().reminds,
        ).to_multiset()) || (b.tasks.contains_key(n) && c == b),
    ensures
        comes_from(a, c, tasks, id),
{
    let init = tasks.drop_last();
    assert(tasks[tasks.len() - 1] == tasks.last());
    if id == n && holds_changed(c, c.tasks[n], tasks.last()) && c.remind_texts(n) == texts_of(
        tasks.last().reminds,
    ).to_multiset() {
        assert(comes_from(a, c, tasks, id));
    } else if !(a.tasks.contains_key(id) && b.tasks[id] == a.tasks[id] && b.remind_texts(id)
        == a.remind_texts(id)) {
        let i = choose|i: int|
            0 <= i < init.len() && (#[trigger] init[i]).task_number == id && holds_changed(
                b,
                b.tasks[id],
                init[i],
            ) && b.remind_texts(id) == texts_of(init[i].reminds).to_multiset();
        assert(tasks[i] == init[i]);
        assert(holds_changed(c, c.tasks[id], tasks[i]));
    }
}

/// Whether the day of change of every task can be read.
pub open spec fn days_readable(w: Tables) -> bool {
    forall|id: i64| #[trigger]
        w.tasks.contains_key(id) ==> read_date(w.tasks[id].updated) is Ok
}

/// Every change is applied where the days of the tasks can be read, unless the
/// database fails.
#[verifier::rlimit(40)]
pub proof fn law_pull_succeeds(
    t: Transcript,
    h: History,
    at: int,
    end: int,
    tasks: Seq<ChangedTaskView>,
    outcome: Result<(), ErrorView>,
)
    requires
        faithful(t, h, at, end),
        no_failures(t, at, end),
        valid_changes(tasks),
        days_readable(h[at].working),
        apply_changes_trace(t, at, tasks) == Some((outcome, end)),
    ensures
        outcome is Ok,
        days_readable(h[end].working),
    decreases tasks.len(),
{
    if tasks.len() > 0 {
        let init = tasks.drop_last();
        let task = tasks.last();
        let n = task.task_number;
        let (first, mid) = apply_changes_trace(t, at, init)->0;
        lemma_apply_changes_ends_later(t, at, init);
        if first is Ok {
            lemma_apply_ends_later(t, mid, task);
        }
        assert forall|i: int| 0 <= i < init.len() implies (
        #[trigger] init[i]).updated_at.valid() by {
            assert(init[i] == tasks[i]);
        }
        law_pull_succeeds(t, h, at, mid, init, first);
        lemma_settled(t, h, at, end, mid);
        law_applying_succeeds(t, h, mid, end, task, outcome);
        law_last_change_wins(t, h, mid, end, task);
        assert(tasks[tasks.len() - 1] == task);
        law_every_instant_has_a_day(task.updated_at);
        law_dates_read_back(task.updated_at.date());
        let (b, c) = (h[mid].working, h[end].working);
        assert forall|id: i64| #[trigger] c.tasks.contains_key(id) implies read_date(
            c.tasks[id].updated,
        ) is Ok by {
            if id != n {
                assert(c.tasks.remove(n).contains_key(id) == c.tasks.contains_key(id));
                assert(b.tasks.remove(n).contains_key(id) == b.tasks.contains_key(id));
                assert(c.tasks.remove(n)[id] == c.tasks[id]);
                assert(b.tasks.remove(n)[id] == b.tasks[id]);
            }
        }
    }
}

/// A cycle ends with the changes of the remote side. Where they could not be
/// had, it ends with the failure and nothing is written, and a dry run writes
/// nothing. Otherwise every change is applied, and the time of the remote side
/// is noted as that of the last pull, and nothing else.
pub proof fn law_cycle_ends_with_the_pull(
    t: Transcript,
    h: History,
    at: int,
    end: int,
    s: Transcript,
    states: History,
    state_at: int,
    state_end: int,
    dry_run: bool,
    reply: Result<ChangesView, ErrorView>,
    step: StepView,
)
    requires
        faithful(t, h, at, end),
        faithful(s, states, state_at, state_end),
        reply matches Ok(changes) ==> valid_changes(changes.tasks),
        after_changes_trace(t, at, s, state_at, dry_run, reply) == Some((step, end, state_end)),
    ensures
        step is Finished,
        match reply {
            Err(e) => step == StepView::Finished(Err(e)) && end == at && state_end == state_at,
            Ok(changes) => if dry_run {
                step == StepView::Finished(Ok(())) && end == at && state_end == state_at
            } else {
                &&& step == StepView::Finished(Ok(())) ==> {
                    &&& forall|i: int|
                        0 <= i < changes.tasks.len() ==> not_older(
                            h[end].working,
                            #[trigger] changes.tasks[i],
                        )
                    &&& states[state_end].working == (Tables {
                        state: states[state_at].working.state.insert(
                            "last_pull_at"@,
                            changes.server_time.iso(),
                        ),
                        ..states[state_at].working
                    })
                }
                &&& no_failures(t, at, end) && no_failures(s, state_at, state_end)
                    && days_readable(h[at].working) ==> step == StepView::Finished(Ok(()))
            },
        },
{
    if let Ok(changes) = reply {
        if !dry_run {
            let (applied, a) = apply_changes_trace(t, at, changes.tasks)->0;
            if applied is Ok {
                law_pull_leaves_nothing_older(t, h, at, end, changes.tasks);
                let (set, _) = set_trace(
                    s,
                    state_at,
                    "last_pull_at"@,
                    changes.server_time.iso(),
                )->0;
                law_state_is_set(
                    s,
                    states,
                    state_at,
                    "last_pull_at"@,
                    changes.server_time.iso(),
                    set,
                    state_end,
                );
            } else if no_failures(t, at, end) && days_readable(h[at].working) {
                law_pull_succeeds(t, h, at, end, changes.tasks, applied);
            }
        }
    }
}

/// A pull stops at the first change that fails.
pub proof fn law_pull_stops_at_the_first_failure(
    t: Transcript,
    at: int,
    end: int,
    tasks: Seq<ChangedTaskView>,
    n: int,
    error: ErrorView,
)
    requires
        0 <= n <= tasks.len(),
        apply_changes_trace(t, at, tasks.take(n)) == Some((Err::<(), ErrorView>(error), end)),
    ensures
        apply_changes_trace(t, at, tasks) == Some((Err::<(), ErrorView>(error), end)),
    decreases tasks.len(),
{
    if n < tasks.len() {
        assert(tasks.drop_last().take(n) =~= tasks.take(n));
        law_pull_stops_at_the_first_failure(t, at, end, tasks.drop_last(), n, error);
    } else {
        assert(tasks.take(n) =~= tasks);
    }
}

/// A change for a task whose day of change cannot be read fails, changes nothing,
/// and the answer gives the text, unless the database fails.
pub proof fn law_unreadable_days_are_told(
    t: Transcript,
    h: History,
    at: int,
    end: int,
    task: ChangedTaskView,
    outcome: Result<(), ErrorView>,
)
    requires
        faithful(t, h, at, end),
        h[at].working.tasks.contains_key(task.task_number),
        read_date(h[at].working.tasks[task.task_number].updated) is Err,
        apply_changed_task_trace(t, at, task) == Some((outcome, end)),
    ensures
        ({
            let text = h[at].working.tasks[task.task_number].updated;
            answers_error(
                t,
                at,
                end,
                outcome,
                ErrorView::Config(
                    "invalid local updated "@ + debug_text(text) + ": "@ + read_date(text)->Err_0,
                ),
            )
        }),
        !(outcome->Err_0 is Sqlite) ==> h[end] == h[at],
{
    lemma_apply_ends_later(t, at, task);
    assert(with_id(Statement::TaskUpdated, task.task_number).params[0] == ParamView::Integer(
        task.task_number,
    ));
    assert(follows(h[at], t[at], h[at + 1]));
    if no_failures(t, at, end) {
        assert(!tells_failure(t[at]));
    }
}

} // verus!
