//! What requests for tasks do: what is written is read back, what is unsent
//! stays, and lists hold what the table holds.

use vstd::prelude::*;

use crate::date::{
    law_days_follow_instants, law_every_instant_has_a_day, law_four_digit_years,
    law_midnight_is_on_its_day, law_read_dates_are_valid, law_read_instants_are_valid, law_texts_order_dates, midnight_of,
    read_date, read_instant, Date, Timestamp, FOUR_DIGIT_FIRST, FOUR_DIGIT_LAST,
};
use crate::effects::{
    dates_read, keeps_projects, lemma_broken_tasks, lemma_date_texts_readable, lemma_dates_back,
    lemma_insert_task_row_effect, lemma_insert_task_row_succeeds, lemma_read_back_effect,
    lemma_read_back_succeeds, lemma_read_reminds_effect, lemma_read_reminds_succeeds,
    lemma_readable_reminders, lemma_references_kept, lemma_replace_reminds_effect,
    lemma_replace_reminds_succeeds, lemma_settle_succeeds, lemma_sorted_texts_agree,
    lemma_stored_task, lemma_task_rows_succeed, lemma_tasks_of_rows, lemma_update_task_row_effect,
    lemma_update_task_row_succeeds, newest, readable, references_hold, reminders_readable,
    same_frame, shows_reminds, stored_task, texts_of, valid_row,
};
use crate::error::ErrorView;
use crate::http::transaction::{begin_trace, settle_trace};
use crate::http::{projects, tasks};
use crate::json::{field, Json};
use crate::laws::columns::{
    are_dates_sent, column_names, first_of_day, holds_created, law_rows_are_read_by_columns,
    lemma_midnights, patches_columns, sends_date, sends_dates, sends_instant, sent_text,
    shows_columns,
};
use crate::laws::failures::{
    answers_error, lemma_create_ends_later, lemma_create_undecided, lemma_patch_ends_later,
    lemma_patch_undecided, lemma_read_back_ends_later, lemma_replace_reminds_ends_later,
    lemma_settle, lemma_settle_ends_later,
};
use crate::model::{
    is_status, status_of, task_dto, ProjectResponseView, TaskCreateView, TaskDtoView, TaskListView,
    TaskResponseView, TaskView,
};
use crate::session::{clock_read, fetched_rows, Event, RowsView, Transcript};
use crate::sql::{text_or_null, FailureView, ParamView, RowView};
use crate::sqlite::{
    filter_call, insert_reminds_trace, insert_task_row_trace, read_reminds_trace,
    read_task_by_id_trace, read_tasks_filtered_trace, reminds_call, reminds_of, reminds_of_rows,
    replace_reminds_trace, task_of_row, task_row, update_task_row_trace, with_id, TaskRowView,
};
use crate::statement::Statement;
use crate::tables::{
    broken_off, faithful, follows, lists, no_failures, steps, task_rows, tells_failure, History,
    Tables,
};
use crate::text::{text_before, text_order};

verus! {

/// Whether the dates are in the order of their texts.
pub open spec fn in_order(dates: Seq<Date>) -> bool {
    vstd::relations::sorted_by(texts_of(dates), text_order())
}

/// Whether the dates and instants of a new task are some.
pub open spec fn valid_create(dto: TaskCreateView) -> bool {
    &&& dto.created_at.valid()
    &&& dto.updated_at.valid()
    &&& dto.due matches Some(d) ==> d.valid()
    &&& dto.done_at matches Some(d) ==> d.valid()
    &&& forall|i: int| 0 <= i < dto.reminds.len() ==> (#[trigger] dto.reminds[i]).valid()
}

/// Whether a task shows what a new one was created with: instants as the first
/// of their day, and the reminders in order.
pub open spec fn shows_created(task: TaskDtoView, dto: TaskCreateView) -> bool {
    &&& task.title == dto.title
    &&& task.status == dto.status
    &&& task.source == dto.source
    &&& task.project_name == dto.project_name
    &&& task.due == dto.due
    &&& task.done_at == dto.done_at
    &&& task.important == dto.important
    &&& task.updated_at == midnight_of(dto.updated_at.date())
    &&& task.created_at == midnight_of(dto.created_at.date())
    &&& first_of_day(task.updated_at, dto.updated_at.date())
    &&& first_of_day(task.created_at, dto.created_at.date())
    &&& task.reminds.to_multiset() == dto.reminds.to_multiset()
    &&& in_order(task.reminds)
}

proof fn lemma_status_word(word: Seq<char>)
    requires
        is_status(word),
    ensures
        status_of(word).word() == word,
{
    reveal_strlit("open");
    reveal_strlit("done");
    reveal_strlit("closed");
    assert("open"@[0] == 'o' && "done"@[0] == 'd' && "closed"@[0] == 'c');
}

/// What a transaction that created a task leaves in the tables.
#[verifier::rlimit(40)]
proof fn lemma_create_effect(
    t: Transcript,
    h: History,
    at: int,
    dto: TaskCreateView,
    task: TaskView,
    reminds: Seq<Date>,
    end: int,
) -> (texts: Seq<Seq<char>>)
    requires
        steps(t, h, at, end),
        h[at].settled(),
        valid_create(dto),
        tasks::create_in_transaction_trace(t, at, dto) == Some(
            (Ok::<(TaskView, Seq<Date>), ErrorView>((task, reminds)), end),
        ),
    ensures
        at < end,
        same_frame(h[at], h[end]),
        task == stored_task(task.id, tasks::create_row(dto)),
        task.id > 0,
        newest(h[at].working, task.id),
        !h[at].working.tasks.contains_key(task.id),
        h[end].working.tasks.contains_key(task.id),
        h[end].working.tasks.remove(task.id) == h[at].working.tasks,
        holds_created(h[end].working, h[end].working.tasks[task.id], dto),
        task_of_row(h[end].working.task_row(task.id)) == Ok::<TaskView, FailureView>(task),
        forall|other: i64|
            other != task.id ==> #[trigger] h[end].working.remind_texts(other)
                == h[at].working.remind_texts(other),
        keeps_projects(h[at].working, h[end].working),
        references_hold(h[at].working) ==> references_hold(h[end].working),
        reminds.to_multiset() == dto.reminds.to_multiset(),
        texts_of(reminds) == texts,
        reminds == dates_read(texts),
        readable(texts),
        texts.to_multiset() == h[end].working.remind_texts(task.id),
        h[end].working.remind_texts(task.id) == texts_of(dto.reminds).to_multiset(),
        vstd::relations::sorted_by(texts, text_order()),
{
    let row = tasks::create_row(dto);
    let missing = ErrorView::Config("just-inserted task disappeared from SQLite"@);
    let (inserted, a) = insert_task_row_trace(t, at, row, None)->0;
    let id = inserted->Ok_0;
    let (_, b) = replace_reminds_trace(t, a, id, dto.reminds)->0;
    lemma_replace_reminds_ends_later(t, a, id, dto.reminds);
    lemma_read_back_ends_later(t, b, id, missing);
    law_every_instant_has_a_day(dto.created_at);
    law_every_instant_has_a_day(dto.updated_at);
    let project_id = lemma_insert_task_row_effect(t, h, at, row, None, id, a);
    lemma_replace_reminds_effect(t, h, a, id, dto.reminds, b);
    let texts = lemma_read_back_effect(t, h, b, id, missing, task, reminds, end);
    lemma_stored_task(h[b].working, id, row, project_id);
    lemma_dates_back(dto.reminds, texts);
    assert(h[b].working.tasks.remove(id) =~= h[at].working.tasks);
    lemma_references_kept(h[at].working, h[end].working, id, row, project_id);
    assert forall|other: i64| other != id implies #[trigger] h[end].working.remind_texts(other)
        == h[at].working.remind_texts(other) by {
        assert(h[a].working.remind_texts(other) == h[at].working.remind_texts(other));
    }
    texts
}

/// A task that was created is what the request sent and is in the database with
/// its reminders, under a number that is positive and greater than all others.
/// A request for it gives it back, unless the database fails. No other task and
/// no reminder of another task changed.
#[verifier::rlimit(40)]
pub proof fn law_created_task_reads_back(
    t: Transcript,
    h: History,
    at: int,
    mid: int,
    end: int,
    body: Json,
    dto: TaskCreateView,
    created: TaskResponseView,
    read: Result<TaskResponseView, ErrorView>,
)
    requires
        faithful(t, h, at, end),
        !h[at].open,
        valid_create(dto),
        mid <= end,
        tasks::create_task_trace(t, at, body, Ok(dto)) == Some(
            (Ok::<TaskResponseView, ErrorView>(created), mid),
        ),
        tasks::get_task_trace(t, mid, created.task.task_number) == Some((read, end)),
    ensures
        shows_created(created.task, dto),
        t[mid - 1] == (Event::Clock { now: created.server_time }),
        no_failures(t, mid, end) ==> read is Ok,
        read matches Ok(answer) ==> answer.task == created.task,
        !h[mid].open,
        h[mid].working == h[mid].committed,
        created.task.task_number > 0,
        newest(h[at].working, created.task.task_number),
        h[mid].working.remind_texts(created.task.task_number) == texts_of(
            dto.reminds,
        ).to_multiset(),
        !h[at].working.tasks.contains_key(created.task.task_number),
        h[mid].working.tasks.contains_key(created.task.task_number),
        h[mid].working.tasks.remove(created.task.task_number) == h[at].working.tasks,
        holds_created(h[mid].working, h[mid].working.tasks[created.task.task_number], dto),
        shows_columns(h[mid].working, created.task.task_number, created.task),
        forall|other: i64|
            other != created.task.task_number ==> #[trigger] h[mid].working.remind_texts(other)
                == h[at].working.remind_texts(other),
{
    let begun = at + 1;
    let (outcome, worked) = tasks::create_in_transaction_trace(t, begun, dto)->0;
    let (settled, done) = settle_trace(t, worked, outcome)->0;
    lemma_create_ends_later(t, begun, dto);
    lemma_settle_ends_later(t, worked, outcome);
    assert(follows(h[at], t[at], h[begun]));
    let (task, reminds) = outcome->Ok_0;
    lemma_create_undecided(t, h, begun, end, dto);
    lemma_settle(t, h, worked, end, outcome);
    let texts = lemma_create_effect(t, h, begun, dto, task, reminds, worked);
    assert(follows(h[done], t[done], h[mid]));
    assert(h[mid].working == h[worked].working);
    lemma_status_word(dto.status);
    law_every_instant_has_a_day(dto.created_at);
    law_every_instant_has_a_day(dto.updated_at);
    law_midnight_is_on_its_day(dto.created_at.date());
    law_midnight_is_on_its_day(dto.updated_at.date());
    law_rows_are_read_by_columns(h[mid].working, task.id);
    lemma_midnights(task, h[mid].working, task.id);
    assert(shows_reminds(h[mid].working, task.id, dates_read(texts)));
    lemma_get_repeats(t, h, mid, task.id, task, texts, read, end);
}

/// A request for a task that is in the table gives it as it was read before,
/// unless the database fails.
proof fn lemma_get_repeats(
    t: Transcript,
    h: History,
    at: int,
    id: i64,
    task: TaskView,
    texts: Seq<Seq<char>>,
    read: Result<TaskResponseView, ErrorView>,
    end: int,
)
    requires
        steps(t, h, at, end),
        h[at].working.tasks.contains_key(id),
        task_of_row(h[at].working.task_row(id)) == Ok::<TaskView, FailureView>(task),
        readable(texts),
        texts.to_multiset() == h[at].working.remind_texts(id),
        vstd::relations::sorted_by(texts, text_order()),
        tasks::get_task_trace(t, at, id) == Some((read, end)),
    ensures
        no_failures(t, at, end) ==> read is Ok,
        read matches Ok(answer) ==> answer.task == task_dto(task, dates_read(texts)),
{
    let (outcome, got) = tasks::read_back_trace(t, at, id, ErrorView::NotFound)->0;
    lemma_read_back_ends_later(t, at, id, ErrorView::NotFound);
    if no_failures(t, at, end) {
        lemma_readable_reminders(h[at].working, id, texts);
        lemma_read_back_succeeds(t, h, at, id, ErrorView::NotFound, outcome, got);
    }
    if outcome is Ok {
        let (task2, reminds2) = outcome->Ok_0;
        let texts2 = lemma_read_back_effect(
            t,
            h,
            at,
            id,
            ErrorView::NotFound,
            task2,
            reminds2,
            got,
        );
        lemma_sorted_texts_agree(texts, texts2);
    }
}

/// What a transaction that changed a task leaves in the tables.
#[verifier::rlimit(40)]
proof fn lemma_patch_effect(
    t: Transcript,
    h: History,
    at: int,
    id: i64,
    body: Json,
    task: TaskView,
    reminds: Seq<Date>,
    end: int,
) -> (r: (Date, Seq<Seq<char>>))
    requires
        steps(t, h, at, end),
        h[at].settled(),
        tasks::patch_in_transaction_trace(t, at, id, body) == Some(
            (Ok::<(TaskView, Seq<Date>), ErrorView>((task, reminds)), end),
        ),
    ensures
        at < end,
        same_frame(h[at], h[end]),
        h[at].working.tasks.contains_key(id),
        task_of_row(h[at].working.task_row(id)) is Ok,
        is_patched(body, task_of_row(h[at].working.task_row(id))->Ok_0, r.0, task),
        field(body, "updatedAt"@) is None ==> is_today(t, at, end, r.0),
        h[end].working.tasks.contains_key(id),
        task_of_row(h[end].working.task_row(id)) == Ok::<TaskView, FailureView>(task),
        h[end].working.tasks.remove(id) == h[at].working.tasks.remove(id),
        patches_columns(h[at].working, h[end].working, id, body),
        day_of_change(body, r.0),
        h[end].working.tasks[id].updated == r.0.text(),
        keeps_projects(h[at].working, h[end].working),
        references_hold(h[at].working) ==> references_hold(h[end].working),
        forall|other: i64|
            other != id ==> #[trigger] h[end].working.remind_texts(other)
                == h[at].working.remind_texts(other),
        reminds == dates_read(r.1),
        readable(r.1),
        r.1.to_multiset() == h[end].working.remind_texts(id),
        vstd::relations::sorted_by(r.1, text_order()),
        match field(body, "reminds"@) {
            None => h[end].working.remind_texts(id) == h[at].working.remind_texts(id),
            Some(value) => remind_dates_sent(value, reminds) && h[end].working.remind_texts(id)
                == texts_of(tasks::remind_dates(value)->Ok_0).to_multiset(),
        },
{
    let missing = ErrorView::Config("task disappeared after UPDATE"@);
    let (found, a) = read_task_by_id_trace(t, at, id)->0;
    let existing = found->Ok_0->0;
    let (day, b) = tasks::patched_updated_trace(t, a, body)->0;
    let updated = day->Ok_0;
    let row = tasks::patched_row(body, existing, updated)->Ok_0;
    let (_, c) = update_task_row_trace(t, b, id, row)->0;
    let (_, d) = tasks::patched_reminds_trace(t, c, body, id)->0;
    lemma_patch_ends_later(t, c, id, body);
    lemma_read_back_ends_later(t, d, id, missing);
    assert(follows(h[at], t[at], h[a]));
    assert(with_id(Statement::TaskById, id).params[0] == ParamView::Integer(id));
    assert(h[b] == h[at]) by {
        if field(body, "updatedAt"@) is None {
            assert(follows(h[a], t[a], h[b]));
        }
    }
    lemma_patched_row_valid(body, h[at].working.task_row(id), existing, updated);
    assert(updated.valid()) by {
        match field(body, "updatedAt"@) {
            None => {
                assert(follows(h[a], t[a], h[b]));
                let now = (clock_read(t, a)->0).0;
                law_every_instant_has_a_day(now);
                assert(t[a] == Event::Clock { now });
            },
            Some(value) => {
                lemma_datetime_day_valid(value, "updatedAt"@);
            },
        }
    }
    let project_id = lemma_update_task_row_effect(t, h, b, id, row, c);
    let ghost sent = match field(body, "reminds"@) {
        Some(value) => tasks::remind_dates(value)->Ok_0,
        None => seq![],
    };
    if let Some(value) = field(body, "reminds"@) {
        lemma_replace_reminds_effect(t, h, c, id, sent, d);
    }
    let texts = lemma_read_back_effect(t, h, d, id, missing, task, reminds, end);
    lemma_stored_task(h[d].working, id, row, project_id);
    if let Some(value) = field(body, "reminds"@) {
        lemma_remind_dates_valid(value);
        lemma_dates_back(sent, texts);
    }
    assert(h[end].working.tasks.remove(id) =~= h[at].working.tasks.remove(id));
    lemma_references_kept(h[at].working, h[end].working, id, row, project_id);
    law_rows_are_read_by_columns(h[at].working, id);
    if let Some(value) = field(body, "reminds"@) {
        law_reminders_are_read_in_order(value);
    }
    assert forall|other: i64| other != id implies #[trigger] h[end].working.remind_texts(other)
        == h[at].working.remind_texts(other) by {
        assert(h[c].working.remind_texts(other) == h[at].working.remind_texts(other));
    }
    (updated, texts)
}

/// Whether the body sends the day of the change as that of an instant, or does
/// not send it.
pub open spec fn day_of_change(body: Json, day: Date) -> bool {
    match field(body, "updatedAt"@) {
        None => true,
        Some(value) => sends_instant(value) && (read_instant(sent_text(value))->0).date() == day,
    }
}

/// Reminders in a body are read as an array of texts, each of them a date.
pub proof fn law_reminders_are_read_in_order(value: Json)
    ensures
        tasks::remind_dates(value) is Ok <==> sends_dates(value),
        tasks::remind_dates(value) matches Ok(dates) ==> are_dates_sent(value, dates),
{
    if let Json::Array(items) = value {
        lemma_dates_of_items(items@);
    }
}

proof fn lemma_dates_of_items(items: Seq<Json>)
    ensures
        tasks::dates_of_items(items) is Ok <==> forall|i: int|
            0 <= i < items.len() ==> sends_date(#[trigger] items[i]),
        tasks::dates_of_items(items) matches Ok(dates) ==> {
            &&& dates.len() == items.len()
            &&& forall|i: int|
                0 <= i < items.len() ==> read_date(sent_text(#[trigger] items[i])) == Ok::<
                    Date,
                    Seq<char>,
                >(dates[i])
        },
    decreases items.len(),
{
    if items.len() > 0 {
        let init = items.drop_last();
        lemma_dates_of_items(init);
        if forall|i: int| 0 <= i < items.len() ==> sends_date(#[trigger] items[i]) {
            assert forall|i: int| 0 <= i < init.len() implies sends_date(#[trigger] init[i]) by {
                assert(init[i] == items[i]);
            }
            assert(sends_date(items[items.len() - 1]));
        } else {
            let i = choose|i: int| 0 <= i < items.len() && !sends_date(#[trigger] items[i]);
            if i < init.len() {
                assert(init[i] == items[i]);
            }
        }
        if tasks::dates_of_items(items) is Ok {
            let dates = tasks::dates_of_items(items)->Ok_0;
            assert forall|i: int| 0 <= i < items.len() implies read_date(
                sent_text(#[trigger] items[i]),
            ) == Ok::<Date, Seq<char>>(dates[i]) by {
                if i < init.len() {
                    assert(init[i] == items[i]);
                }
            }
        }
    }
}

/// Whether `task` is `existing` after the body was applied to it, changed last
/// on the day `updated`.
pub open spec fn is_patched(body: Json, existing: TaskView, updated: Date, task: TaskView) -> bool {
    &&& tasks::patched_row(body, existing, updated) is Ok
    &&& task == stored_task(task.id, tasks::patched_row(body, existing, updated)->Ok_0)
    &&& field(body, "updatedAt"@) matches Some(value) ==> tasks::datetime_day(
        value,
        "updatedAt"@,
    ) == Ok::<Date, ErrorView>(updated)
}

/// Whether the clock showed an instant of this day between two places of the
/// transcript.
pub open spec fn is_today(t: Transcript, from: int, to: int, day: Date) -> bool {
    exists|i: int| #![trigger t[i]]
        from <= i < to && (t[i] matches Event::Clock { now } && now.date() == day)
}

/// Whether the dates are those that the body sent, in order.
pub open spec fn remind_dates_sent(value: Json, dates: Seq<Date>) -> bool {
    &&& tasks::remind_dates(value) is Ok
    &&& dates.to_multiset() == (tasks::remind_dates(value)->Ok_0).to_multiset()
    &&& in_order(dates)
}

proof fn lemma_datetime_day_valid(value: Json, key: Seq<char>)
    ensures
        tasks::datetime_day(value, key) matches Ok(d) ==> d.valid(),
{
    if let Json::Text(s) = value {
        law_read_instants_are_valid(s@);
        if let Some(instant) = read_instant(s@) {
            law_every_instant_has_a_day(instant);
        }
    }
}

proof fn lemma_task_of_row_valid(row: RowView)
    ensures
        task_of_row(row) matches Ok(task) ==> {
            &&& task.created.valid()
            &&& task.updated.valid()
            &&& task.due matches Some(d) ==> d.valid()
            &&& task.done_at matches Some(d) ==> d.valid()
        },
{
    broadcast use law_read_dates_are_valid;

}

proof fn lemma_patched_row_valid(body: Json, row: RowView, existing: TaskView, updated: Date)
    requires
        task_of_row(row) == Ok::<TaskView, FailureView>(existing),
    ensures
        updated.valid() ==> (tasks::patched_row(body, existing, updated) matches Ok(patched)
            ==> valid_row(patched)),
{
    broadcast use law_read_dates_are_valid;

    lemma_task_of_row_valid(row);
    if let Some(value) = field(body, "createdAt"@) {
        lemma_datetime_day_valid(value, "createdAt"@);
    }
}

proof fn lemma_dates_of_items_valid(items: Seq<Json>)
    ensures
        tasks::dates_of_items(items) matches Ok(dates) ==> forall|i: int|
            0 <= i < dates.len() ==> (#[trigger] dates[i]).valid(),
    decreases items.len(),
{
    broadcast use law_read_dates_are_valid;

    if items.len() > 0 {
        lemma_dates_of_items_valid(items.drop_last());
    }
}

proof fn lemma_remind_dates_valid(value: Json)
    ensures
        tasks::remind_dates(value) matches Ok(dates) ==> forall|i: int|
            0 <= i < dates.len() ==> (#[trigger] dates[i]).valid(),
{
    if let Json::Array(items) = value {
        lemma_dates_of_items_valid(items@);
    }
}

/// A task that was changed is the task before with what the request sent, and
/// is in the database. Where the request sends no day of change, it is that of
/// the clock. Reminders that the request does not send stay, those that it sends
/// take their place, and the answer shows those of the table. A request for the task gives it back, unless the database
/// fails. No other task and no reminder of another task changed.
#[verifier::rlimit(40)]
pub proof fn law_patched_task_reads_back(
    t: Transcript,
    h: History,
    at: int,
    mid: int,
    end: int,
    id: i64,
    body: Json,
    patched: TaskResponseView,
    read: Result<TaskResponseView, ErrorView>,
) -> (r: (TaskView, TaskView, Date))
    requires
        faithful(t, h, at, end),
        !h[at].open,
        mid <= end,
        tasks::patch_task_trace(t, at, id, body) == Some(
            (Ok::<TaskResponseView, ErrorView>(patched), mid),
        ),
        tasks::get_task_trace(t, mid, id) == Some((read, end)),
    ensures
        h[at].working.tasks.contains_key(id),
        task_of_row(h[at].working.task_row(id)) == Ok::<TaskView, FailureView>(r.0),
        is_patched(body, r.0, r.2, r.1),
        field(body, "updatedAt"@) is None ==> is_today(t, at, mid, r.2),
        patched.task == task_dto(r.1, patched.task.reminds),
        t[mid - 1] == (Event::Clock { now: patched.server_time }),
        no_failures(t, mid, end) ==> read is Ok,
        read matches Ok(answer) ==> answer.task == patched.task,
        !h[mid].open,
        h[mid].working == h[mid].committed,
        h[mid].working.tasks.contains_key(id),
        h[mid].working.tasks.remove(id) == h[at].working.tasks.remove(id),
        patches_columns(h[at].working, h[mid].working, id, body),
        day_of_change(body, r.2),
        h[mid].working.tasks[id].updated == r.2.text(),
        shows_columns(h[mid].working, id, patched.task),
        shows_reminds(h[mid].working, id, patched.task.reminds),
        forall|other: i64|
            other != id ==> #[trigger] h[mid].working.remind_texts(other)
                == h[at].working.remind_texts(other),
        match field(body, "reminds"@) {
            None => h[mid].working.remind_texts(id) == h[at].working.remind_texts(id),
            Some(value) => remind_dates_sent(value, patched.task.reminds)
                && h[mid].working.remind_texts(id) == texts_of(
                tasks::remind_dates(value)->Ok_0,
            ).to_multiset(),
        },
{
    let begun = at + 1;
    let (outcome, worked) = tasks::patch_in_transaction_trace(t, begun, id, body)->0;
    let (settled, done) = settle_trace(t, worked, outcome)->0;
    lemma_patch_ends_later(t, begun, id, body);
    lemma_settle_ends_later(t, worked, outcome);
    assert(follows(h[at], t[at], h[begun]));
    let (task, reminds) = outcome->Ok_0;
    lemma_patch_undecided(t, h, begun, end, id, body);
    lemma_settle(t, h, worked, end, outcome);
    let (updated, texts) = lemma_patch_effect(t, h, begun, id, body, task, reminds, worked);
    assert(follows(h[done], t[done], h[mid]));
    assert(h[mid].working == h[worked].working);
    assert(patched.task.reminds == dates_read(texts));
    law_rows_are_read_by_columns(h[mid].working, id);
    lemma_midnights(task, h[mid].working, id);
    lemma_get_repeats(t, h, mid, id, task, texts, read, end);
    (task_of_row(h[at].working.task_row(id))->Ok_0, task, updated)
}

/// A field that a change does not send stays as it is, and `null` clears a
/// field that may be empty.
pub proof fn law_unsent_fields_stay(body: Json, existing: TaskView, updated: Date)
    ensures
        tasks::patched_row(body, existing, updated) matches Ok(row) ==> {
            &&& field(body, "title"@) is None ==> row.title == existing.title
            &&& field(body, "status"@) is None ==> row.status == existing.status.word()
            &&& field(body, "source"@) is None ==> row.source == existing.source
            &&& field(body, "projectName"@) is None ==> row.project == existing.project
            &&& field(body, "due"@) is None ==> row.due == existing.due
            &&& field(body, "doneAt"@) is None ==> row.done_at == existing.done_at
            &&& field(body, "important"@) is None ==> row.important == existing.important
            &&& field(body, "createdAt"@) is None ==> row.created == existing.created
            &&& field(body, "projectName"@) == Some(Json::Null) ==> row.project is None
            &&& field(body, "due"@) == Some(Json::Null) ==> row.due is None
            &&& field(body, "doneAt"@) == Some(Json::Null) ==> row.done_at is None
        },
{
}

/// A body without members changes nothing but the day of the last change.
pub proof fn law_empty_patch_only_touches(body: Json, existing: TaskView, updated: Date)
    requires
        body matches Json::Object(members) && members@.len() == 0,
    ensures
        tasks::patch_refusal(body) is None,
        tasks::patched_row(body, existing, updated) == Ok::<TaskRowView, ErrorView>(
            TaskRowView { updated, ..task_row(existing) },
        ),
{
}

/// A request whose body is refused is answered without asking the database.
pub proof fn law_refused_bodies_ask_nothing(
    t: Transcript,
    at: int,
    id: i64,
    body: Json,
    parsed: Result<TaskCreateView, Seq<char>>,
)
    ensures
        tasks::create_refusal(body, parsed) matches Some(e) ==> tasks::create_task_trace(
            t,
            at,
            body,
            parsed,
        ) == Some((Err::<TaskResponseView, ErrorView>(e), at)) && e is BadRequest,
        tasks::patch_refusal(body) matches Some(e) ==> tasks::patch_task_trace(t, at, id, body)
            == Some((Err::<TaskResponseView, ErrorView>(e), at)) && e is BadRequest,
        projects::name_in(body) matches Err(e) ==> projects::create_project_trace(t, at, body)
            == Some((Err::<ProjectResponseView, ErrorView>(e), at)) && e is BadRequest
            && projects::update_project_trace(t, at, id, body) == Some(
            (Err::<ProjectResponseView, ErrorView>(e), at),
        ),
{
}

/// A query for a list with a status that is none, or with a `since` that is no
/// instant, is answered without asking the database.
pub proof fn law_refused_queries_ask_nothing(
    t: Transcript,
    at: int,
    status: Option<Seq<char>>,
    since: Option<Seq<char>>,
    project: Option<Seq<char>>,
    limit: Option<u32>,
)
    requires
        (status matches Some(word) && !is_status(word)) || tasks::since_day(since) is Err,
    ensures
        tasks::list_tasks_trace(t, at, status, since, project, limit) matches Some((Err(e), end))
            && e is BadRequest && end == at,
{
}

/// The number of a task is never taken from a body.
pub proof fn law_task_numbers_are_refused(
    body: Json,
    parsed: Result<TaskCreateView, Seq<char>>,
)
    requires
        field(body, "taskNumber"@) is Some,
    ensures
        tasks::create_refusal(body, parsed) matches Some(e) && e is BadRequest,
        tasks::patch_refusal(body) matches Some(e) && e is BadRequest,
{
}

/// The tasks of the table for which each part that a query gives holds on its
/// own: the status is the given one, the day of the last change does not come
/// before the day in UTC of the given instant, and the project has the given
/// name.
pub open spec fn wanted(
    w: Tables,
    status: Option<Seq<char>>,
    since: Option<Seq<char>>,
    project: Option<Seq<char>>,
) -> spec_fn(i64) -> bool {
    |id: i64|
        {
            &&& w.tasks.contains_key(id)
            &&& status matches Some(word) ==> w.tasks[id].status == word
            &&& since matches Some(text) ==> !text_before(
                w.tasks[id].updated,
                (read_instant(text)->0).date().text(),
            )
            &&& project matches Some(name) ==> column_names(w, w.tasks[id].project_id, Some(name))
        }
}

/// Of a task that changed on a day with a year of four digits, the text of the
/// day comes before that of the day of an instant exactly where the day does.
pub proof fn law_since_compares_days(day: Date, since: Timestamp)
    requires
        day.valid(),
        since.valid(),
        0 <= day.year() <= 9999,
        0 <= since.date().year() <= 9999,
    ensures
        text_before(day.text(), since.date().text()) <==> day.number() < since.date().number(),
        since.on_day(since.date()),
{
    law_every_instant_has_a_day(since);
    law_texts_order_dates(day, since.date());
}

/// A list of tasks holds the tasks of the table for which each part of the query
/// holds, in the order of their numbers, up to the limit, each with the columns
/// of its row and its reminders. Where the query sets no limit, it is 500.
pub proof fn law_list_is_what_the_table_holds(
    t: Transcript,
    h: History,
    at: int,
    end: int,
    status: Option<Seq<char>>,
    since: Option<Seq<char>>,
    project: Option<Seq<char>>,
    limit: Option<u32>,
    list: TaskListView,
) -> (ids: Seq<i64>)
    requires
        faithful(t, h, at, end),
        tasks::list_tasks_trace(t, at, status, since, project, limit) == Some(
            (Ok::<TaskListView, ErrorView>(list), end),
        ),
    ensures
        h[end] == h[at],
        lists(
            ids,
            |id: i64|
                h[at].working.passes(
                    id,
                    filter_call(
                        status,
                        tasks::since_day(since)->Ok_0,
                        project,
                        Some(tasks::limit_or_default(limit)),
                    ).params,
                ),
            tasks::limit_or_default(limit) as int,
        ),
        since matches Some(text) ==> read_instant(text) is Some,
        lists(
            ids,
            wanted(h[at].working, status, since, project),
            match limit {
                Some(n) => n as int,
                None => 500,
            },
        ),
        t[end - 1] == (Event::Clock { now: list.server_time }),
        list.tasks.len() == ids.len(),
        forall|i: int|
            0 <= i < ids.len() ==> shows_stored(h[at].working, #[trigger] ids[i], list.tasks[i]),
{
    let day = tasks::since_day(since)->Ok_0;
    let n = tasks::limit_or_default(limit);
    let call = filter_call(status, day, project, Some(n));
    let w = h[at].working;
    let (read, a) = read_tasks_filtered_trace(t, at, status, day, project, Some(n))->0;
    let found = read->Ok_0;
    let (reminded, b) = read_reminds_trace(t, a, tasks::task_ids(found))->0;
    let reminds = reminded->Ok_0;
    assert(a <= b < end);
    assert(follows(h[at], t[at], h[a]));
    let rows = match t[at] {
        Event::FetchedRows { call, rows: Ok(rows) } => rows,
        _ => arbitrary(),
    };
    if broken_off(rows) {
        lemma_broken_tasks(rows);
    }
    assert(call.params[3] == ParamView::Integer(n as i64));
    let ids = choose|ids: Seq<i64>|
        rows == #[trigger] task_rows(w, ids) && lists(
            ids,
            |id: i64| w.passes(id, call.params),
            n as int,
        );
    lemma_tasks_of_rows(w, ids, found);
    assert(tasks::task_ids(found) =~= ids);
    lemma_read_reminds_effect(t, h, a, ids, reminds, b);
    assert(follows(h[b], t[b], h[end]));
    assert forall|i: int| 0 <= i < ids.len() implies shows_stored(
        w,
        #[trigger] ids[i],
        list.tasks[i],
    ) by {
        assert(list.tasks[i] == task_dto(found[i], reminds_of(reminds, ids[i])));
        assert(shows_reminds(w, ids[i], reminds_of(reminds, ids[i])));
        law_rows_are_read_by_columns(w, ids[i]);
        lemma_midnights(found[i], w, ids[i]);
    }
    assert(lists(ids, wanted(w, status, since, project), n as int)) by {
        let keep = |id: i64| w.passes(id, call.params);
        let want = wanted(w, status, since, project);
        assert(call.params[0] == text_or_null(status));
        assert(call.params[2] == text_or_null(project));
        assert forall|id: i64| #[trigger] want(id) == keep(id) by {}
    }
    ids
}

/// Whether every task can be read, with its reminders: its dates are some.
pub open spec fn all_readable(w: Tables) -> bool {
    forall|id: i64| #[trigger]
        w.tasks.contains_key(id) ==> task_of_row(w.task_row(id)) is Ok && reminders_readable(w, id)
}

/// A list is given where the query is not refused and every task can be read,
/// unless the database fails.
pub proof fn law_list_is_given(
    t: Transcript,
    h: History,
    at: int,
    end: int,
    status: Option<Seq<char>>,
    since: Option<Seq<char>>,
    project: Option<Seq<char>>,
    limit: Option<u32>,
    list: Result<TaskListView, ErrorView>,
)
    requires
        faithful(t, h, at, end),
        no_failures(t, at, end),
        all_readable(h[at].working),
        status matches Some(word) ==> is_status(word),
        tasks::since_day(since) is Ok,
        tasks::list_tasks_trace(t, at, status, since, project, limit) == Some((list, end)),
    ensures
        list is Ok,
{
    let day = tasks::since_day(since)->Ok_0;
    let n = tasks::limit_or_default(limit);
    let call = filter_call(status, day, project, Some(n));
    let w = h[at].working;
    let (read, a) = read_tasks_filtered_trace(t, at, status, day, project, Some(n))->0;
    assert(a <= end);
    assert(follows(h[at], t[at], h[a]));
    assert(!tells_failure(t[at]));
    let rows = match t[at] {
        Event::FetchedRows { call, rows: Ok(rows) } => rows,
        _ => arbitrary(),
    };
    assert(call.params[3] == ParamView::Integer(n as i64));
    let ids = choose|ids: Seq<i64>|
        rows == #[trigger] task_rows(w, ids) && lists(
            ids,
            |id: i64| w.passes(id, call.params),
            n as int,
        );
    assert forall|i: int| 0 <= i < ids.len() implies w.tasks.contains_key(#[trigger] ids[i]) by {
        assert(w.passes(ids[i], call.params));
    }
    lemma_task_rows_succeed(w, ids);
    let found = read->Ok_0;
    lemma_tasks_of_rows(w, ids, found);
    assert(tasks::task_ids(found) =~= ids);
    let (reminded, b) = read_reminds_trace(t, a, ids)->0;
    assert(b <= end);
    lemma_read_reminds_succeeds(t, h, a, ids, reminded, b);
}

/// The status of every task is one.
pub open spec fn statuses_hold(w: Tables) -> bool {
    forall|id: i64| #[trigger] w.tasks.contains_key(id) ==> is_status(w.tasks[id].status)
}

/// Whatever the library asks of the database, the status of every task is one.
pub proof fn law_statuses_stay_valid(t: Transcript, h: History, from: int, to: int, at: int)
    requires
        faithful(t, h, from, to),
        statuses_hold(h[from].working),
        statuses_hold(h[from].committed),
        from <= at <= to,
    ensures
        statuses_hold(h[at].working),
        statuses_hold(h[at].committed),
    decreases at - from,
{
    if from < at {
        law_statuses_stay_valid(t, h, from, to, at - 1);
        assert(follows(h[at - 1], t[at - 1], h[at]));
    }
}

/// Whether `shown` is the task of the table, with its reminders.
pub open spec fn shows_stored(w: Tables, id: i64, shown: TaskDtoView) -> bool {
    &&& task_of_row(w.task_row(id)) is Ok
    &&& shown == task_dto(task_of_row(w.task_row(id))->Ok_0, shown.reminds)
    &&& shows_reminds(w, id, shown.reminds)
    &&& shows_columns(w, id, shown)
}

/// A list since an instant misses no task that was changed at that instant or
/// later, as long as the years have four digits.
pub proof fn law_no_later_change_is_missed(changed: Timestamp, since: Timestamp)
    requires
        changed.valid(),
        since.valid(),
        since.seconds() <= changed.seconds(),
        FOUR_DIGIT_FIRST <= since.seconds(),
        changed.seconds() <= FOUR_DIGIT_LAST,
    ensures
        !text_before(changed.date().text(), since.date().text()),
{
    law_every_instant_has_a_day(changed);
    law_every_instant_has_a_day(since);
    law_days_follow_instants(since, changed, since.date(), changed.date());
    law_four_digit_years(changed);
    law_four_digit_years(since);
    law_texts_order_dates(changed.date(), since.date());
}

/// Creating a task leaves no task with a project that does not exist: a project
/// that is named and missing is added.
#[verifier::rlimit(40)]
pub proof fn law_creation_keeps_references(
    t: Transcript,
    h: History,
    at: int,
    end: int,
    body: Json,
    dto: TaskCreateView,
    created: TaskResponseView,
)
    requires
        faithful(t, h, at, end),
        !h[at].open,
        references_hold(h[at].working),
        valid_create(dto),
        tasks::create_task_trace(t, at, body, Ok(dto)) == Some(
            (Ok::<TaskResponseView, ErrorView>(created), end),
        ),
    ensures
        references_hold(h[end].committed),
{
    let begun = at + 1;
    let (outcome, worked) = tasks::create_in_transaction_trace(t, begun, dto)->0;
    lemma_create_ends_later(t, begun, dto);
    lemma_settle_ends_later(t, worked, outcome);
    assert(follows(h[at], t[at], h[begun]));
    let (task, reminds) = outcome->Ok_0;
    lemma_create_undecided(t, h, begun, end, dto);
    lemma_settle(t, h, worked, end, outcome);
    lemma_create_effect(t, h, begun, dto, task, reminds, worked);
    assert(follows(h[end - 1], t[end - 1], h[end]));
}

/// Changing a task leaves no task with a project that does not exist: a project
/// that is named and missing is added.
#[verifier::rlimit(40)]
pub proof fn law_patch_keeps_references(
    t: Transcript,
    h: History,
    at: int,
    end: int,
    id: i64,
    body: Json,
    patched: TaskResponseView,
)
    requires
        faithful(t, h, at, end),
        !h[at].open,
        references_hold(h[at].working),
        tasks::patch_task_trace(t, at, id, body) == Some(
            (Ok::<TaskResponseView, ErrorView>(patched), end),
        ),
    ensures
        references_hold(h[end].committed),
{
    let begun = at + 1;
    let (outcome, worked) = tasks::patch_in_transaction_trace(t, begun, id, body)->0;
    lemma_patch_ends_later(t, begun, id, body);
    lemma_settle_ends_later(t, worked, outcome);
    assert(follows(h[at], t[at], h[begun]));
    let (task, reminds) = outcome->Ok_0;
    lemma_patch_undecided(t, h, begun, end, id, body);
    lemma_settle(t, h, worked, end, outcome);
    lemma_patch_effect(t, h, begun, id, body, task, reminds, worked);
    assert(follows(h[end - 1], t[end - 1], h[end]));
}

/// A request for a task that does not exist is answered that it is not found,
/// unless the database fails. One for a task that exists is never answered so.
#[verifier::rlimit(40)]
pub proof fn law_missing_tasks_are_not_found(
    t: Transcript,
    h: History,
    at: int,
    end: int,
    id: i64,
    body: Json,
    read: Result<TaskResponseView, ErrorView>,
    patched: Result<TaskResponseView, ErrorView>,
)
    requires
        faithful(t, h, at, end),
        !h[at].open,
    ensures
        tasks::get_task_trace(t, at, id) == Some((read, end)) ==> if h[at].working.tasks.contains_key(
            id,
        ) {
            read != Err::<TaskResponseView, ErrorView>(ErrorView::NotFound)
        } else {
            answers_error(t, at, end, read, ErrorView::NotFound)
        },
        tasks::patch_task_trace(t, at, id, body) == Some((patched, end)) && tasks::patch_refusal(
            body,
        ) is None ==> if h[at].working.tasks.contains_key(id) {
            patched != Err::<TaskResponseView, ErrorView>(ErrorView::NotFound)
        } else {
            answers_error(t, at, end, patched, ErrorView::NotFound)
        },
{
    assert(with_id(Statement::TaskById, id).params[0] == ParamView::Integer(id));
    if tasks::get_task_trace(t, at, id) == Some((read, end)) {
        lemma_read_back_ends_later(t, at, id, ErrorView::NotFound);
        assert(follows(h[at], t[at], h[at + 1]));
        lemma_read_reminds_errors(t, at + 1, seq![id]);
    }
    if tasks::patch_task_trace(t, at, id, body) == Some((patched, end)) && tasks::patch_refusal(
        body,
    ) is None {
        if let Some((Ok(_), begun)) = begin_trace(t, at) {
            let (outcome, worked) = tasks::patch_in_transaction_trace(t, begun, id, body)->0;
            lemma_patch_ends_later(t, begun, id, body);
            lemma_settle_ends_later(t, worked, outcome);
            assert(follows(h[at], t[at], h[begun]));
            assert(follows(h[begun], t[begun], h[begun + 1]));
            lemma_patch_errors(t, begun, id, body);
        }
    }
}

proof fn lemma_reminds_of_rows_errors(rows: RowsView)
    ensures
        reminds_of_rows(rows) matches Err(e) ==> e is Sqlite || e is Config,
    decreases rows.len(),
{
    if rows.len() > 0 {
        lemma_reminds_of_rows_errors(rows.drop_last());
    }
}

proof fn lemma_read_reminds_errors(t: Transcript, at: int, ids: Seq<i64>)
    ensures
        read_reminds_trace(t, at, ids) matches Some((Err(e), _)) ==> e is Sqlite || e is Config,
{
    if let Some((Ok(rows), _)) = fetched_rows(t, at, reminds_call(ids)) {
        lemma_reminds_of_rows_errors(rows);
    }
}

proof fn lemma_insert_reminds_errors(t: Transcript, at: int, id: i64, dates: Seq<Date>)
    ensures
        insert_reminds_trace(t, at, id, dates) matches Some((Err(e), _)) ==> e is Sqlite,
    decreases dates.len(),
{
    if dates.len() > 0 {
        lemma_insert_reminds_errors(t, at, id, dates.drop_last());
    }
}

proof fn lemma_dates_of_items_errors(items: Seq<Json>)
    ensures
        tasks::dates_of_items(items) matches Err(e) ==> e is BadRequest,
    decreases items.len(),
{
    if items.len() > 0 {
        lemma_dates_of_items_errors(items.drop_last());
    }
}

/// Once a task was found, a change of it is not answered that it is not found.
#[verifier::rlimit(40)]
proof fn lemma_patch_errors(t: Transcript, at: int, id: i64, body: Json)
    ensures
        read_task_by_id_trace(t, at, id) matches Some((Ok(Some(_)), _)) ==> (
        tasks::patch_in_transaction_trace(t, at, id, body) matches Some((Err(e), _)) ==> !(
        e is NotFound)),
{
    if let Some((Ok(Some(existing)), a)) = read_task_by_id_trace(t, at, id) {
        if let Some((Ok(updated), b)) = tasks::patched_updated_trace(t, a, body) {
            let row = tasks::patched_row(body, existing, updated)->Ok_0;
            if let Some((Ok(_), c)) = update_task_row_trace(t, b, id, row) {
                if let Some(value) = field(body, "reminds"@) {
                    if let Json::Array(items) = value {
                        lemma_dates_of_items_errors(items@);
                    }
                    if let Ok(dates) = tasks::remind_dates(value) {
                        lemma_insert_reminds_errors(t, c + 1, id, dates);
                    }
                }
                if let Some((Ok(_), d)) = tasks::patched_reminds_trace(t, c, body, id) {
                    lemma_read_reminds_errors(t, d + 1, seq![id]);
                }
            }
        }
    }
}

// ------------------------------------------------------------------
// Success
// ------------------------------------------------------------------

/// A request for a task gives it with the columns of its row and its reminders,
/// and changes nothing.
pub proof fn law_task_is_shown(
    t: Transcript,
    h: History,
    at: int,
    end: int,
    id: i64,
    read: TaskResponseView,
)
    requires
        faithful(t, h, at, end),
        tasks::get_task_trace(t, at, id) == Some((Ok::<TaskResponseView, ErrorView>(read), end)),
    ensures
        h[end] == h[at],
        h[at].working.tasks.contains_key(id),
        shows_columns(h[at].working, id, read.task),
        t[end - 1] == (Event::Clock { now: read.server_time }),
{
    let w = h[at].working;
    let (outcome, got) = tasks::read_back_trace(t, at, id, ErrorView::NotFound)->0;
    let (task, reminds) = outcome->Ok_0;
    lemma_read_back_ends_later(t, at, id, ErrorView::NotFound);
    let texts = lemma_read_back_effect(t, h, at, id, ErrorView::NotFound, task, reminds, got);
    assert(follows(h[got], t[got], h[end]));
    law_rows_are_read_by_columns(w, id);
    lemma_midnights(task, w, id);
    assert(shows_reminds(w, id, dates_read(texts)));
}

/// A request for a task that exists and can be read gives it, unless the
/// database fails.
pub proof fn law_task_is_given(
    t: Transcript,
    h: History,
    at: int,
    end: int,
    id: i64,
    read: Result<TaskResponseView, ErrorView>,
)
    requires
        faithful(t, h, at, end),
        no_failures(t, at, end),
        h[at].working.tasks.contains_key(id),
        task_of_row(h[at].working.task_row(id)) is Ok,
        reminders_readable(h[at].working, id),
        tasks::get_task_trace(t, at, id) == Some((read, end)),
    ensures
        read is Ok,
{
    let (outcome, got) = tasks::read_back_trace(t, at, id, ErrorView::NotFound)->0;
    lemma_read_back_succeeds(t, h, at, id, ErrorView::NotFound, outcome, got);
}

/// A request to create a task whose body is not refused creates it, unless the
/// database fails.
#[verifier::rlimit(40)]
pub proof fn law_creation_succeeds(
    t: Transcript,
    h: History,
    at: int,
    end: int,
    body: Json,
    dto: TaskCreateView,
    created: Result<TaskResponseView, ErrorView>,
)
    requires
        faithful(t, h, at, end),
        !h[at].open,
        no_failures(t, at, end),
        valid_create(dto),
        tasks::create_refusal(body, Ok(dto)) is None,
        tasks::create_task_trace(t, at, body, Ok(dto)) == Some((created, end)),
    ensures
        created is Ok,
{
    assert(!tells_failure(t[at]));
    let begun = at + 1;
    let (outcome, worked) = tasks::create_in_transaction_trace(t, begun, dto)->0;
    let (settled, done) = settle_trace(t, worked, outcome)->0;
    lemma_create_ends_later(t, begun, dto);
    lemma_settle_ends_later(t, worked, outcome);
    assert(follows(h[at], t[at], h[begun]));
    lemma_create_succeeds(t, h, begun, dto, outcome, worked);
    lemma_settle_succeeds(t, worked, outcome, settled, done);
}

#[verifier::rlimit(40)]
proof fn lemma_create_succeeds(
    t: Transcript,
    h: History,
    at: int,
    dto: TaskCreateView,
    outcome: Result<(TaskView, Seq<Date>), ErrorView>,
    end: int,
)
    requires
        steps(t, h, at, end),
        h[at].settled(),
        no_failures(t, at, end),
        valid_create(dto),
        tasks::create_in_transaction_trace(t, at, dto) == Some((outcome, end)),
    ensures
        outcome is Ok,
{
    let row = tasks::create_row(dto);
    let missing = ErrorView::Config("just-inserted task disappeared from SQLite"@);
    let (inserted, a) = insert_task_row_trace(t, at, row, None)->0;
    if inserted is Ok {
        lemma_replace_reminds_ends_later(t, a, inserted->Ok_0, dto.reminds);
        let (replaced, b) = replace_reminds_trace(t, a, inserted->Ok_0, dto.reminds)->0;
        lemma_read_back_ends_later(t, b, inserted->Ok_0, missing);
    }
    lemma_insert_task_row_succeeds(t, h, at, row, None, inserted, a);
    let id = inserted->Ok_0;
    let project_id = lemma_insert_task_row_effect(t, h, at, row, None, id, a);
    let (replaced, b) = replace_reminds_trace(t, a, id, dto.reminds)->0;
    lemma_replace_reminds_succeeds(t, a, id, dto.reminds, replaced, b);
    lemma_replace_reminds_effect(t, h, a, id, dto.reminds, b);
    law_every_instant_has_a_day(dto.created_at);
    law_every_instant_has_a_day(dto.updated_at);
    lemma_stored_task(h[b].working, id, row, project_id);
    lemma_date_texts_readable(dto.reminds);
    lemma_readable_reminders(h[b].working, id, texts_of(dto.reminds));
    lemma_read_back_succeeds(t, h, b, id, missing, outcome, end);
}

/// Whether a body can be applied to a task: every field that it sends can be
/// read.
pub open spec fn applies(body: Json, existing: TaskView) -> bool {
    &&& tasks::patch_refusal(body) is None
    &&& tasks::patched_row(body, existing, existing.updated) is Ok
    &&& field(body, "updatedAt"@) matches Some(value) ==> tasks::datetime_day(
        value,
        "updatedAt"@,
    ) is Ok
    &&& field(body, "reminds"@) matches Some(value) ==> tasks::remind_dates(value) is Ok
}

/// A request to change a task that exists and can be read, with a body that can
/// be applied to it, changes it, unless the database fails.
#[verifier::rlimit(40)]
pub proof fn law_patch_succeeds(
    t: Transcript,
    h: History,
    at: int,
    end: int,
    id: i64,
    body: Json,
    existing: TaskView,
    patched: Result<TaskResponseView, ErrorView>,
)
    requires
        faithful(t, h, at, end),
        !h[at].open,
        no_failures(t, at, end),
        h[at].working.tasks.contains_key(id),
        task_of_row(h[at].working.task_row(id)) == Ok::<TaskView, FailureView>(existing),
        reminders_readable(h[at].working, id),
        applies(body, existing),
        tasks::patch_task_trace(t, at, id, body) == Some((patched, end)),
    ensures
        patched is Ok,
{
    assert(!tells_failure(t[at]));
    let begun = at + 1;
    let (outcome, worked) = tasks::patch_in_transaction_trace(t, begun, id, body)->0;
    let (settled, done) = settle_trace(t, worked, outcome)->0;
    lemma_patch_ends_later(t, begun, id, body);
    lemma_settle_ends_later(t, worked, outcome);
    assert(follows(h[at], t[at], h[begun]));
    lemma_patch_succeeds(t, h, begun, id, body, existing, outcome, worked);
    lemma_settle_succeeds(t, worked, outcome, settled, done);
}

#[verifier::rlimit(60)]
proof fn lemma_patch_succeeds(
    t: Transcript,
    h: History,
    at: int,
    id: i64,
    body: Json,
    existing: TaskView,
    outcome: Result<(TaskView, Seq<Date>), ErrorView>,
    end: int,
)
    requires
        steps(t, h, at, end),
        h[at].settled(),
        no_failures(t, at, end),
        h[at].working.tasks.contains_key(id),
        task_of_row(h[at].working.task_row(id)) == Ok::<TaskView, FailureView>(existing),
        reminders_readable(h[at].working, id),
        applies(body, existing),
        tasks::patch_in_transaction_trace(t, at, id, body) == Some((outcome, end)),
    ensures
        outcome is Ok,
{
    let missing = ErrorView::Config("task disappeared after UPDATE"@);
    let w = h[at].working;
    lemma_patch_ends_later(t, at, id, body);
    assert(follows(h[at], t[at], h[at + 1]));
    assert(!tells_failure(t[at]));
    assert(with_id(Statement::TaskById, id).params[0] == ParamView::Integer(id));
    let a = at + 1;
    assert(read_task_by_id_trace(t, at, id) == Some(
        (Ok::<Option<TaskView>, ErrorView>(Some(existing)), a),
    ));
    let (day, b) = tasks::patched_updated_trace(t, a, body)->0;
    assert(day is Ok);
    let updated = day->Ok_0;
    let row = tasks::patched_row(body, existing, updated)->Ok_0;
    let (wrote, c) = update_task_row_trace(t, b, id, row)->0;
    if wrote is Ok {
        lemma_patch_ends_later(t, c, id, body);
        let (reminded, d) = tasks::patched_reminds_trace(t, c, body, id)->0;
        if reminded is Ok {
            lemma_read_back_ends_later(t, d, id, missing);
        }
    }
    assert(h[b] == h[at]) by {
        if field(body, "updatedAt"@) is None {
            assert(follows(h[a], t[a], h[b]));
        }
    }
    assert(updated.valid()) by {
        match field(body, "updatedAt"@) {
            None => {
                assert(follows(h[a], t[a], h[b]));
                let now = (clock_read(t, a)->0).0;
                law_every_instant_has_a_day(now);
            },
            Some(value) => {
                lemma_datetime_day_valid(value, "updatedAt"@);
            },
        }
    }
    lemma_patched_row_valid(body, w.task_row(id), existing, updated);
    lemma_update_task_row_succeeds(t, h, b, id, row, wrote, c);
    let project_id = lemma_update_task_row_effect(t, h, b, id, row, c);
    let (reminded, d) = tasks::patched_reminds_trace(t, c, body, id)->0;
    assert(h[c].working.remind_texts(id) == w.remind_texts(id));
    match field(body, "reminds"@) {
        None => {
            assert(reminders_readable(h[d].working, id));
        },
        Some(value) => {
            let dates = tasks::remind_dates(value)->Ok_0;
            lemma_replace_reminds_succeeds(t, c, id, dates, reminded, d);
            lemma_replace_reminds_effect(t, h, c, id, dates, d);
            lemma_remind_dates_valid(value);
            lemma_date_texts_readable(dates);
            lemma_readable_reminders(h[d].working, id, texts_of(dates));
        },
    }
    lemma_stored_task(h[d].working, id, row, project_id);
    lemma_read_back_succeeds(t, h, d, id, missing, outcome, end);
}

// ------------------------------------------------------------------
// Rows
// ------------------------------------------------------------------

/// A row of `tasks` that was inserted is read back as the task with its columns,
/// unless the database fails.
pub proof fn law_inserted_row_reads_back(
    t: Transcript,
    h: History,
    at: int,
    mid: int,
    end: int,
    row: TaskRowView,
    explicit_id: Option<i64>,
    id: i64,
    read: Result<Option<TaskView>, ErrorView>,
)
    requires
        faithful(t, h, at, end),
        valid_row(row),
        insert_task_row_trace(t, at, row, explicit_id) == Some((Ok::<i64, ErrorView>(id), mid)),
        read_task_by_id_trace(t, mid, id) == Some((read, end)),
    ensures
        no_failures(t, mid, end) ==> read is Ok,
        read matches Ok(found) ==> found == Some(stored_task(id, row)),
{
    let project_id = lemma_insert_task_row_effect(t, h, at, row, explicit_id, id, mid);
    lemma_stored_task(h[mid].working, id, row, project_id);
    lemma_stored_row_is_read(t, h, mid, id, row, read, end);
}

/// A row of `tasks` that was updated is read back as the task with its columns,
/// unless the database fails.
pub proof fn law_updated_row_reads_back(
    t: Transcript,
    h: History,
    at: int,
    mid: int,
    end: int,
    id: i64,
    row: TaskRowView,
    read: Result<Option<TaskView>, ErrorView>,
)
    requires
        faithful(t, h, at, end),
        valid_row(row),
        h[at].working.tasks.contains_key(id),
        update_task_row_trace(t, at, id, row) == Some((Ok::<(), ErrorView>(()), mid)),
        read_task_by_id_trace(t, mid, id) == Some((read, end)),
    ensures
        no_failures(t, mid, end) ==> read is Ok,
        read matches Ok(found) ==> found == Some(stored_task(id, row)),
{
    let project_id = lemma_update_task_row_effect(t, h, at, id, row, mid);
    lemma_stored_task(h[mid].working, id, row, project_id);
    lemma_stored_row_is_read(t, h, mid, id, row, read, end);
}

proof fn lemma_stored_row_is_read(
    t: Transcript,
    h: History,
    at: int,
    id: i64,
    row: TaskRowView,
    read: Result<Option<TaskView>, ErrorView>,
    end: int,
)
    requires
        steps(t, h, at, end),
        h[at].working.tasks.contains_key(id),
        task_of_row(h[at].working.task_row(id)) == Ok::<TaskView, FailureView>(
            stored_task(id, row),
        ),
        read_task_by_id_trace(t, at, id) == Some((read, end)),
    ensures
        no_failures(t, at, end) ==> read is Ok,
        read matches Ok(found) ==> found == Some(stored_task(id, row)),
{
    assert(with_id(Statement::TaskById, id).params[0] == ParamView::Integer(id));
    assert(follows(h[at], t[at], h[end]));
    if no_failures(t, at, end) {
        assert(!tells_failure(t[at]));
    }
}

} // verus!
