//! What the columns of a task hold, field by field.

use vstd::multiset::Multiset;
use vstd::prelude::*;

use crate::date::{
    law_midnight_is_on_its_day, law_read_dates_are_valid, midnight_of, read_date, read_instant,
    Date, Timestamp,
};
use crate::effects::{shows_reminds, texts_of};
use crate::json::{field, Json};
use crate::model::{
    ChangedTaskView, SyncTaskView, TaskCreateView, TaskDtoView, TaskView, UnsyncedTaskView,
};
use crate::sql::FailureView;
use crate::sqlite::task_of_row;
use crate::tables::{TaskRecord, Tables};

verus! {

// ------------------------------------------------------------------
// Columns
// ------------------------------------------------------------------

/// Whether a column holds the text of a day, or nothing where there is none.
pub open spec fn column_holds(column: Option<Seq<char>>, day: Option<Date>) -> bool {
    match day {
        Some(d) => column == Some(d.text()),
        None => column is None,
    }
}

/// Whether the day is the one that a column says, or none where it is empty.
pub open spec fn column_says(column: Option<Seq<char>>, day: Option<Date>) -> bool {
    match column {
        Some(text) => day is Some && read_date(text) == Ok::<Date, Seq<char>>(day->0),
        None => day is None,
    }
}

/// Whether an instant is the first of a day in UTC.
pub open spec fn first_of_day(instant: Timestamp, day: Date) -> bool {
    &&& instant.on_day(day)
    &&& instant.seconds() % 86400 == 0
    &&& instant.nanos() == 0
}

/// Whether an instant is the first of the day that a column says.
pub open spec fn column_starts(column: Seq<char>, instant: Timestamp) -> bool {
    read_date(column) is Ok && first_of_day(instant, read_date(column)->Ok_0)
}

/// Whether a flag is 1 where something holds, and 0 where not.
pub open spec fn column_flags(column: i64, holds: bool) -> bool {
    if holds {
        column == 1
    } else {
        column == 0
    }
}

/// Whether a task belongs to the project with this name, or to none.
pub open spec fn column_names(w: Tables, project_id: Option<i64>, name: Option<Seq<char>>) -> bool {
    match name {
        Some(name) => project_id is Some && w.projects.contains_key(project_id->0)
            && w.projects[project_id->0] == name,
        None => project_id is None,
    }
}

/// Whether a status is shown as it stands in its column. What is no status is
/// shown as `open`.
pub open spec fn status_shown(column: Seq<char>, shown: Seq<char>) -> bool {
    if column == "done"@ || column == "closed"@ {
        shown == column
    } else {
        shown == "open"@
    }
}

// ------------------------------------------------------------------
// What is written
// ------------------------------------------------------------------

/// Whether a row holds what a new task was sent with.
pub open spec fn holds_created(w: Tables, row: TaskRecord, dto: TaskCreateView) -> bool {
    &&& row.title == dto.title
    &&& row.status == dto.status
    &&& row.source == dto.source
    &&& column_names(w, row.project_id, dto.project_name)
    &&& column_holds(row.due, dto.due)
    &&& column_holds(row.done_at, dto.done_at)
    &&& row.created == dto.created_at.date().text()
    &&& row.updated == dto.updated_at.date().text()
    &&& column_flags(row.important, dto.important)
}

/// Whether a row holds what the remote side changed a task to.
pub open spec fn holds_changed(w: Tables, row: TaskRecord, task: ChangedTaskView) -> bool {
    &&& row.title == task.title
    &&& row.status == task.status
    &&& row.source == task.source
    &&& column_names(w, row.project_id, task.project_name)
    &&& column_holds(row.due, task.due)
    &&& column_holds(row.done_at, task.done_at)
    &&& row.created == task.created_at.date().text()
    &&& row.updated == task.updated_at.date().text()
    &&& column_flags(row.important, task.important)
}

/// Whether a row holds a task of the remote side that had no number.
pub open spec fn holds_unsynced(w: Tables, row: TaskRecord, task: UnsyncedTaskView) -> bool {
    &&& row.title == task.title
    &&& row.status == task.status
    &&& row.source == task.source
    &&& column_names(w, row.project_id, task.project_name)
    &&& column_holds(row.due, task.due)
    &&& column_holds(row.done_at, task.done_at)
    &&& row.created == task.created_at.date().text()
    &&& row.updated == task.updated_at.date().text()
    &&& column_flags(row.important, task.important)
}

// ------------------------------------------------------------------
// What a body sends
// ------------------------------------------------------------------

/// The text of a value.
pub open spec fn sent_text(value: Json) -> Seq<char> {
    match value {
        Json::Text(s) => s@,
        _ => seq![],
    }
}

/// Whether a value is the text of a date.
pub open spec fn sends_date(value: Json) -> bool {
    value is Text && read_date(sent_text(value)) is Ok
}

/// Whether a value is the text of an instant.
pub open spec fn sends_instant(value: Json) -> bool {
    value is Text && read_instant(sent_text(value)) is Some
}

/// Whether a value is an array of texts of dates.
pub open spec fn sends_dates(value: Json) -> bool {
    value matches Json::Array(items) && forall|i: int|
        0 <= i < items@.len() ==> sends_date(#[trigger] items@[i])
}

/// Whether these are the dates of an array, in its order.
pub open spec fn are_dates_sent(value: Json, dates: Seq<Date>) -> bool {
    value matches Json::Array(items) && dates.len() == items@.len() && forall|i: int|
        0 <= i < items@.len() ==> (#[trigger] items@[i]) is Text && read_date(sent_text(items@[i]))
            == Ok::<Date, Seq<char>>(dates[i])
}

/// Whether a text is the one that was sent, or the one before where none was.
pub open spec fn text_patched(sent: Option<Json>, before: Seq<char>, after: Seq<char>) -> bool {
    match sent {
        None => after == before,
        Some(value) => value is Text && after == sent_text(value),
    }
}

/// Whether a status is the one that was sent, or the one before where none was.
pub open spec fn status_patched(sent: Option<Json>, before: Seq<char>, after: Seq<char>) -> bool {
    match sent {
        None => status_shown(before, after),
        Some(value) => value is Text && after == sent_text(value) && (after == "open"@ || after
            == "done"@ || after == "closed"@),
    }
}

/// Whether a task belongs to the project that was sent, to none where `null`
/// was, and to the one before where nothing was.
pub open spec fn project_patched(
    sent: Option<Json>,
    before: Option<Seq<char>>,
    w: Tables,
    after: Option<i64>,
) -> bool {
    match sent {
        None => column_names(w, after, before),
        Some(Json::Null) => after is None,
        Some(value) => value is Text && column_names(w, after, Some(sent_text(value))),
    }
}

/// Whether a column holds the day that was sent, nothing where `null` was, and
/// the day that it said before where nothing was.
pub open spec fn day_patched(
    sent: Option<Json>,
    before: Option<Seq<char>>,
    after: Option<Seq<char>>,
) -> bool {
    match sent {
        None => match before {
            None => after is None,
            Some(text) => read_date(text) is Ok && after == Some((read_date(text)->Ok_0).text()),
        },
        Some(Json::Null) => after is None,
        Some(value) => sends_date(value) && after == Some(
            (read_date(sent_text(value))->Ok_0).text(),
        ),
    }
}

/// Whether a flag is the one that was sent, or the one before where none was.
pub open spec fn flag_patched(sent: Option<Json>, before: i64, after: i64) -> bool {
    match sent {
        None => column_flags(after, before != 0),
        Some(Json::Bool(b)) => column_flags(after, b),
        Some(_) => false,
    }
}

/// Whether a column holds the day in UTC of the instant that was sent, or the
/// day that it said before where none was.
pub open spec fn instant_patched(sent: Option<Json>, before: Seq<char>, after: Seq<char>) -> bool {
    match sent {
        None => read_date(before) is Ok && after == (read_date(before)->Ok_0).text(),
        Some(value) => sends_instant(value) && after == (read_instant(
            sent_text(value),
        )->0).date().text(),
    }
}

/// Whether the reminders of a task are those that were sent, or those before
/// where none were.
pub open spec fn reminders_patched(
    sent: Option<Json>,
    before: Multiset<Seq<char>>,
    after: Multiset<Seq<char>>,
) -> bool {
    match sent {
        None => after == before,
        Some(value) => exists|dates: Seq<Date>| #[trigger]
            are_dates_sent(value, dates) && after == texts_of(dates).to_multiset(),
    }
}

/// Whether each column of a task, but for the day of the last change, is what
/// the body sends for it, or what it was before where the body sends nothing.
pub open spec fn patches_columns(before: Tables, after: Tables, id: i64, body: Json) -> bool {
    let old_row = before.tasks[id];
    let new_row = after.tasks[id];
    &&& text_patched(field(body, "title"@), old_row.title, new_row.title)
    &&& status_patched(field(body, "status"@), old_row.status, new_row.status)
    &&& text_patched(field(body, "source"@), old_row.source, new_row.source)
    &&& project_patched(
        field(body, "projectName"@),
        before.project_name(old_row),
        after,
        new_row.project_id,
    )
    &&& day_patched(field(body, "due"@), old_row.due, new_row.due)
    &&& day_patched(field(body, "doneAt"@), old_row.done_at, new_row.done_at)
    &&& flag_patched(field(body, "important"@), old_row.important, new_row.important)
    &&& instant_patched(field(body, "createdAt"@), old_row.created, new_row.created)
    &&& reminders_patched(
        field(body, "reminds"@),
        before.remind_texts(id),
        after.remind_texts(id),
    )
}

// ------------------------------------------------------------------
// What is read
// ------------------------------------------------------------------

/// Whether a task is shown to a client with the columns of its row and its
/// reminders.
pub open spec fn shows_columns(w: Tables, id: i64, shown: TaskDtoView) -> bool {
    let row = w.tasks[id];
    &&& shown.task_number == id
    &&& shown.title == row.title
    &&& status_shown(row.status, shown.status)
    &&& shown.source == row.source
    &&& shown.project_name == w.project_name(row)
    &&& column_says(row.due, shown.due)
    &&& column_says(row.done_at, shown.done_at)
    &&& shown.important == (row.important != 0)
    &&& column_starts(row.updated, shown.updated_at)
    &&& column_starts(row.created, shown.created_at)
    &&& shows_reminds(w, id, shown.reminds)
}

/// Whether a task is pushed with the columns of its row and its reminders.
pub open spec fn pushes_columns(w: Tables, id: i64, pushed: SyncTaskView) -> bool {
    let row = w.tasks[id];
    &&& pushed.task_number == id
    &&& pushed.title == row.title
    &&& status_shown(row.status, pushed.status)
    &&& pushed.source == row.source
    &&& pushed.project_name == w.project_name(row)
    &&& column_says(row.due, pushed.due)
    &&& column_says(row.done_at, pushed.done_at)
    &&& pushed.important == (row.important != 0)
    &&& column_starts(row.updated, pushed.updated_at)
    &&& column_starts(row.created, pushed.created_at)
    &&& shows_reminds(w, id, pushed.reminds)
}

/// Whether a task that was read is the one in the columns of its row.
pub open spec fn reads_columns(w: Tables, id: i64, task: TaskView) -> bool {
    let row = w.tasks[id];
    &&& task.id == id
    &&& task.title == row.title
    &&& status_shown(row.status, task.status.word())
    &&& task.source == row.source
    &&& task.project == w.project_name(row)
    &&& column_says(row.due, task.due)
    &&& column_says(row.done_at, task.done_at)
    &&& read_date(row.created) == Ok::<Date, Seq<char>>(task.created)
    &&& read_date(row.updated) == Ok::<Date, Seq<char>>(task.updated)
    &&& task.important == (row.important != 0)
}

/// Whether a failure tells of a column for a day that says none, and why.
pub open spec fn tells_bad_day(row: TaskRecord, failure: FailureView) -> bool {
    failure matches FailureView::Conversion { index, reason } && {
        ||| index == 5 && row.due is Some && read_date(row.due->0) == Err::<Date, Seq<char>>(reason)
        ||| index == 6 && row.done_at is Some && read_date(row.done_at->0) == Err::<
            Date,
            Seq<char>,
        >(reason)
        ||| index == 7 && read_date(row.created) == Err::<Date, Seq<char>>(reason)
        ||| index == 8 && read_date(row.updated) == Err::<Date, Seq<char>>(reason)
    }
}

/// A task that is read from its row has the columns of the row. One that cannot
/// be read has a column for a day that says none, and the failure tells which.
pub proof fn law_rows_are_read_by_columns(w: Tables, id: i64)
    ensures
        match task_of_row(w.task_row(id)) {
            Ok(task) => reads_columns(w, id, task),
            Err(e) => tells_bad_day(w.tasks[id], e),
        },
{
    let cells = w.task_row(id);
    assert(cells.len() == 10);
    reveal_strlit("open");
    reveal_strlit("done");
    reveal_strlit("closed");
}

pub(crate) proof fn lemma_midnights(task: TaskView, w: Tables, id: i64)
    requires
        reads_columns(w, id, task),
    ensures
        column_starts(w.tasks[id].created, midnight_of(task.created)),
        column_starts(w.tasks[id].updated, midnight_of(task.updated)),
{
    broadcast use law_read_dates_are_valid;

    law_midnight_is_on_its_day(task.created);
    law_midnight_is_on_its_day(task.updated);
}

} // verus!
