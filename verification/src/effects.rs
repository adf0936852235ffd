//! What the functions of [`crate::sqlite`] do to the contents of the database.

use vstd::multiset::Multiset;
use vstd::prelude::*;

use crate::date::{law_dates_read_back, read_date, Date};
use crate::error::ErrorView;
use crate::http::tasks::read_back_trace;
use crate::http::transaction::settle_trace;
use crate::model::{is_status, status_of, ProjectView, TaskView};
use crate::session::{Event, RowsView, Transcript};
use crate::sql::{CellView, FailureView, ParamView, RowView};
use crate::sqlite::{
    date_text, flag, insert_call, insert_reminds_trace, insert_task_row_trace,
    insert_with_id_call, optional_project_trace, projects_of_rows, read_reminds_trace,
    remind_of_row, reminds_call, reminds_of, reminds_of_rows, replace_reminds_trace,
    resolve_project_trace, task_columns, task_of_row, tasks_of_rows, update_call,
    update_task_row_trace, with_id, with_text, Reminds, TaskRowView,
};
use crate::statement::Statement;
use crate::tables::{
    are_reminds, broken_off, follows, no_failures, pair_rows, project_rows, record_of, steps,
    task_rows, tells_failure, texts_for, Database, History, TaskRecord, Tables,
};
use crate::text::{lemma_text_order_total, text_before, text_order};

verus! {

/// The same transaction state: open or not, and the same to fall back to.
pub open spec fn same_frame(before: Database, after: Database) -> bool {
    after.open == before.open && (before.open ==> after.committed == before.committed)
}

/// Every project of `before` is in `after`, with its name.
pub open spec fn keeps_projects(before: Tables, after: Tables) -> bool {
    forall|id: i64| #[trigger]
        before.projects.contains_key(id) ==> after.projects.contains_key(id) && after.projects[id]
            == before.projects[id]
}

/// The row of `tasks` that holds these columns.
pub open spec fn record(row: TaskRowView, project_id: Option<i64>) -> TaskRecord {
    TaskRecord {
        title: row.title,
        status: row.status,
        source: row.source,
        project_id,
        due: date_text(row.due),
        done_at: date_text(row.done_at),
        created: row.created.text(),
        updated: row.updated.text(),
        important: flag(row.important),
    }
}

/// Whether the project id stands for the name in the row.
pub open spec fn names_project(w: Tables, row: TaskRowView, project_id: Option<i64>) -> bool {
    match row.project {
        None => project_id is None,
        Some(name) => project_id is Some && w.projects.contains_key(project_id->0)
            && w.projects[project_id->0] == name,
    }
}

/// The project with this name exists afterwards, under the id that is given.
pub proof fn lemma_resolve_project_effect(
    t: Transcript,
    h: History,
    at: int,
    name: Seq<char>,
    id: i64,
    end: int,
)
    requires
        steps(t, h, at, end),
        h[at].settled(),
        resolve_project_trace(t, at, name) == Some((Ok::<i64, ErrorView>(id), end)),
    ensures
        at < end,
        h[end].settled(),
        same_frame(h[at], h[end]),
        keeps_projects(h[at].working, h[end].working),
        h[end].working.projects.contains_key(id),
        h[end].working.projects[id] == name,
        h[at].working.names(name) ==> h[end] == h[at],
        h[end].working == (Tables { projects: h[end].working.projects, ..h[at].working }),
{
    assert(follows(h[at], t[at], h[at + 1]));
    assert(follows(h[at + 1], t[at + 1], h[at + 2]));
    let call = with_text(Statement::AddProjectIfMissing, name);
    assert(call.params[0] == ParamView::Text(name));
    let call2 = with_text(Statement::ProjectIdByName, name);
    assert(call2.params[0] == ParamView::Text(name));
}

proof fn lemma_record_of(row: TaskRowView, project_id: Option<i64>, id: i64)
    ensures
        record_of(insert_call(row, project_id).params, 0) == record(row, project_id),
        record_of(update_call(id, row, project_id).params, 0) == record(row, project_id),
        update_call(id, row, project_id).params[9] == ParamView::Integer(id),
        record_of(insert_with_id_call(id, row, project_id).params, 1) == record(row, project_id),
        insert_with_id_call(id, row, project_id).params[0] == ParamView::Integer(id),
{
    let c = task_columns(row, project_id);
    let p = insert_with_id_call(id, row, project_id).params;
    assert forall|i: int| 0 <= i < 9 implies #[trigger] p[i + 1] == c[i] by {}
    assert(p[1] == c[0] && p[2] == c[1] && p[3] == c[2] && p[4] == c[3] && p[5] == c[4] && p[6]
        == c[5] && p[7] == c[6] && p[8] == c[7] && p[9] == c[8]);
}

/// Whether an id is greater than those of all tasks.
pub open spec fn newest(w: Tables, id: i64) -> bool {
    forall|other: i64| #[trigger] w.tasks.contains_key(other) ==> other < id
}

/// A task with these columns exists afterwards under the id that is given, and
/// did not before. An id that the database gives is positive and greater than
/// all others. Other tasks and all reminders are as they were.
pub proof fn lemma_insert_task_row_effect(
    t: Transcript,
    h: History,
    at: int,
    row: TaskRowView,
    explicit_id: Option<i64>,
    id: i64,
    end: int,
) -> (project_id: Option<i64>)
    requires
        steps(t, h, at, end),
        h[at].settled(),
        insert_task_row_trace(t, at, row, explicit_id) == Some((Ok::<i64, ErrorView>(id), end)),
    ensures
        at < end,
        h[end].settled(),
        same_frame(h[at], h[end]),
        keeps_projects(h[at].working, h[end].working),
        explicit_id is Some ==> id == explicit_id->0,
        explicit_id is None ==> id > 0 && newest(h[at].working, id),
        is_status(row.status),
        !h[at].working.tasks.contains_key(id),
        names_project(h[end].working, row, project_id),
        h[end].working == (Tables {
            projects: h[end].working.projects,
            tasks: h[at].working.tasks.insert(id, record(row, project_id)),
            ..h[at].working
        }),
{
    let (resolved, a) = optional_project_trace(t, at, row.project)->0;
    let project_id = resolved->Ok_0;
    if row.project is Some {
        lemma_resolve_project_effect(t, h, at, row.project->0, project_id->0, a);
    }
    lemma_record_of(row, project_id, id);
    assert(follows(h[a], t[a], h[a + 1]));
    if explicit_id is None {
        assert(follows(h[a + 1], t[a + 1], h[a + 2]));
    }
    project_id
}

/// The task has these columns afterwards, if it existed. Other tasks and all
/// reminders are as they were.
pub proof fn lemma_update_task_row_effect(
    t: Transcript,
    h: History,
    at: int,
    id: i64,
    row: TaskRowView,
    end: int,
) -> (project_id: Option<i64>)
    requires
        steps(t, h, at, end),
        h[at].settled(),
        update_task_row_trace(t, at, id, row) == Some((Ok::<(), ErrorView>(()), end)),
        h[at].working.tasks.contains_key(id),
    ensures
        at < end,
        h[end].settled(),
        same_frame(h[at], h[end]),
        keeps_projects(h[at].working, h[end].working),
        names_project(h[end].working, row, project_id),
        h[end].working == (Tables {
            projects: h[end].working.projects,
            tasks: h[at].working.tasks.insert(id, record(row, project_id)),
            ..h[at].working
        }),
{
    let (resolved, a) = optional_project_trace(t, at, row.project)->0;
    let project_id = resolved->Ok_0;
    if row.project is Some {
        lemma_resolve_project_effect(t, h, at, row.project->0, project_id->0, a);
    }
    lemma_record_of(row, project_id, id);
    assert(follows(h[a], t[a], h[a + 1]));
    project_id
}

// ------------------------------------------------------------------
// Reminders
// ------------------------------------------------------------------

/// The texts of dates.
pub open spec fn texts_of(dates: Seq<Date>) -> Seq<Seq<char>> {
    dates.map_values(|d: Date| d.text())
}

/// The given dates are added to the reminders of the task. Those of other
/// tasks, all tasks and all projects are as they were.
pub proof fn lemma_insert_reminds_effect(
    t: Transcript,
    h: History,
    at: int,
    id: i64,
    dates: Seq<Date>,
    end: int,
)
    requires
        steps(t, h, at, end),
        h[at].settled(),
        insert_reminds_trace(t, at, id, dates) == Some((Ok::<(), ErrorView>(()), end)),
    ensures
        at <= end,
        h[end].settled(),
        same_frame(h[at], h[end]),
        h[end].working == (Tables { reminds: h[end].working.reminds, ..h[at].working }),
        h[end].working.remind_texts(id) == h[at].working.remind_texts(id).add(
            texts_of(dates).to_multiset(),
        ),
        forall|other: i64|
            other != id ==> #[trigger] h[end].working.remind_texts(other)
                == h[at].working.remind_texts(other),
    decreases dates.len(),
{
    broadcast use vstd::multiset::group_multiset_axioms;
    broadcast use vstd::seq_lib::group_to_multiset_ensures;

    if dates.len() == 0 {
        assert(texts_of(dates) =~= seq![]);
        assert(h[end].working.remind_texts(id) =~= h[at].working.remind_texts(id).add(
            texts_of(dates).to_multiset(),
        ));
    } else {
        let (_, mid) = insert_reminds_trace(t, at, id, dates.drop_last())->0;
        lemma_insert_reminds_ends_later(t, at, id, dates.drop_last());
        lemma_insert_reminds_effect(t, h, at, id, dates.drop_last(), mid);
        assert(follows(h[mid], t[mid], h[mid + 1]));
        let before = texts_of(dates.drop_last());
        assert(texts_of(dates) =~= before.push(dates.last().text()));
        let w = h[mid].working;
        assert(h[end].working.reminds == w.reminds.insert(
            id,
            w.remind_texts(id).insert(dates.last().text()),
        ));
        assert(h[end].working.remind_texts(id) =~= h[at].working.remind_texts(id).add(
            texts_of(dates).to_multiset(),
        ));
        assert forall|other: i64| other != id implies #[trigger] h[end].working.remind_texts(other)
            == h[at].working.remind_texts(other) by {
            assert(w.remind_texts(other) == h[at].working.remind_texts(other));
        }
    }
}

/// Insertions end behind the place where they begin.
pub proof fn lemma_insert_reminds_ends_later(t: Transcript, at: int, id: i64, dates: Seq<Date>)
    ensures
        insert_reminds_trace(t, at, id, dates) matches Some((_, end)) ==> at <= end,
    decreases dates.len(),
{
    if dates.len() > 0 {
        lemma_insert_reminds_ends_later(t, at, id, dates.drop_last());
    }
}

/// The reminders of the task are the given dates afterwards. Those of other
/// tasks, all tasks and all projects are as they were.
pub proof fn lemma_replace_reminds_effect(
    t: Transcript,
    h: History,
    at: int,
    id: i64,
    dates: Seq<Date>,
    end: int,
)
    requires
        steps(t, h, at, end),
        h[at].settled(),
        replace_reminds_trace(t, at, id, dates) == Some((Ok::<(), ErrorView>(()), end)),
    ensures
        at < end,
        h[end].settled(),
        same_frame(h[at], h[end]),
        h[end].working == (Tables { reminds: h[end].working.reminds, ..h[at].working }),
        h[end].working.remind_texts(id) == texts_of(dates).to_multiset(),
        forall|other: i64|
            other != id ==> #[trigger] h[end].working.remind_texts(other)
                == h[at].working.remind_texts(other),
{
    broadcast use vstd::multiset::group_multiset_axioms;

    lemma_insert_reminds_ends_later(t, at + 1, id, dates);
    assert(follows(h[at], t[at], h[at + 1]));
    assert(with_id(Statement::DeleteReminds, id).params[0] == ParamView::Integer(id));
    lemma_insert_reminds_effect(t, h, at + 1, id, dates, end);
    assert(h[at + 1].working.remind_texts(id) =~= Multiset::empty());
    assert(h[end].working.remind_texts(id) =~= texts_of(dates).to_multiset());
    assert forall|other: i64| other != id implies #[trigger] h[end].working.remind_texts(other)
        == h[at].working.remind_texts(other) by {
        assert(h[at + 1].working.remind_texts(other) == h[at].working.remind_texts(other));
    }
}

/// The dates that texts are read as.
pub open spec fn dates_read(texts: Seq<Seq<char>>) -> Seq<Date> {
    texts.map_values(|text: Seq<char>| read_date(text)->Ok_0)
}

/// Whether every text is read as a date.
pub open spec fn readable(texts: Seq<Seq<char>>) -> bool {
    forall|i: int| 0 <= i < texts.len() ==> read_date(#[trigger] texts[i]) is Ok
}

/// Rows whose texts are dates give reminders.
proof fn lemma_readable_pairs(pairs: Seq<(i64, Seq<char>)>)
    requires
        forall|i: int| 0 <= i < pairs.len() ==> read_date((#[trigger] pairs[i]).1) is Ok,
    ensures
        reminds_of_rows(pair_rows(pairs)) is Ok,
    decreases pairs.len(),
{
    let rows = pair_rows(pairs);
    if pairs.len() > 0 {
        let first = pairs.drop_last();
        assert(rows.drop_last() =~= pair_rows(first));
        assert forall|i: int| 0 <= i < first.len() implies read_date(
            (#[trigger] first[i]).1,
        ) is Ok by {
            assert(first[i] == pairs[i]);
        }
        lemma_readable_pairs(first);
        let (task, text) = pairs[pairs.len() - 1];
        let row: RowView = seq![CellView::Integer(task), CellView::Text(text)];
        assert(rows.last() == Ok::<RowView, FailureView>(row));
    }
}

proof fn lemma_texts_for_contains(pairs: Seq<(i64, Seq<char>)>, i: int)
    requires
        0 <= i < pairs.len(),
    ensures
        texts_for(pairs, pairs[i].0).contains(pairs[i].1),
    decreases pairs.len(),
{
    let id = pairs[i].0;
    let texts = texts_for(pairs, id);
    let last = pairs.len() - 1;
    if i == last {
        assert(texts[texts.len() - 1] == pairs[i].1);
    } else {
        let before = texts_for(pairs.drop_last(), id);
        assert(pairs.drop_last()[i] == pairs[i]);
        lemma_texts_for_contains(pairs.drop_last(), i);
        let j = choose|j: int| 0 <= j < before.len() && before[j] == pairs[i].1;
        assert(texts[j] == pairs[i].1);
    }
}

/// Reminders that are all dates are read where nothing fails.
pub proof fn lemma_read_reminds_succeeds(
    t: Transcript,
    h: History,
    at: int,
    ids: Seq<i64>,
    r: Result<Reminds, ErrorView>,
    end: int,
)
    requires
        steps(t, h, at, end),
        no_failures(t, at, end),
        read_reminds_trace(t, at, ids) == Some((r, end)),
        forall|i: int| 0 <= i < ids.len() ==> reminders_readable(h[at].working, #[trigger] ids[i]),
    ensures
        r is Ok,
{
    broadcast use vstd::seq_lib::group_to_multiset_ensures;

    if ids.len() > 0 {
        assert(follows(h[at], t[at], h[at + 1]));
        assert(!tells_failure(t[at]));
        let w = h[at].working;
        let call = reminds_call(ids);
        let rows = match t[at] {
            Event::FetchedRows { call, rows: Ok(rows) } => rows,
            _ => arbitrary(),
        };
        let pairs = choose|pairs: Seq<(i64, Seq<char>)>| #[trigger]
            are_reminds(w, call.params, pairs) && rows == pair_rows(pairs);
        assert forall|i: int| 0 <= i < pairs.len() implies read_date(
            (#[trigger] pairs[i]).1,
        ) is Ok by {
            let (id, text) = pairs[i];
            assert(call.params.contains(ParamView::Integer(id)));
            let k = choose|k: int|
                0 <= k < call.params.len() && call.params[k] == ParamView::Integer(id);
            assert(ids[k] == id);
            lemma_texts_for_contains(pairs, i);
            assert(texts_for(pairs, id).to_multiset().count(text) > 0);
            assert(w.remind_texts(id).contains(text));
        }
        lemma_readable_pairs(pairs);
    }
}

/// Whether every reminder of a task is a date.
pub open spec fn reminders_readable(w: Tables, id: i64) -> bool {
    forall|text: Seq<char>| #[trigger]
        w.remind_texts(id).contains(text) ==> read_date(text) is Ok
}

proof fn lemma_reminds_by_task(pairs: Seq<(i64, Seq<char>)>, reminds: Reminds, id: i64)
    requires
        reminds_of_rows(pair_rows(pairs)) == Ok::<Reminds, ErrorView>(reminds),
    ensures
        reminds_of(reminds, id) == dates_read(texts_for(pairs, id)),
        readable(texts_for(pairs, id)),
    decreases pairs.len(),
{
    let rows = pair_rows(pairs);
    if pairs.len() == 0 {
        assert(reminds_of(reminds, id) =~= dates_read(texts_for(pairs, id)));
    } else {
        assert(rows.drop_last() =~= pair_rows(pairs.drop_last()));
        let before = reminds_of_rows(rows.drop_last())->Ok_0;
        lemma_reminds_by_task(pairs.drop_last(), before, id);
        let (task, text) = pairs.last();
        let row: RowView = seq![CellView::Integer(task), CellView::Text(text)];
        assert(rows.last() == Ok::<RowView, FailureView>(row));
        assert(remind_of_row(row) is Ok);
        let date = read_date(text)->Ok_0;
        assert(remind_of_row(row) == Ok::<(i64, Date), ErrorView>((task, date)));
        assert(reminds == before.insert(task, reminds_of(before, task).push(date)));
        assert(reminds_of(reminds, id) =~= dates_read(texts_for(pairs, id)));
    }
}

proof fn lemma_texts_sorted(pairs: Seq<(i64, Seq<char>)>, id: i64)
    requires
        forall|i: int, j: int|
            0 <= i < j < pairs.len() ==> (#[trigger] pairs[i]).0 <= (#[trigger] pairs[j]).0 && (
            pairs[i].0 == pairs[j].0 ==> !text_before(pairs[j].1, pairs[i].1)),
    ensures
        vstd::relations::sorted_by(texts_for(pairs, id), text_order()),
        forall|k: int|
            0 <= k < texts_for(pairs, id).len() ==> pairs.contains(
                (id, #[trigger] texts_for(pairs, id)[k]),
            ),
    decreases pairs.len(),
{
    let texts = texts_for(pairs, id);
    if pairs.len() > 0 {
        let first = pairs.drop_last();
        assert forall|i: int, j: int| 0 <= i < j < first.len() implies (#[trigger] first[i]).0 <= (
        #[trigger] first[j]).0 && (first[i].0 == first[j].0 ==> !text_before(
            first[j].1,
            first[i].1,
        )) by {
            assert(pairs[i].0 <= pairs[j].0);
        }
        lemma_texts_sorted(first, id);
        let before = texts_for(first, id);
        let last = pairs.len() - 1;
        assert forall|k: int| 0 <= k < texts.len() implies pairs.contains(
            (id, #[trigger] texts[k]),
        ) by {
            if k < before.len() {
                assert(first.contains((id, before[k])));
                let i = choose|i: int| 0 <= i < first.len() && #[trigger] first[i] == (id, before[k]);
                assert(pairs[i] == (id, texts[k]));
            } else {
                assert(pairs[last] == (id, texts[k]));
            }
        }
        assert forall|i: int, j: int| 0 <= i < j < texts.len() implies #[trigger] text_order()(
            texts[i],
            texts[j],
        ) by {
            if j < before.len() {
                assert(text_order()(before[i], before[j]));
            } else {
                assert(first.contains((id, before[i])));
                let k = choose|k: int| 0 <= k < first.len() && #[trigger] first[k] == (id, before[i]);
                assert(pairs[k].0 == pairs[last].0);
            }
        }
    }
}

/// Dates that are read from the texts of the given ones are those, in the
/// order of their texts.
pub proof fn lemma_dates_back(dates: Seq<Date>, texts: Seq<Seq<char>>)
    requires
        forall|i: int| 0 <= i < dates.len() ==> (#[trigger] dates[i]).valid(),
        texts.to_multiset() == texts_of(dates).to_multiset(),
    ensures
        dates_read(texts).to_multiset() == dates.to_multiset(),
        texts_of(dates_read(texts)) == texts,
{
    let sent = texts_of(dates);
    lemma_map_multiset(texts, sent, |text: Seq<char>| read_date(text)->Ok_0);
    assert(dates_read(sent) =~= dates) by {
        assert forall|i: int| 0 <= i < dates.len() implies dates_read(sent)[i] == dates[i] by {
            law_dates_read_back(dates[i]);
        }
    }
    assert(texts_of(dates_read(texts)) =~= texts) by {
        broadcast use vstd::seq_lib::group_to_multiset_ensures;

        assert forall|i: int| 0 <= i < texts.len() implies texts_of(dates_read(texts))[i]
            == texts[i] by {
            assert(texts.contains(texts[i]));
            assert(texts.to_multiset().count(texts[i]) > 0);
            assert(sent.contains(texts[i]));
            let j = choose|j: int| 0 <= j < sent.len() && sent[j] == texts[i];
            law_dates_read_back(dates[j]);
        }
    }
}

/// Mapping keeps two lists of the same elements lists of the same elements.
pub proof fn lemma_map_multiset<A, B>(a: Seq<A>, b: Seq<A>, f: spec_fn(A) -> B)
    requires
        a.to_multiset() == b.to_multiset(),
    ensures
        a.map_values(f).to_multiset() == b.map_values(f).to_multiset(),
    decreases a.len(),
{
    broadcast use vstd::multiset::group_multiset_axioms;
    broadcast use vstd::seq_lib::group_to_multiset_ensures;

    assert(a.len() == a.to_multiset().len());
    assert(b.len() == b.to_multiset().len());
    if a.len() == 0 {
        assert(a.map_values(f) =~= b.map_values(f));
    } else {
        let x = a.last();
        assert(a.contains(x));
        assert(a.to_multiset().count(x) > 0);
        assert(b.contains(x));
        let i = choose|i: int| 0 <= i < b.len() && b[i] == x;
        assert(a.drop_last().push(x) =~= a);
        assert(a.drop_last().to_multiset() =~= a.to_multiset().remove(x)) by {
            assert(a.remove(a.len() - 1) =~= a.drop_last());
        }
        assert(b.remove(i).to_multiset() =~= b.to_multiset().remove(x));
        lemma_map_multiset(a.drop_last(), b.remove(i), f);
        let fa = a.map_values(f);
        let fb = b.map_values(f);
        assert(fa =~= a.drop_last().map_values(f).push(f(x)));
        assert(fb.remove(i) =~= b.remove(i).map_values(f));
        assert(fb.to_multiset().count(f(x)) > 0) by {
            assert(fb[i] == f(x));
            assert(fb.contains(f(x)));
        }
        assert(fb.to_multiset() =~= fb.remove(i).to_multiset().insert(f(x)));
    }
}

// ------------------------------------------------------------------
// Reading back
// ------------------------------------------------------------------

/// Whether the dates in the columns are dates.
pub open spec fn valid_row(row: TaskRowView) -> bool {
    &&& row.created.valid()
    &&& row.updated.valid()
    &&& row.due matches Some(d) ==> d.valid()
    &&& row.done_at matches Some(d) ==> d.valid()
}

/// The task with these columns.
pub open spec fn stored_task(id: i64, row: TaskRowView) -> TaskView {
    TaskView {
        id,
        title: row.title,
        status: status_of(row.status),
        source: row.source,
        project: row.project,
        due: row.due,
        done_at: row.done_at,
        created: row.created,
        updated: row.updated,
        important: row.important,
    }
}

/// A task reads as the columns that were written.
pub proof fn lemma_stored_task(w: Tables, id: i64, row: TaskRowView, project_id: Option<i64>)
    requires
        w.tasks.contains_key(id),
        w.tasks[id] == record(row, project_id),
        names_project(w, row, project_id),
        valid_row(row),
    ensures
        task_of_row(w.task_row(id)) == Ok::<TaskView, FailureView>(stored_task(id, row)),
{
    let cells = w.task_row(id);
    assert(cells.len() == 10);
    law_dates_read_back(row.created);
    law_dates_read_back(row.updated);
    if let Some(d) = row.due {
        law_dates_read_back(d);
    }
    if let Some(d) = row.done_at {
        law_dates_read_back(d);
    }
}

/// What is read of a task and its reminders is what the tables hold. Reading
/// changes nothing.
pub proof fn lemma_read_back_effect(
    t: Transcript,
    h: History,
    at: int,
    id: i64,
    missing: ErrorView,
    task: TaskView,
    reminds: Seq<Date>,
    end: int,
) -> (texts: Seq<Seq<char>>)
    requires
        steps(t, h, at, end),
        read_back_trace(t, at, id, missing) == Some(
            (Ok::<(TaskView, Seq<Date>), ErrorView>((task, reminds)), end),
        ),
    ensures
        end == at + 2,
        h[end] == h[at],
        h[at].working.tasks.contains_key(id),
        task_of_row(h[at].working.task_row(id)) == Ok::<TaskView, FailureView>(task),
        reminds == dates_read(texts),
        readable(texts),
        texts.to_multiset() == h[at].working.remind_texts(id),
        vstd::relations::sorted_by(texts, text_order()),
{
    assert(follows(h[at], t[at], h[at + 1]));
    assert(follows(h[at + 1], t[at + 1], h[at + 2]));
    assert(with_id(Statement::TaskById, id).params[0] == ParamView::Integer(id));
    let w = h[at].working;
    let ids = seq![id];
    let call = reminds_call(ids);
    assert(call.params[0] == ParamView::Integer(id));
    assert(call.params.contains(ParamView::Integer(id)));
    let rows = match t[at + 1] {
        Event::FetchedRows { call, rows: Ok(rows) } => rows,
        _ => arbitrary(),
    };
    if broken_off(rows) {
        lemma_broken_reminds(rows);
    }
    let pairs = choose|pairs: Seq<(i64, Seq<char>)>| #[trigger]
        are_reminds(w, call.params, pairs) && rows == pair_rows(pairs);
    let map = reminds_of_rows(rows)->Ok_0;
    lemma_reminds_by_task(pairs, map, id);
    lemma_texts_sorted(pairs, id);
    texts_for(pairs, id)
}

/// A task that is in the table, with reminders that are dates, is read where
/// nothing fails.
pub proof fn lemma_read_back_succeeds(
    t: Transcript,
    h: History,
    at: int,
    id: i64,
    missing: ErrorView,
    r: Result<(TaskView, Seq<Date>), ErrorView>,
    end: int,
)
    requires
        steps(t, h, at, end),
        no_failures(t, at, end),
        read_back_trace(t, at, id, missing) == Some((r, end)),
        h[at].working.tasks.contains_key(id),
        task_of_row(h[at].working.task_row(id)) is Ok,
        reminders_readable(h[at].working, id),
    ensures
        r is Ok,
{
    assert(follows(h[at], t[at], h[at + 1]));
    assert(!tells_failure(t[at]));
    assert(with_id(Statement::TaskById, id).params[0] == ParamView::Integer(id));
    let (read, mid) = read_reminds_trace(t, at + 1, seq![id])->0;
    lemma_read_reminds_succeeds(t, h, at + 1, seq![id], read, mid);
}

/// Reminders whose texts are dates can be read.
pub proof fn lemma_readable_reminders(w: Tables, id: i64, texts: Seq<Seq<char>>)
    requires
        readable(texts),
        texts.to_multiset() == w.remind_texts(id),
    ensures
        reminders_readable(w, id),
{
    broadcast use vstd::seq_lib::group_to_multiset_ensures;

    assert forall|text: Seq<char>| #[trigger] w.remind_texts(id).contains(text) implies read_date(
        text,
    ) is Ok by {
        assert(texts.contains(text));
        let j = choose|j: int| 0 <= j < texts.len() && texts[j] == text;
        assert(read_date(texts[j]) is Ok);
    }
}

/// The texts of dates are read as dates.
pub proof fn lemma_date_texts_readable(dates: Seq<Date>)
    requires
        forall|i: int| 0 <= i < dates.len() ==> (#[trigger] dates[i]).valid(),
    ensures
        readable(texts_of(dates)),
{
    assert forall|i: int| 0 <= i < texts_of(dates).len() implies read_date(
        #[trigger] texts_of(dates)[i],
    ) is Ok by {
        law_dates_read_back(dates[i]);
    }
}

/// Rows that broke off give no reminders.
pub proof fn lemma_broken_reminds(rows: RowsView)
    requires
        broken_off(rows),
    ensures
        reminds_of_rows(rows) is Err,
    decreases rows.len(),
{
    let i = choose|i: int| 0 <= i < rows.len() && #[trigger] rows[i] is Err;
    if i < rows.len() - 1 {
        assert(rows.drop_last()[i] is Err);
        lemma_broken_reminds(rows.drop_last());
    }
}

/// Two lists of the same texts, each in order, are the same list.
pub proof fn lemma_sorted_texts_agree(a: Seq<Seq<char>>, b: Seq<Seq<char>>)
    requires
        vstd::relations::sorted_by(a, text_order()),
        vstd::relations::sorted_by(b, text_order()),
        a.to_multiset() == b.to_multiset(),
    ensures
        a == b,
{
    lemma_text_order_total();
    vstd::seq_lib::lemma_sorted_unique(a, b, text_order());
}

// ------------------------------------------------------------------
// Lists
// ------------------------------------------------------------------

/// The tasks in the rows of `ids` are the tasks of the table.
pub proof fn lemma_tasks_of_rows(w: Tables, ids: Seq<i64>, tasks: Seq<TaskView>)
    requires
        tasks_of_rows(task_rows(w, ids)) == Ok::<Seq<TaskView>, ErrorView>(tasks),
    ensures
        tasks.len() == ids.len(),
        forall|i: int|
            0 <= i < ids.len() ==> task_of_row(w.task_row(#[trigger] ids[i])) == Ok::<
                TaskView,
                FailureView,
            >(tasks[i]) && tasks[i].id == ids[i],
    decreases ids.len(),
{
    let rows = task_rows(w, ids);
    if ids.len() > 0 {
        assert(rows.drop_last() =~= task_rows(w, ids.drop_last()));
        let before = tasks_of_rows(rows.drop_last())->Ok_0;
        lemma_tasks_of_rows(w, ids.drop_last(), before);
        assert(rows.last() == Ok::<RowView, FailureView>(w.task_row(ids.last())));
        let last = ids.len() - 1;
        assert(tasks =~= before.push(task_of_row(w.task_row(ids.last()))->Ok_0));
        assert(w.task_row(ids.last())[0] == CellView::Integer(ids.last()));
        assert forall|i: int| 0 <= i < ids.len() implies task_of_row(
            w.task_row(#[trigger] ids[i]),
        ) == Ok::<TaskView, FailureView>(tasks[i]) && tasks[i].id == ids[i] by {
            if i < last {
                assert(ids.drop_last()[i] == ids[i]);
            }
        }
    }
}

/// The rows of tasks that can be read give tasks.
pub proof fn lemma_task_rows_succeed(w: Tables, ids: Seq<i64>)
    requires
        forall|i: int| 0 <= i < ids.len() ==> task_of_row(w.task_row(#[trigger] ids[i])) is Ok,
    ensures
        tasks_of_rows(task_rows(w, ids)) is Ok,
    decreases ids.len(),
{
    let rows = task_rows(w, ids);
    if ids.len() > 0 {
        let first = ids.drop_last();
        assert(rows.drop_last() =~= task_rows(w, first));
        assert forall|i: int| 0 <= i < first.len() implies task_of_row(
            w.task_row(#[trigger] first[i]),
        ) is Ok by {
            assert(first[i] == ids[i]);
        }
        lemma_task_rows_succeed(w, first);
        let last = ids[ids.len() - 1];
        assert(rows.last() == Ok::<RowView, FailureView>(w.task_row(last)));
    }
}

/// Rows that broke off give no tasks.
pub proof fn lemma_broken_tasks(rows: RowsView)
    requires
        broken_off(rows),
    ensures
        tasks_of_rows(rows) is Err,
    decreases rows.len(),
{
    let i = choose|i: int| 0 <= i < rows.len() && #[trigger] rows[i] is Err;
    if i < rows.len() - 1 {
        assert(rows.drop_last()[i] is Err);
        lemma_broken_tasks(rows.drop_last());
    }
}

/// Whether the dates are what the reminders of the task are read as, in the
/// order of their texts.
pub open spec fn shows_reminds(w: Tables, id: i64, dates: Seq<Date>) -> bool {
    exists|texts: Seq<Seq<char>>|
        dates == #[trigger] dates_read(texts) && readable(texts) && texts.to_multiset()
            == w.remind_texts(id) && vstd::relations::sorted_by(texts, text_order())
}

/// What is read of the reminders of several tasks is what the table holds.
pub proof fn lemma_read_reminds_effect(
    t: Transcript,
    h: History,
    at: int,
    ids: Seq<i64>,
    reminds: Reminds,
    end: int,
)
    requires
        steps(t, h, at, end),
        read_reminds_trace(t, at, ids) == Some((Ok::<Reminds, ErrorView>(reminds), end)),
    ensures
        at <= end,
        h[end] == h[at],
        forall|i: int|
            0 <= i < ids.len() ==> shows_reminds(
                h[at].working,
                #[trigger] ids[i],
                reminds_of(reminds, ids[i]),
            ),
{
    if ids.len() > 0 {
        assert(follows(h[at], t[at], h[at + 1]));
        let w = h[at].working;
        let call = reminds_call(ids);
        let rows = match t[at] {
            Event::FetchedRows { call, rows: Ok(rows) } => rows,
            _ => arbitrary(),
        };
        if broken_off(rows) {
            lemma_broken_reminds(rows);
        }
        let pairs = choose|pairs: Seq<(i64, Seq<char>)>| #[trigger]
            are_reminds(w, call.params, pairs) && rows == pair_rows(pairs);
        assert forall|i: int| 0 <= i < ids.len() implies shows_reminds(
            w,
            #[trigger] ids[i],
            reminds_of(reminds, ids[i]),
        ) by {
            assert(call.params[i] == ParamView::Integer(ids[i]));
            assert(call.params.contains(ParamView::Integer(ids[i])));
            lemma_reminds_by_task(pairs, reminds, ids[i]);
            lemma_texts_sorted(pairs, ids[i]);
            assert(reminds_of(reminds, ids[i]) == dates_read(texts_for(pairs, ids[i])));
        }
    }
}

/// The projects in the rows of `ids` are the projects of the table.
pub proof fn lemma_projects_of_rows(w: Tables, ids: Seq<i64>, projects: Seq<ProjectView>)
    requires
        projects_of_rows(project_rows(w, ids)) == Ok::<Seq<ProjectView>, ErrorView>(projects),
    ensures
        projects.len() == ids.len(),
        forall|i: int|
            0 <= i < ids.len() ==> projects[i] == (ProjectView {
                id: #[trigger] ids[i],
                name: w.projects[ids[i]],
            }),
    decreases ids.len(),
{
    let rows = project_rows(w, ids);
    if ids.len() > 0 {
        assert(rows.drop_last() =~= project_rows(w, ids.drop_last()));
        let before = projects_of_rows(rows.drop_last())->Ok_0;
        lemma_projects_of_rows(w, ids.drop_last(), before);
        let row = w.project_row(ids.last());
        assert(rows.last() == Ok::<RowView, FailureView>(row));
        assert(projects =~= before.push(
            ProjectView { id: ids.last(), name: w.projects[ids.last()] },
        ));
        assert forall|i: int| 0 <= i < ids.len() implies projects[i] == (ProjectView {
            id: #[trigger] ids[i],
            name: w.projects[ids[i]],
        }) by {
            if i < ids.len() - 1 {
                assert(ids.drop_last()[i] == ids[i]);
            }
        }
    }
}

/// The rows of projects give projects.
pub proof fn lemma_project_rows_succeed(w: Tables, ids: Seq<i64>)
    ensures
        projects_of_rows(project_rows(w, ids)) is Ok,
    decreases ids.len(),
{
    let rows = project_rows(w, ids);
    if ids.len() > 0 {
        assert(rows.drop_last() =~= project_rows(w, ids.drop_last()));
        lemma_project_rows_succeed(w, ids.drop_last());
        assert(rows.last() == Ok::<RowView, FailureView>(w.project_row(ids.last())));
    }
}

/// Rows that broke off give no projects.
pub proof fn lemma_broken_projects(rows: RowsView)
    requires
        broken_off(rows),
    ensures
        projects_of_rows(rows) is Err,
    decreases rows.len(),
{
    let i = choose|i: int| 0 <= i < rows.len() && #[trigger] rows[i] is Err;
    if i < rows.len() - 1 {
        assert(rows.drop_last()[i] is Err);
        lemma_broken_projects(rows.drop_last());
    }
}

// ------------------------------------------------------------------
// References
// ------------------------------------------------------------------

/// Every task that has a project has one that exists.
pub open spec fn references_hold(w: Tables) -> bool {
    forall|task: i64, id: i64|
        #![trigger w.tasks.contains_key(task), w.projects.contains_key(id)]
        w.tasks.contains_key(task) && w.tasks[task].project_id == Some(id)
            ==> w.projects.contains_key(id)
}

/// Writing a task whose project exists leaves every task with a project that
/// exists.
pub proof fn lemma_references_kept(
    before: Tables,
    after: Tables,
    id: i64,
    row: TaskRowView,
    project_id: Option<i64>,
)
    requires
        keeps_projects(before, after),
        names_project(after, row, project_id),
        after.tasks == before.tasks.insert(id, record(row, project_id)),
    ensures
        references_hold(before) ==> references_hold(after),
{
    if references_hold(before) {
        assert forall|task: i64, p: i64|
            #![trigger after.tasks.contains_key(task), after.projects.contains_key(p)]
            after.tasks.contains_key(task) && after.tasks[task].project_id == Some(p) implies
            after.projects.contains_key(p) by {
            if task != id {
                assert(before.tasks.contains_key(task));
                assert(before.projects.contains_key(p));
            }
        }
    }
}

// ------------------------------------------------------------------
// Success
// ------------------------------------------------------------------

/// The project with a name is found or added where nothing fails.
pub proof fn lemma_resolve_project_succeeds(
    t: Transcript,
    h: History,
    at: int,
    name: Seq<char>,
    r: Result<i64, ErrorView>,
    end: int,
)
    requires
        steps(t, h, at, end),
        no_failures(t, at, end),
        resolve_project_trace(t, at, name) == Some((r, end)),
    ensures
        r is Ok,
{
    assert(follows(h[at], t[at], h[at + 1]));
    assert(!tells_failure(t[at]));
    assert(with_text(Statement::AddProjectIfMissing, name).params[0] == ParamView::Text(name));
    assert(with_text(Statement::ProjectIdByName, name).params[0] == ParamView::Text(name));
    assert(follows(h[at + 1], t[at + 1], h[at + 2]));
    assert(!tells_failure(t[at + 1]));
    let w = h[at + 1].working;
    assert(w.names(name)) by {
        if !h[at].working.names(name) {
            assert(w.projects.contains_key(h[at + 1].last_id));
        }
    }
}

/// A task is inserted where nothing fails.
pub proof fn lemma_insert_task_row_succeeds(
    t: Transcript,
    h: History,
    at: int,
    row: TaskRowView,
    explicit_id: Option<i64>,
    r: Result<i64, ErrorView>,
    end: int,
)
    requires
        steps(t, h, at, end),
        no_failures(t, at, end),
        insert_task_row_trace(t, at, row, explicit_id) == Some((r, end)),
    ensures
        r is Ok,
{
    let (resolved, a) = optional_project_trace(t, at, row.project)->0;
    if let Some(name) = row.project {
        let (found, _) = resolve_project_trace(t, at, name)->0;
        lemma_resolve_project_succeeds(t, h, at, name, found, a);
    }
    assert(!tells_failure(t[a]));
}

/// A task is updated where nothing fails.
pub proof fn lemma_update_task_row_succeeds(
    t: Transcript,
    h: History,
    at: int,
    id: i64,
    row: TaskRowView,
    r: Result<(), ErrorView>,
    end: int,
)
    requires
        steps(t, h, at, end),
        no_failures(t, at, end),
        update_task_row_trace(t, at, id, row) == Some((r, end)),
    ensures
        r is Ok,
{
    let (resolved, a) = optional_project_trace(t, at, row.project)->0;
    if let Some(name) = row.project {
        let (found, _) = resolve_project_trace(t, at, name)->0;
        lemma_resolve_project_succeeds(t, h, at, name, found, a);
    }
    assert(!tells_failure(t[a]));
}

/// Reminders are inserted where nothing fails.
pub proof fn lemma_insert_reminds_succeeds(
    t: Transcript,
    at: int,
    id: i64,
    dates: Seq<Date>,
    r: Result<(), ErrorView>,
    end: int,
)
    requires
        no_failures(t, at, end),
        insert_reminds_trace(t, at, id, dates) == Some((r, end)),
    ensures
        r is Ok,
    decreases dates.len(),
{
    if dates.len() > 0 {
        let (before, mid) = insert_reminds_trace(t, at, id, dates.drop_last())->0;
        lemma_insert_reminds_ends_later(t, at, id, dates.drop_last());
        lemma_insert_reminds_succeeds(t, at, id, dates.drop_last(), before, mid);
        assert(!tells_failure(t[mid]));
    }
}

/// Reminders are replaced where nothing fails.
pub proof fn lemma_replace_reminds_succeeds(
    t: Transcript,
    at: int,
    id: i64,
    dates: Seq<Date>,
    r: Result<(), ErrorView>,
    end: int,
)
    requires
        no_failures(t, at, end),
        replace_reminds_trace(t, at, id, dates) == Some((r, end)),
    ensures
        r is Ok,
{
    lemma_insert_reminds_ends_later(t, at + 1, id, dates);
    assert(!tells_failure(t[at]));
    let (inserted, _) = insert_reminds_trace(t, at + 1, id, dates)->0;
    lemma_insert_reminds_succeeds(t, at + 1, id, dates, inserted, end);
}

/// A transaction whose work succeeded is committed where nothing fails.
pub proof fn lemma_settle_succeeds<T>(
    t: Transcript,
    at: int,
    outcome: Result<T, ErrorView>,
    r: Result<T, ErrorView>,
    end: int,
)
    requires
        no_failures(t, at, end),
        outcome is Ok,
        settle_trace(t, at, outcome) == Some((r, end)),
    ensures
        r == outcome,
        end == at + 1,
{
    assert(!tells_failure(t[at]));
}

} // verus!
