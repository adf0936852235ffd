//! A model of the database: what the statements of the library mean.
//!
//! Nothing executable depends on this module, and nothing here is believed of
//! a reply without being said: the laws that speak of the contents of the
//! database carry [`faithful`] as a condition. It says that SQLite did what
//! its documentation says of each statement, and that nobody else wrote in
//! between.

use vstd::multiset::Multiset;
use vstd::prelude::*;

use crate::model::is_status;
use crate::session::{Event, RowsView, Transcript};
use crate::sql::{CellView, FailureView, ParamView, RowView};
use crate::statement::{Call, Statement};
use crate::text::text_before;

verus! {

/// A row of `tasks`, without its id.
pub struct TaskRecord {
    pub title: Seq<char>,
    pub status: Seq<char>,
    pub source: Seq<char>,
    pub project_id: Option<i64>,
    pub due: Option<Seq<char>>,
    pub done_at: Option<Seq<char>>,
    pub created: Seq<char>,
    pub updated: Seq<char>,
    pub important: i64,
}

/// The contents of the tables.
pub struct Tables {
    /// The names of the projects.
    pub projects: Map<i64, Seq<char>>,
    pub tasks: Map<i64, TaskRecord>,
    /// The texts of the reminders of each task.
    pub reminds: Map<i64, Multiset<Seq<char>>>,
    /// The keys and values of the sync state.
    pub state: Map<Seq<char>, Seq<char>>,
}

/// A database as one connection sees it.
pub struct Database {
    /// What is left if the open transaction is rolled back.
    pub committed: Tables,
    /// What the connection reads.
    pub working: Tables,
    /// Whether a transaction is open.
    pub open: bool,
    /// The id of the row that the connection inserted last.
    pub last_id: i64,
}

impl Database {
    /// Outside a transaction there is nothing to roll back.
    pub open spec fn settled(self) -> bool {
        !self.open ==> self.working == self.committed
    }

    /// The database after a rollback.
    pub open spec fn rolled_back(self) -> Database {
        Database { working: self.committed, open: false, ..self }
    }

    /// The database after a change, which is final outside a transaction.
    pub open spec fn written(self, tables: Tables) -> Database {
        if self.open {
            Database { working: tables, ..self }
        } else {
            Database { working: tables, committed: tables, ..self }
        }
    }
}

// ------------------------------------------------------------------
// Parameters
// ------------------------------------------------------------------

pub open spec fn text_param(params: Seq<ParamView>, index: int) -> Seq<char> {
    match params[index] {
        ParamView::Text(s) => s,
        _ => arbitrary(),
    }
}

pub open spec fn optional_text_param(params: Seq<ParamView>, index: int) -> Option<Seq<char>> {
    match params[index] {
        ParamView::Text(s) => Some(s),
        _ => None,
    }
}

pub open spec fn integer_param(params: Seq<ParamView>, index: int) -> i64 {
    match params[index] {
        ParamView::Integer(n) => n,
        _ => arbitrary(),
    }
}

pub open spec fn optional_integer_param(params: Seq<ParamView>, index: int) -> Option<i64> {
    match params[index] {
        ParamView::Integer(n) => Some(n),
        _ => None,
    }
}

/// The row of `tasks` in nine parameters from `first` on.
pub open spec fn record_of(params: Seq<ParamView>, first: int) -> TaskRecord {
    TaskRecord {
        title: text_param(params, first),
        status: text_param(params, first + 1),
        source: text_param(params, first + 2),
        project_id: optional_integer_param(params, first + 3),
        due: optional_text_param(params, first + 4),
        done_at: optional_text_param(params, first + 5),
        created: text_param(params, first + 6),
        updated: text_param(params, first + 7),
        important: integer_param(params, first + 8),
    }
}

// ------------------------------------------------------------------
// Contents
// ------------------------------------------------------------------

impl Tables {
    /// Whether some project has this name.
    pub open spec fn names(self, name: Seq<char>) -> bool {
        exists|id: i64| #[trigger] self.projects.contains_key(id) && self.projects[id] == name
    }

    /// The name of the project of a task, where it has one.
    pub open spec fn project_name(self, task: TaskRecord) -> Option<Seq<char>> {
        match task.project_id {
            Some(id) => if self.projects.contains_key(id) {
                Some(self.projects[id])
            } else {
                None
            },
            None => None,
        }
    }

    /// The texts of the reminders of a task.
    pub open spec fn remind_texts(self, task_id: i64) -> Multiset<Seq<char>> {
        if self.reminds.contains_key(task_id) {
            self.reminds[task_id]
        } else {
            Multiset::empty()
        }
    }

    /// The tasks of a project.
    pub open spec fn tasks_of_project(self, id: i64) -> Set<i64> {
        self.tasks.dom().filter(|task: i64| self.tasks[task].project_id == Some(id))
    }

    /// The row that a query for a task gives.
    pub open spec fn task_row(self, id: i64) -> RowView {
        let task = self.tasks[id];
        seq![
            CellView::Integer(id),
            CellView::Text(task.title),
            CellView::Text(task.status),
            CellView::Text(task.source),
            text_cell(self.project_name(task)),
            text_cell(task.due),
            text_cell(task.done_at),
            CellView::Text(task.created),
            CellView::Text(task.updated),
            CellView::Integer(task.important),
        ]
    }

    /// The row that a query for a project gives.
    pub open spec fn project_row(self, id: i64) -> RowView {
        seq![CellView::Integer(id), CellView::Text(self.projects[id])]
    }

    /// The tasks whose day of change comes behind a text.
    pub open spec fn changed_after(self, text: Seq<char>) -> spec_fn(i64) -> bool {
        |id: i64| self.tasks.contains_key(id) && text_before(text, self.tasks[id].updated)
    }

    /// Whether a task passes the filters of `TasksFiltered`.
    pub open spec fn passes(self, id: i64, params: Seq<ParamView>) -> bool {
        let task = self.tasks[id];
        &&& self.tasks.contains_key(id)
        &&& optional_text_param(params, 0) matches Some(status) ==> task.status == status
        &&& optional_text_param(params, 1) matches Some(since) ==> !text_before(
            task.updated,
            since,
        )
        &&& optional_text_param(params, 2) matches Some(name) ==> self.project_name(task) == Some(
            name,
        )
    }
}

/// The cell for a text or its absence.
pub open spec fn text_cell(value: Option<Seq<char>>) -> CellView {
    match value {
        Some(s) => CellView::Text(s),
        None => CellView::Null,
    }
}

// ------------------------------------------------------------------
// Statements that write
// ------------------------------------------------------------------

/// What a statement that succeeded did. The database numbers new rows upwards
/// (`AUTOINCREMENT`) and checks that the status of a task is one.
pub open spec fn wrote(db: Database, call: Call, after: Database) -> bool {
    let w = db.working;
    let p = call.params;
    match call.statement {
        Statement::Begin => !db.open && after == Database { open: true, ..db },
        Statement::Commit => db.open && after == Database {
            committed: w,
            open: false,
            ..db
        },
        Statement::Rollback => after == db.rolled_back(),
        Statement::AddProjectIfMissing => if w.names(text_param(p, 0)) {
            after == db
        } else {
            inserted_project(db, text_param(p, 0), after)
        },
        Statement::InsertProject => !w.names(text_param(p, 0)) && inserted_project(
            db,
            text_param(p, 0),
            after,
        ),
        Statement::RenameProject => {
            let id = integer_param(p, 1);
            let name = text_param(p, 0);
            if w.projects.contains_key(id) {
                &&& forall|other: i64| #[trigger]
                    w.projects.contains_key(other) && w.projects[other] == name ==> other == id
                &&& after == db.written(Tables { projects: w.projects.insert(id, name), ..w })
            } else {
                after == db
            }
        },
        Statement::DeleteProject => after == db.written(
            Tables { projects: w.projects.remove(integer_param(p, 0)), ..w },
        ),
        Statement::InsertTask => {
            &&& after.last_id > 0
            &&& forall|id: i64| #[trigger] w.tasks.contains_key(id) ==> id < after.last_id
            &&& inserted_task(db, after.last_id, record_of(p, 0), after)
        },
        Statement::InsertTaskWithId => inserted_task(
            db,
            integer_param(p, 0),
            record_of(p, 1),
            after,
        ),
        Statement::UpdateTask => {
            let id = integer_param(p, 9);
            if w.tasks.contains_key(id) {
                &&& is_status(record_of(p, 0).status)
                &&& after == db.written(Tables { tasks: w.tasks.insert(id, record_of(p, 0)), ..w })
            } else {
                after == db
            }
        },
        Statement::DeleteReminds => after == db.written(
            Tables { reminds: w.reminds.remove(integer_param(p, 0)), ..w },
        ),
        Statement::InsertRemind => {
            let id = integer_param(p, 0);
            let reminds = w.reminds.insert(id, w.remind_texts(id).insert(text_param(p, 1)));
            after == Database { last_id: after.last_id, ..db.written(Tables { reminds, ..w }) }
        },
        Statement::CreateState => after == db,
        Statement::WriteState => after == Database {
            last_id: after.last_id,
            ..db.written(
                Tables { state: w.state.insert(text_param(p, 0), text_param(p, 1)), ..w },
            )
        },
        _ => after == db,
    }
}

/// A project was inserted under the id that the database gave to it: it is
/// positive and greater than those of the other projects.
pub open spec fn inserted_project(db: Database, name: Seq<char>, after: Database) -> bool {
    let w = db.working;
    &&& after.last_id > 0
    &&& forall|id: i64| #[trigger] w.projects.contains_key(id) ==> id < after.last_id
    &&& after == Database {
        last_id: after.last_id,
        ..db.written(Tables { projects: w.projects.insert(after.last_id, name), ..w })
    }
}

/// A task was inserted under an id that was free. Its status is one, or the
/// database would have refused it.
pub open spec fn inserted_task(db: Database, id: i64, task: TaskRecord, after: Database) -> bool {
    let w = db.working;
    &&& !w.tasks.contains_key(id)
    &&& is_status(task.status)
    &&& after == Database {
        last_id: id,
        ..db.written(Tables { tasks: w.tasks.insert(id, task), ..w })
    }
}

/// A failure changes nothing, or ends the open transaction.
pub open spec fn failed_step(db: Database, after: Database) -> bool {
    after == db || after == db.rolled_back()
}

// ------------------------------------------------------------------
// Statements that read
// ------------------------------------------------------------------

/// Whether `row` is a first row that the statement can give.
pub open spec fn answers_row(w: Tables, call: Call, row: RowView) -> bool {
    let p = call.params;
    match call.statement {
        Statement::ProjectIdByName => exists|id: i64| #[trigger]
            w.projects.contains_key(id) && w.projects[id] == text_param(p, 0) && row
                == seq![CellView::Integer(id)],
        Statement::ProjectByName => exists|id: i64| #[trigger]
            w.projects.contains_key(id) && w.projects[id] == text_param(p, 0) && row
                == w.project_row(id),
        Statement::ProjectById => w.projects.contains_key(integer_param(p, 0)) && row
            == w.project_row(integer_param(p, 0)),
        Statement::CountProjectTasks => row.len() == 1 && match row[0] {
            CellView::Integer(n) => n == w.tasks_of_project(integer_param(p, 0)).len(),
            _ => false,
        },
        Statement::TaskById => w.tasks.contains_key(integer_param(p, 0)) && row == w.task_row(
            integer_param(p, 0),
        ),
        Statement::TaskUpdated => w.tasks.contains_key(integer_param(p, 0)) && row
            == seq![CellView::Text(w.tasks[integer_param(p, 0)].updated)],
        Statement::ReadState => w.state.contains_key(text_param(p, 0)) && row
            == seq![CellView::Text(w.state[text_param(p, 0)])],
        _ => true,
    }
}

/// Whether the statement can give no row.
pub open spec fn answers_no_row(w: Tables, call: Call) -> bool {
    let p = call.params;
    match call.statement {
        Statement::ProjectIdByName | Statement::ProjectByName => !w.names(text_param(p, 0)),
        Statement::ProjectById => !w.projects.contains_key(integer_param(p, 0)),
        Statement::TaskById | Statement::TaskUpdated => !w.tasks.contains_key(integer_param(p, 0)),
        Statement::ReadState => !w.state.contains_key(text_param(p, 0)),
        _ => false,
    }
}

/// The texts that belong to a task, in the order of the pairs.
pub open spec fn texts_for(pairs: Seq<(i64, Seq<char>)>, id: i64) -> Seq<Seq<char>>
    decreases pairs.len(),
{
    if pairs.len() == 0 {
        seq![]
    } else {
        let before = texts_for(pairs.drop_last(), id);
        if pairs.last().0 == id {
            before.push(pairs.last().1)
        } else {
            before
        }
    }
}

/// Whether the pairs are the reminders of the tasks in `ids`, in the order of
/// tasks and texts.
pub open spec fn are_reminds(w: Tables, ids: Seq<ParamView>, pairs: Seq<(i64, Seq<char>)>) -> bool {
    &&& forall|id: i64|
        ids.contains(ParamView::Integer(id)) ==> #[trigger] texts_for(pairs, id).to_multiset()
            == w.remind_texts(id)
    &&& forall|i: int|
        0 <= i < pairs.len() ==> ids.contains(ParamView::Integer((#[trigger] pairs[i]).0))
    &&& forall|i: int, j: int|
        0 <= i < j < pairs.len() ==> (#[trigger] pairs[i]).0 <= (#[trigger] pairs[j]).0 && (
        pairs[i].0 == pairs[j].0 ==> !text_before(pairs[j].1, pairs[i].1))
}

/// The rows that show pairs.
pub open spec fn pair_rows(pairs: Seq<(i64, Seq<char>)>) -> RowsView {
    pairs.map_values(
        |p: (i64, Seq<char>)|
            Ok::<RowView, FailureView>(seq![CellView::Integer(p.0), CellView::Text(p.1)]),
    )
}

/// Whether `ids` lists what `keep` holds of in increasing order: all of it,
/// or the first `limit` where that is not negative.
pub open spec fn lists(ids: Seq<i64>, keep: spec_fn(i64) -> bool, limit: int) -> bool {
    &&& forall|i: int| 0 <= i < ids.len() ==> keep(#[trigger] ids[i])
    &&& forall|i: int, j: int| 0 <= i < j < ids.len() ==> (#[trigger] ids[i]) < (#[trigger] ids[j])
    &&& limit >= 0 ==> ids.len() <= limit
    &&& forall|id: i64| #[trigger]
        keep(id) && !ids.contains(id) ==> limit >= 0 && ids.len() == limit && forall|i: int|
            0 <= i < ids.len() ==> #[trigger] ids[i] < id
}

/// The rows of tasks.
pub open spec fn task_rows(w: Tables, ids: Seq<i64>) -> RowsView {
    ids.map_values(|id: i64| Ok::<RowView, FailureView>(w.task_row(id)))
}

/// The rows of projects.
pub open spec fn project_rows(w: Tables, ids: Seq<i64>) -> RowsView {
    ids.map_values(|id: i64| Ok::<RowView, FailureView>(w.project_row(id)))
}

/// Whether `rows` are all rows that the statement gives.
pub open spec fn answers_rows(w: Tables, call: Call, rows: RowsView) -> bool {
    let p = call.params;
    match call.statement {
        Statement::TasksFiltered => exists|ids: Seq<i64>|
            rows == #[trigger] task_rows(w, ids) && lists(
                ids,
                |id: i64| w.passes(id, p),
                integer_param(p, 3) as int,
            ),
        Statement::TasksUpdatedAfter => exists|ids: Seq<i64>|
            rows == #[trigger] task_rows(w, ids) && lists(
                ids,
                w.changed_after(text_param(p, 0)),
                -1,
            ),
        Statement::ListProjects => exists|ids: Seq<i64>|
            rows == #[trigger] project_rows(w, ids) && lists(
                ids,
                |id: i64| w.projects.contains_key(id),
                -1,
            ),
        Statement::RemindsOfTasks(_) => exists|pairs: Seq<(i64, Seq<char>)>| #[trigger]
            are_reminds(w, p, pairs) && rows == pair_rows(pairs),
        _ => true,
    }
}

/// Whether a list of rows broke off before its end.
pub open spec fn broken_off(rows: RowsView) -> bool {
    exists|i: int| 0 <= i < rows.len() && #[trigger] rows[i] is Err
}

// ------------------------------------------------------------------
// Transcripts
// ------------------------------------------------------------------

/// Whether an event tells of a failure. That there is no row is an answer.
pub open spec fn tells_failure(event: Event) -> bool {
    match event {
        Event::Ran { outcome, .. } => outcome is Err,
        Event::FetchedRow { row, .. } => row matches Err(e) && !(e is NoRows),
        Event::FetchedRows { rows, .. } => match rows {
            Ok(rows) => broken_off(rows),
            Err(_) => true,
        },
        Event::RowId { .. } | Event::Clock { .. } => false,
    }
}

/// Whether no event between two places tells of a failure.
pub open spec fn no_failures(t: Transcript, from: int, to: int) -> bool {
    forall|i: int| from <= i < to ==> !tells_failure(#[trigger] t[i])
}

/// Whether an event is what SQLite does on this database, and leaves it so.
pub open spec fn follows(db: Database, event: Event, after: Database) -> bool {
    match event {
        Event::Ran { call, outcome } => match outcome {
            Ok(_) => wrote(db, call, after),
            Err(_) => if call.statement is Rollback {
                after == db.rolled_back()
            } else {
                failed_step(db, after)
            },
        },
        Event::FetchedRow { call, row } => match row {
            Ok(row) => after == db && answers_row(db.working, call, row),
            Err(FailureView::NoRows) => after == db && answers_no_row(db.working, call),
            Err(_) => failed_step(db, after),
        },
        Event::FetchedRows { call, rows } => match rows {
            Ok(rows) => if broken_off(rows) {
                failed_step(db, after)
            } else {
                after == db && answers_rows(db.working, call, rows)
            },
            Err(_) => failed_step(db, after),
        },
        Event::RowId { id } => after == db && id == db.last_id,
        Event::Clock { now } => after == db && now.valid(),
    }
}

/// The databases before each event of a transcript, and after the last.
pub type History = Seq<Database>;

/// Whether the events of a transcript from `from` up to `to` are what SQLite
/// does on the databases of the history.
pub open spec fn steps(t: Transcript, h: History, from: int, to: int) -> bool {
    &&& 0 <= from <= to <= t.len()
    &&& h.len() == t.len() + 1
    &&& forall|i: int| from <= i < to ==> follows(h[i], #[trigger] t[i], h[i + 1])
}

/// Whether the events of a transcript from `from` up to `to` are what SQLite
/// does on the databases of the history, of which the first is settled.
pub open spec fn faithful(t: Transcript, h: History, from: int, to: int) -> bool {
    steps(t, h, from, to) && h[from].settled()
}

/// Every database of a faithful history is settled.
pub proof fn lemma_settled(t: Transcript, h: History, from: int, to: int, at: int)
    requires
        faithful(t, h, from, to),
        from <= at <= to,
    ensures
        h[at].settled(),
    decreases at - from,
{
    if from < at {
        lemma_settled(t, h, from, to, at - 1);
        assert(follows(h[at - 1], t[at - 1], h[at]));
    }
}

} // verus!
