//! A database connection with a record of what passed over it.
//!
//! What SQLite answers depends on a file that other programs write too, so no
//! contract says what a reply is. A [`Session`] keeps, in ghost state, the
//! transcript of all that was asked and answered. Contracts elsewhere then say
//! exactly which statements a function runs, with which values, and what it
//! makes of each reply.

use vstd::prelude::*;

use crate::date::{group_date_parts, instant, is_instant, Timestamp};
use crate::error::ErrorView;
use crate::sql::{
    cell_at, result_view, views, Cell, CellView, FailureView, Param, RowView, SqlFailure,
};
use crate::statement::{Call, Statement};

verus! {

// ------------------------------------------------------------------
// rusqlite
// ------------------------------------------------------------------

/// An open connection of `rusqlite`.
#[verifier::external_type_specification]
#[verifier::external_body]
pub struct ExConnection(rusqlite::Connection);

/// A row of a reply of `rusqlite`.
#[verifier::external_type_specification]
#[verifier::external_body]
pub struct ExRow<'stmt>(rusqlite::Row<'stmt>);

/// A value of `rusqlite`, on its way to a parameter.
#[verifier::external_type_specification]
#[verifier::external_body]
pub struct ExValue(rusqlite::types::Value);

/// Makes the `rusqlite::types::Value` that stands for a parameter.
#[verifier::external_body]
fn bound(param: &Param) -> rusqlite::types::Value {
    match param {
        Param::Null => rusqlite::types::Value::Null,
        Param::Integer(n) => rusqlite::types::Value::Integer(*n),
        Param::Text(s) => rusqlite::types::Value::Text(s.clone()),
    }
}

/// The failure with these words, of one of three kinds.
fn classify(constraint: bool, no_rows: bool, words: String) -> (r: SqlFailure)
    ensures
        r@ == (if constraint {
            FailureView::Constraint(words@)
        } else if no_rows {
            FailureView::NoRows
        } else {
            FailureView::Other(words@)
        }),
{
    if constraint {
        SqlFailure::Constraint(words)
    } else if no_rows {
        SqlFailure::NoRows
    } else {
        SqlFailure::Other(words)
    }
}

/// What the columns of a row of `rusqlite` hold, from the first on.
pub uninterp spec fn row_contents(row: &rusqlite::Row<'_>) -> Seq<CellView>;

/// Calls `rusqlite::Row::get_ref` on one column, and `ValueRef::as_str` where
/// it holds a text. What the row holds is named by [`row_contents`]; a column
/// that it does not have is missing.
#[verifier::external_body]
fn column(row: &rusqlite::Row<'_>, index: usize) -> (r: Cell)
    ensures
        r@ == cell_at(row_contents(row), index as int),
{
    match row.get_ref(index) {
        Ok(rusqlite::types::ValueRef::Null) => Cell::Null,
        Ok(rusqlite::types::ValueRef::Integer(n)) => Cell::Integer(n),
        Ok(rusqlite::types::ValueRef::Real(_)) => Cell::Real,
        Ok(rusqlite::types::ValueRef::Blob(_)) => Cell::Blob,
        Ok(text) => match text.as_str() {
            Ok(s) => Cell::Text(s.to_string()),
            Err(e) => Cell::BadText(e.to_string()),
        },
        Err(_) => Cell::Missing,
    }
}

/// The first cells of a row, as many as `columns` says.
fn row_cells(row: &rusqlite::Row<'_>, columns: usize) -> (r: Vec<Cell>)
    ensures
        views(r@) == Seq::new(columns as nat, |i: int| cell_at(row_contents(row), i)),
{
    let mut cells: Vec<Cell> = Vec::new();
    let mut i: usize = 0;
    while i < columns
        invariant
            i <= columns,
            cells@.len() == i,
            forall|j: int|
                0 <= j < i ==> (#[trigger] cells@[j])@ == cell_at(row_contents(row), j),
        decreases columns - i,
    {
        cells.push(column(row, i));
        i = i + 1;
    }
    assert(views(cells@) =~= Seq::new(columns as nat, |i: int| cell_at(row_contents(row), i)));
    cells
}

// ------------------------------------------------------------------
// Transcript
// ------------------------------------------------------------------

/// The rows of a reply, and the failure at which it broke off.
pub type RowsView = Seq<Result<RowView, FailureView>>;

/// One thing that was asked, and what came back.
pub enum Event {
    /// A statement that gives no rows.
    Ran { call: Call, outcome: Result<(), FailureView> },
    /// A statement of which the first row was taken.
    FetchedRow { call: Call, row: Result<RowView, FailureView> },
    /// A statement of which all rows were taken.
    FetchedRows { call: Call, rows: Result<RowsView, FailureView> },
    /// The id of the row that was inserted last.
    RowId { id: i64 },
    /// A reading of the clock.
    Clock { now: Timestamp },
}

/// All that passed over a connection, oldest first.
pub type Transcript = Seq<Event>;

/// Whether `later` continues `earlier`.
pub open spec fn continues(later: Transcript, earlier: Transcript) -> bool {
    earlier.len() <= later.len() && later.take(earlier.len() as int) == earlier
}

/// What came back for `call` at the place `at`, and the place behind it.
pub open spec fn ran(t: Transcript, at: int, call: Call) -> Option<
    (Result<(), FailureView>, int),
> {
    if 0 <= at < t.len() {
        match t[at] {
            Event::Ran { call: c, outcome } => if c == call {
                Some((outcome, at + 1))
            } else {
                None
            },
            _ => None,
        }
    } else {
        None
    }
}

/// The first row that came back for `call` at the place `at`.
pub open spec fn fetched_row(t: Transcript, at: int, call: Call) -> Option<
    (Result<RowView, FailureView>, int),
> {
    if 0 <= at < t.len() {
        match t[at] {
            Event::FetchedRow { call: c, row } => if c == call {
                Some((row, at + 1))
            } else {
                None
            },
            _ => None,
        }
    } else {
        None
    }
}

/// The rows that came back for `call` at the place `at`.
pub open spec fn fetched_rows(t: Transcript, at: int, call: Call) -> Option<
    (Result<RowsView, FailureView>, int),
> {
    if 0 <= at < t.len() {
        match t[at] {
            Event::FetchedRows { call: c, rows } => if c == call {
                Some((rows, at + 1))
            } else {
                None
            },
            _ => None,
        }
    } else {
        None
    }
}

/// The row id that was read at the place `at`.
pub open spec fn row_id_read(t: Transcript, at: int) -> Option<(i64, int)> {
    if 0 <= at < t.len() {
        match t[at] {
            Event::RowId { id } => Some((id, at + 1)),
            _ => None,
        }
    } else {
        None
    }
}

/// The clock reading at the place `at`.
pub open spec fn clock_read(t: Transcript, at: int) -> Option<(Timestamp, int)> {
    if 0 <= at < t.len() {
        match t[at] {
            Event::Clock { now } => Some((now, at + 1)),
            _ => None,
        }
    } else {
        None
    }
}

/// What a function made of the replies from the place `at` on, and the place
/// behind the last of them. `None` where the transcript shows no run of it.
pub type Trace<T> = Option<(Result<T, ErrorView>, int)>;

/// What an earlier transcript shows, a later one shows too.
proof fn lemma_continues(later: Transcript, earlier: Transcript, at: int)
    requires
        continues(later, earlier),
        0 <= at < earlier.len(),
    ensures
        later[at] == earlier[at],
{
    assert(later.take(earlier.len() as int)[at] == later[at]);
}

/// To continue is reflexive.
pub broadcast proof fn lemma_continues_self(a: Transcript)
    ensures
        #[trigger] continues(a, a),
{
    assert(a.take(a.len() as int) =~= a);
}

/// To continue is transitive.
pub broadcast proof fn lemma_continues_trans(c: Transcript, b: Transcript, a: Transcript)
    requires
        #[trigger] continues(c, b),
        #[trigger] continues(b, a),
    ensures
        continues(c, a),
{
    assert(c.take(a.len() as int) =~= a) by {
        assert(c.take(a.len() as int) =~= c.take(b.len() as int).take(a.len() as int));
    }
}

pub broadcast proof fn lemma_ran_kept(later: Transcript, earlier: Transcript, at: int, call: Call)
    requires
        #[trigger] continues(later, earlier),
        (#[trigger] ran(earlier, at, call)) is Some,
    ensures
        ran(later, at, call) == ran(earlier, at, call),
{
    lemma_continues(later, earlier, at);
}

pub broadcast proof fn lemma_fetched_row_kept(
    later: Transcript,
    earlier: Transcript,
    at: int,
    call: Call,
)
    requires
        #[trigger] continues(later, earlier),
        (#[trigger] fetched_row(earlier, at, call)) is Some,
    ensures
        fetched_row(later, at, call) == fetched_row(earlier, at, call),
{
    lemma_continues(later, earlier, at);
}

pub broadcast proof fn lemma_fetched_rows_kept(
    later: Transcript,
    earlier: Transcript,
    at: int,
    call: Call,
)
    requires
        #[trigger] continues(later, earlier),
        (#[trigger] fetched_rows(earlier, at, call)) is Some,
    ensures
        fetched_rows(later, at, call) == fetched_rows(earlier, at, call),
{
    lemma_continues(later, earlier, at);
}

pub broadcast proof fn lemma_row_id_kept(later: Transcript, earlier: Transcript, at: int)
    requires
        #[trigger] continues(later, earlier),
        (#[trigger] row_id_read(earlier, at)) is Some,
    ensures
        row_id_read(later, at) == row_id_read(earlier, at),
{
    lemma_continues(later, earlier, at);
}

pub broadcast proof fn lemma_clock_kept(later: Transcript, earlier: Transcript, at: int)
    requires
        #[trigger] continues(later, earlier),
        (#[trigger] clock_read(earlier, at)) is Some,
    ensures
        clock_read(later, at) == clock_read(earlier, at),
{
    lemma_continues(later, earlier, at);
}

/// What single events of a transcript show stays shown.
pub broadcast group group_transcript {
    lemma_continues_self,
    lemma_continues_trans,
    lemma_ran_kept,
    lemma_fetched_row_kept,
    lemma_fetched_rows_kept,
    lemma_row_id_kept,
    lemma_clock_kept,
}

proof fn lemma_push_continues(t: Transcript, e: Event)
    ensures
        continues(t.push(e), t),
{
    assert(t.push(e).take(t.len() as int) =~= t);
}

// ------------------------------------------------------------------
// Session
// ------------------------------------------------------------------

/// The view of what came back with all rows.
pub open spec fn rows_view(reply: Result<Vec<Result<Vec<Cell>, SqlFailure>>, SqlFailure>) -> Result<
    RowsView,
    FailureView,
> {
    match reply {
        Ok(rows) => Ok(row_results(rows@)),
        Err(e) => Err(e@),
    }
}

/// The views of rows that were read one after the other.
pub open spec fn row_results(rows: Seq<Result<Vec<Cell>, SqlFailure>>) -> RowsView {
    rows.map_values(|row: Result<Vec<Cell>, SqlFailure>| row_result(row))
}

/// The view of one row, or of the failure in its place.
pub open spec fn row_result(row: Result<Vec<Cell>, SqlFailure>) -> Result<RowView, FailureView> {
    match row {
        Ok(cells) => Ok(views(cells@)),
        Err(e) => Err(e@),
    }
}

/// The event of a statement that gives no rows.
pub open spec fn ran_event(
    statement: Statement,
    params: Seq<Param>,
    outcome: Result<(), SqlFailure>,
) -> Event {
    Event::Ran {
        call: Call { statement, params: views(params) },
        outcome: result_view(outcome),
    }
}

/// The event of a statement of which the first row was taken.
pub open spec fn row_event(
    statement: Statement,
    params: Seq<Param>,
    row: Result<Vec<Cell>, SqlFailure>,
) -> Event {
    Event::FetchedRow {
        call: Call { statement, params: views(params) },
        row: row_result(row),
    }
}

/// The event of a statement of which all rows were taken.
pub open spec fn rows_event(
    statement: Statement,
    params: Seq<Param>,
    rows: Result<Vec<Result<Vec<Cell>, SqlFailure>>, SqlFailure>,
) -> Event {
    Event::FetchedRows {
        call: Call { statement, params: views(params) },
        rows: rows_view(rows),
    }
}

/// An open database, and the transcript of its use.
///
/// The transcript grows by the calls of `rusqlite` and of the clock below, and
/// by nothing else: each adds what it was asked and what came back.
pub struct Session {
    conn: rusqlite::Connection,
    transcript: Ghost<Transcript>,
}

impl View for Session {
    type V = Transcript;

    closed spec fn view(&self) -> Transcript {
        self.transcript@
    }
}

impl Session {
    /// Calls `rusqlite::Connection::execute` with the text of the statement.
    /// The call is added to the transcript. Whether it succeeds, and with
    /// which error it fails, depends on the database.
    #[verifier::external_body]
    fn sqlite_execute(&mut self, statement: Statement, sql: &str, params: &Vec<Param>) -> (r:
        Result<(), SqlFailure>)
        requires
            sql@ == statement.sql(),
        ensures
            final(self)@ == old(self)@.push(ran_event(statement, params@, r)),
    {
        let done = self.conn.execute(sql, rusqlite::params_from_iter(params.iter().map(bound)));
        done.map(|_| ()).map_err(
            |e|
                classify(
                    e.sqlite_error_code() == Some(rusqlite::ErrorCode::ConstraintViolation),
                    e == rusqlite::Error::QueryReturnedNoRows,
                    e.to_string(),
                ),
        )
    }

    /// Calls `rusqlite::Connection::query_row` with the text of the statement,
    /// which takes the first row of the reply. The call is added to the
    /// transcript. What the row holds, and with which error the call fails,
    /// depends on the database.
    #[verifier::external_body]
    fn sqlite_query_row(
        &mut self,
        statement: Statement,
        sql: &str,
        params: &Vec<Param>,
        columns: usize,
    ) -> (r: Result<Vec<Cell>, SqlFailure>)
        requires
            sql@ == statement.sql(),
            columns == statement.columns(),
        ensures
            final(self)@ == old(self)@.push(row_event(statement, params@, r)),
    {
        let bound = rusqlite::params_from_iter(params.iter().map(bound));
        self.conn.query_row(sql, bound, |row| Ok(row_cells(row, columns))).map_err(
            |e|
                classify(
                    e.sqlite_error_code() == Some(rusqlite::ErrorCode::ConstraintViolation),
                    e == rusqlite::Error::QueryReturnedNoRows,
                    e.to_string(),
                ),
        )
    }

    /// Calls `rusqlite::Statement::query_map` with the text of the statement
    /// and takes every item that comes: the rows of the reply, and the failure
    /// at which it broke off, if it did. The call is added to the transcript.
    /// What the rows hold, and with which error the call fails, depends on the
    /// database.
    #[verifier::external_body]
    fn sqlite_query_rows(
        &mut self,
        statement: Statement,
        sql: &str,
        params: &Vec<Param>,
        columns: usize,
    ) -> (r: Result<Vec<Result<Vec<Cell>, SqlFailure>>, SqlFailure>)
        requires
            sql@ == statement.sql(),
            columns == statement.columns(),
        ensures
            final(self)@ == old(self)@.push(rows_event(statement, params@, r)),
    {
        let own = |e: rusqlite::Error| {
            let constraint = e.sqlite_error_code() == Some(
                rusqlite::ErrorCode::ConstraintViolation,
            );
            classify(constraint, e == rusqlite::Error::QueryReturnedNoRows, e.to_string())
        };
        let mut prepared = self.conn.prepare(sql).map_err(own)?;
        let bound = rusqlite::params_from_iter(params.iter().map(bound));
        let rows = prepared.query_map(bound, |row| Ok(row_cells(row, columns))).map_err(own)?;
        Ok(rows.map(|row| row.map_err(own)).collect())
    }

    /// Calls `rusqlite::Connection::last_insert_rowid`. The call is added to
    /// the transcript. The number depends on the database.
    #[verifier::external_body]
    fn sqlite_last_insert_rowid(&mut self) -> (r: i64)
        ensures
            final(self)@ == old(self)@.push((Event::RowId { id: r })),
    {
        self.conn.last_insert_rowid()
    }

    /// Calls `chrono::Utc::now` and gives the seconds since
    /// 1970-01-01T00:00:00Z and the nanoseconds past them. The reading is added
    /// to the transcript. It depends on the clock of the machine, which is set
    /// to a time after 1970; it is an instant, and nothing more is known of it.
    #[verifier::external_body]
    fn chrono_now(&mut self) -> (r: (i64, u32))
        ensures
            is_instant(r.0 as int, r.1 as int),
            final(self)@ == old(self)@.push((Event::Clock { now: instant(r.0, r.1) })),
    {
        let t = chrono::Utc::now();
        (t.timestamp(), t.timestamp_subsec_nanos())
    }

    /// A session on an open connection.
    pub fn new(conn: rusqlite::Connection) -> (r: Session)
        ensures
            r@ == Seq::<Event>::empty(),
    {
        Session { conn, transcript: Ghost(Seq::empty()) }
    }

    /// Runs a statement that gives no rows.
    pub fn run(&mut self, statement: Statement, params: Vec<Param>) -> (r: Result<(), SqlFailure>)
        ensures
            continues(final(self)@, old(self)@),
            ran(
                final(self)@,
                old(self)@.len() as int,
                Call { statement, params: views(params@) },
            ) == Some((result_view(r), final(self)@.len() as int)),
    {
        let ghost before = self@;
        let r = self.sqlite_execute(statement, statement.text().as_str(), &params);
        proof {
            lemma_push_continues(before, ran_event(statement, params@, r));
        }
        r
    }

    /// Runs a statement and takes the first row that it gives.
    pub fn fetch_row(&mut self, statement: Statement, params: Vec<Param>) -> (r: Result<
        Vec<Cell>,
        SqlFailure,
    >)
        ensures
            continues(final(self)@, old(self)@),
            fetched_row(
                final(self)@,
                old(self)@.len() as int,
                Call { statement, params: views(params@) },
            ) == Some((row_result(r), final(self)@.len() as int)),
    {
        let ghost before = self@;
        let columns: usize = statement.column_count();
        let r = self.sqlite_query_row(statement, statement.text().as_str(), &params, columns);
        proof {
            lemma_push_continues(before, row_event(statement, params@, r));
        }
        r
    }

    /// Runs a statement and takes all rows that it gives.
    pub fn fetch_rows(&mut self, statement: Statement, params: Vec<Param>) -> (r: Result<
        Vec<Result<Vec<Cell>, SqlFailure>>,
        SqlFailure,
    >)
        ensures
            continues(final(self)@, old(self)@),
            fetched_rows(
                final(self)@,
                old(self)@.len() as int,
                Call { statement, params: views(params@) },
            ) == Some((rows_view(r), final(self)@.len() as int)),
    {
        let ghost before = self@;
        let columns: usize = statement.column_count();
        let r = self.sqlite_query_rows(statement, statement.text().as_str(), &params, columns);
        proof {
            lemma_push_continues(before, rows_event(statement, params@, r));
        }
        r
    }

    /// The id of the row that was inserted last.
    pub fn last_row_id(&mut self) -> (r: i64)
        ensures
            continues(final(self)@, old(self)@),
            row_id_read(final(self)@, old(self)@.len() as int) == Some(
                (r, final(self)@.len() as int),
            ),
    {
        let ghost before = self@;
        let id: i64 = self.sqlite_last_insert_rowid();
        proof {
            lemma_push_continues(before, Event::RowId { id });
        }
        id
    }

    /// The reading of the clock.
    pub fn now(&mut self) -> (r: Timestamp)
        ensures
            r.valid(),
            continues(final(self)@, old(self)@),
            clock_read(final(self)@, old(self)@.len() as int) == Some(
                (r, final(self)@.len() as int),
            ),
    {
        broadcast use group_date_parts;

        let ghost before = self@;
        let (seconds, nanos) = self.chrono_now();
        let now = Timestamp::new(seconds, nanos).unwrap();
        proof {
            lemma_push_continues(before, Event::Clock { now });
        }
        now
    }
}

} // verus!
