//! The state that outlives a sync cycle: a small table of keys and values in a
//! database of its own.

use vstd::prelude::*;

use crate::date::Timestamp;
use crate::error::{Error, ErrorView};
use crate::session::{
    clock_read, continues, fetched_row, group_transcript, ran, Session, Trace, Transcript,
};
use crate::sql::{
    get_text, opt_result_view, result_view, text_at, FailureView, Param, ParamView, SqlFailure,
};
use crate::sqlite::{params0, params1, params2, plain, with_text};
use crate::statement::{Call, Statement};

verus! {

broadcast use group_transcript;

/// The open state database.
pub struct SyncState {
    session: Session,
}

impl View for SyncState {
    type V = Transcript;

    closed spec fn view(&self) -> Transcript {
        self.session@
    }
}

/// The run of [`SyncState::get`].
pub open spec fn get_trace(t: Transcript, at: int, key: Seq<char>) -> Trace<Option<Seq<char>>> {
    match fetched_row(t, at, with_text(Statement::ReadState, key)) {
        None => None,
        Some((Err(FailureView::NoRows), at)) => Some((Ok(None), at)),
        Some((Err(e), at)) => Some((Err(ErrorView::Sqlite(e)), at)),
        Some((Ok(row), at)) => match text_at(row, 0, "value"@) {
            Ok(value) => Some((Ok(Some(value)), at)),
            Err(e) => Some((Err(ErrorView::Sqlite(e)), at)),
        },
    }
}

/// The writing of a value.
pub open spec fn write_call(key: Seq<char>, value: Seq<char>) -> Call {
    Call {
        statement: Statement::WriteState,
        params: seq![ParamView::Text(key), ParamView::Text(value)],
    }
}

/// The run of [`SyncState::set`].
pub open spec fn set_trace(t: Transcript, at: int, key: Seq<char>, value: Seq<char>) -> Trace<()> {
    match ran(t, at, write_call(key, value)) {
        None => None,
        Some((Err(e), at)) => Some((Err(ErrorView::Sqlite(e)), at)),
        Some((Ok(_), at)) => Some((Ok(()), at)),
    }
}

/// The run of [`create_table`].
pub open spec fn create_trace(t: Transcript, at: int) -> Trace<()> {
    match ran(t, at, plain(Statement::CreateState)) {
        None => None,
        Some((Err(e), at)) => Some((Err(ErrorView::Sqlite(e)), at)),
        Some((Ok(_), at)) => Some((Ok(()), at)),
    }
}

/// Creates the table of the state where it is missing.
pub fn create_table(session: &mut Session) -> (r: Result<(), Error>)
    ensures
        continues(final(session)@, old(session)@),
        create_trace(final(session)@, old(session)@.len() as int) == Some(
            (result_view(r), final(session)@.len() as int),
        ),
{
    match session.run(Statement::CreateState, params0()) {
        Ok(_) => Ok(()),
        Err(e) => Err(Error::Sqlite(e)),
    }
}

impl SyncState {
    /// The state in an open database. The table is created where it is
    /// missing.
    pub fn open(conn: rusqlite::Connection) -> (r: Result<SyncState, Error>)
        ensures
            match r {
                Ok(state) => create_trace(state@, 0) == Some((Ok::<(), ErrorView>(()), 1int))
                    && state@.len() == 1,
                Err(e) => e is Sqlite,
            },
    {
        let mut session = Session::new(conn);
        match create_table(&mut session) {
            Ok(_) => Ok(SyncState { session }),
            Err(e) => Err(e),
        }
    }

    /// The value of a key, if there is one.
    pub fn get(&mut self, key: &str) -> (r: Result<Option<String>, Error>)
        ensures
            continues(final(self)@, old(self)@),
            get_trace(final(self)@, old(self)@.len() as int, key@) == Some(
                (opt_result_view(r), final(self)@.len() as int),
            ),
    {
        match self.session.fetch_row(Statement::ReadState, params1(Param::Text(key.to_owned()))) {
            Ok(row) => match get_text(&row, 0, "value") {
                Ok(value) => Ok(Some(value)),
                Err(e) => Err(Error::Sqlite(e)),
            },
            Err(SqlFailure::NoRows) => Ok(None),
            Err(e) => Err(Error::Sqlite(e)),
        }
    }

    /// Sets the value of a key.
    pub fn set(&mut self, key: &str, value: &str) -> (r: Result<(), Error>)
        ensures
            continues(final(self)@, old(self)@),
            set_trace(final(self)@, old(self)@.len() as int, key@, value@) == Some(
                (result_view(r), final(self)@.len() as int),
            ),
    {
        match self.session.run(
            Statement::WriteState,
            params2(Param::Text(key.to_owned()), Param::Text(value.to_owned())),
        ) {
            Ok(_) => Ok(()),
            Err(e) => Err(Error::Sqlite(e)),
        }
    }

    /// The reading of the clock.
    pub fn now(&mut self) -> (r: Timestamp)
        ensures
            r.valid(),
            continues(final(self)@, old(self)@),
            clock_read(final(self)@, old(self)@.len() as int) == Some(
                (r, final(self)@.len() as int),
            ),
    {
        self.session.now()
    }
}

} // verus!
