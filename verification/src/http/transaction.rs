//! The end of a transaction.

use vstd::prelude::*;

use crate::error::{Error, ErrorView};
use crate::session::{continues, group_transcript, ran, Session, Trace, Transcript};
use crate::sqlite::{params0, plain};
use crate::statement::Statement;

verus! {

broadcast use group_transcript;

/// The run of [`begin`].
pub open spec fn begin_trace(t: Transcript, at: int) -> Trace<()> {
    match ran(t, at, plain(Statement::Begin)) {
        None => None,
        Some((Err(e), at)) => Some((Err(ErrorView::Sqlite(e)), at)),
        Some((Ok(_), at)) => Some((Ok(()), at)),
    }
}

/// Opens a transaction.
pub fn begin(session: &mut Session) -> (r: Result<(), Error>)
    ensures
        continues(final(session)@, old(session)@),
        match r {
            Ok(_) => begin_trace(final(session)@, old(session)@.len() as int) == Some(
                (Ok::<(), ErrorView>(()), final(session)@.len() as int),
            ),
            Err(e) => begin_trace(final(session)@, old(session)@.len() as int) == Some(
                (Err::<(), ErrorView>(e@), final(session)@.len() as int),
            ),
        },
{
    match session.run(Statement::Begin, params0()) {
        Ok(_) => Ok(()),
        Err(e) => Err(Error::Sqlite(e)),
    }
}

/// The end of a transaction with this outcome. Success is committed. An error,
/// that of the commit too, is followed by a rollback, whose own outcome does
/// not matter.
pub open spec fn settle_trace<T>(t: Transcript, at: int, outcome: Result<T, ErrorView>) -> Trace<
    T,
> {
    match outcome {
        Ok(value) => match ran(t, at, plain(Statement::Commit)) {
            None => None,
            Some((Ok(_), at)) => Some((Ok(value), at)),
            Some((Err(e), at)) => match ran(t, at, plain(Statement::Rollback)) {
                None => None,
                Some((_, at)) => Some((Err(ErrorView::Sqlite(e)), at)),
            },
        },
        Err(e) => match ran(t, at, plain(Statement::Rollback)) {
            None => None,
            Some((_, at)) => Some((Err(e), at)),
        },
    }
}

pub broadcast proof fn lemma_settle_kept<T>(
    later: Transcript,
    earlier: Transcript,
    at: int,
    outcome: Result<T, ErrorView>,
)
    requires
        #[trigger] continues(later, earlier),
        (#[trigger] settle_trace(earlier, at, outcome)) is Some,
    ensures
        settle_trace(later, at, outcome) == settle_trace(earlier, at, outcome),
{
}

/// Ends a transaction.
pub fn settle<T>(session: &mut Session, outcome: Result<T, Error>) -> (r: Result<T, Error>)
    ensures
        continues(final(session)@, old(session)@),
        settle_trace(final(session)@, old(session)@.len() as int, own_view(outcome)) == Some(
            (own_view(r), final(session)@.len() as int),
        ),
{
    match outcome {
        Ok(value) => match session.run(Statement::Commit, params0()) {
            Ok(_) => Ok(value),
            Err(e) => {
                let _ = session.run(Statement::Rollback, params0());
                Err(Error::Sqlite(e))
            },
        },
        Err(e) => {
            let _ = session.run(Statement::Rollback, params0());
            Err(e)
        },
    }
}

/// The view of a result that carries the status code of the response.
pub open spec fn answer_view<T: View>(r: Result<(u16, T), Error>) -> Result<T::V, ErrorView> {
    match r {
        Ok((_, v)) => Ok(v@),
        Err(e) => Err(e@),
    }
}

/// Whether a result is a success, or its error.
pub open spec fn outcome_view<T>(r: Result<T, Error>) -> Result<(), ErrorView> {
    match r {
        Ok(_) => Ok(()),
        Err(e) => Err(e@),
    }
}

/// A result with the view of its error.
pub open spec fn own_view<T>(r: Result<T, Error>) -> Result<T, ErrorView> {
    match r {
        Ok(v) => Ok(v),
        Err(e) => Err(e@),
    }
}

} // verus!
