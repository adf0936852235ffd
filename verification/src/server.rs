//! The life of the server, from the open database to the exit.

use vstd::prelude::*;

use crate::error::{Error, ErrorView};
use crate::sql::result_view;

verus! {

/// How long requests may go on after the signal to shut down, and how long the
/// end of ngrok is waited for, in seconds.
pub const GRACEFUL_SHUTDOWN_SECS: u64 = 10;

/// The address that the server listens on: this machine only.
pub const BIND_ADDRESS: [u8; 4] = [127, 0, 0, 1];

/// The next step in the life of the server.
#[derive(Debug)]
pub enum RunStep {
    OpenDatabase,
    Bind,
    SpawnNgrok,
    Serve,
    KillNgrok,
    Exit(Result<(), Error>),
}

/// The model of a [`RunStep`].
pub enum RunView {
    OpenDatabase,
    Bind,
    SpawnNgrok,
    Serve,
    KillNgrok,
    Exit(Result<(), ErrorView>),
}

impl View for RunStep {
    type V = RunView;

    open spec fn view(&self) -> RunView {
        match self {
            RunStep::OpenDatabase => RunView::OpenDatabase,
            RunStep::Bind => RunView::Bind,
            RunStep::SpawnNgrok => RunView::SpawnNgrok,
            RunStep::Serve => RunView::Serve,
            RunStep::KillNgrok => RunView::KillNgrok,
            RunStep::Exit(r) => RunView::Exit(result_view(*r)),
        }
    }
}

/// What a step brought.
#[derive(Debug)]
pub enum RunEvent {
    Opened(Result<(), Error>),
    Bound(Result<(), Error>),
    Spawned(Result<(), Error>),
    /// The server ended, by itself or after the signal to shut down.
    Stopped(Result<(), Error>),
    /// Requests went on for too long after the signal to shut down.
    DeadlinePassed,
    /// ngrok ended, or was not waited for any longer.
    Killed,
}

/// The step behind a failure, or `next`.
pub open spec fn proceed(outcome: Result<(), Error>, next: RunView) -> RunView {
    match outcome {
        Ok(_) => next,
        Err(e) => RunView::Exit(Err(e@)),
    }
}

/// The step behind an event. ngrok starts once the server can be reached, and
/// ends once requests are over; `ngrok` says whether it is configured.
pub open spec fn next_step(event: RunEvent, ngrok: bool) -> RunView {
    match event {
        RunEvent::Opened(r) => proceed(r, RunView::Bind),
        RunEvent::Bound(r) => proceed(
            r,
            if ngrok {
                RunView::SpawnNgrok
            } else {
                RunView::Serve
            },
        ),
        RunEvent::Spawned(r) => proceed(r, RunView::Serve),
        RunEvent::Stopped(r) => proceed(
            r,
            if ngrok {
                RunView::KillNgrok
            } else {
                RunView::Exit(Ok(()))
            },
        ),
        RunEvent::DeadlinePassed => if ngrok {
            RunView::KillNgrok
        } else {
            RunView::Exit(Ok(()))
        },
        RunEvent::Killed => RunView::Exit(Ok(())),
    }
}

/// The step that the life of the server begins with.
pub fn first_step() -> (r: RunStep)
    ensures
        r@ is OpenDatabase,
{
    RunStep::OpenDatabase
}

/// The step behind an event.
pub fn run(event: RunEvent, ngrok: bool) -> (r: RunStep)
    ensures
        r@ == next_step(event, ngrok),
{
    match event {
        RunEvent::Opened(Err(e)) | RunEvent::Bound(Err(e)) | RunEvent::Spawned(Err(e))
        | RunEvent::Stopped(Err(e)) => RunStep::Exit(Err(e)),
        RunEvent::Opened(Ok(_)) => RunStep::Bind,
        RunEvent::Bound(Ok(_)) => if ngrok {
            RunStep::SpawnNgrok
        } else {
            RunStep::Serve
        },
        RunEvent::Spawned(Ok(_)) => RunStep::Serve,
        RunEvent::Stopped(Ok(_)) | RunEvent::DeadlinePassed => if ngrok {
            RunStep::KillNgrok
        } else {
            RunStep::Exit(Ok(()))
        },
        RunEvent::Killed => RunStep::Exit(Ok(())),
    }
}

/// How a run of the program ended.
pub enum Ending {
    /// The command line could not be read.
    BadArguments,
    /// The help was asked for.
    Help,
    /// The configuration could not be resolved.
    BadConfiguration,
    /// The server ended.
    Ran(Result<(), Error>),
}

/// The exit code of the program.
pub open spec fn exit_status(ending: Ending) -> u8 {
    match ending {
        Ending::BadArguments => 2,
        Ending::BadConfiguration => 1,
        Ending::Help => 0,
        Ending::Ran(Ok(_)) => 0,
        Ending::Ran(Err(_)) => 1,
    }
}

/// The exit code of the program.
pub fn exit_code(ending: &Ending) -> (r: u8)
    ensures
        r == exit_status(*ending),
{
    match ending {
        Ending::BadArguments => 2,
        Ending::BadConfiguration => 1,
        Ending::Help => 0,
        Ending::Ran(Ok(_)) => 0,
        Ending::Ran(Err(_)) => 1,
    }
}

/// ngrok is started only after the server was bound, and a server with ngrok
/// does not exit with success before ngrok was ended.
pub proof fn law_ngrok_lives_within_the_server(event: RunEvent, ngrok: bool)
    ensures
        next_step(event, ngrok) is SpawnNgrok ==> ngrok && event is Bound,
        next_step(event, ngrok) == RunView::Exit(Ok(())) && ngrok ==> event is Killed,
        next_step(event, ngrok) is KillNgrok ==> ngrok && (event is Stopped
            || event is DeadlinePassed),
{
}

/// A failure on the way to serving ends the program with that failure.
pub proof fn law_startup_failures_end_the_program(event: RunEvent, ngrok: bool)
    ensures
        event matches RunEvent::Opened(Err(e)) ==> next_step(event, ngrok) == RunView::Exit(
            Err(e@),
        ),
        event matches RunEvent::Bound(Err(e)) ==> next_step(event, ngrok) == RunView::Exit(
            Err(e@),
        ),
        event matches RunEvent::Spawned(Err(e)) ==> next_step(event, ngrok) == RunView::Exit(
            Err(e@),
        ),
{
}

/// A server that nothing stops opens the database, binds, starts ngrok where it
/// is configured, and serves.
pub proof fn law_server_starts_in_order(ngrok: bool)
    ensures
        next_step(RunEvent::Opened(Ok(())), ngrok) is Bind,
        next_step(RunEvent::Bound(Ok(())), true) is SpawnNgrok,
        next_step(RunEvent::Bound(Ok(())), false) is Serve,
        next_step(RunEvent::Spawned(Ok(())), ngrok) is Serve,
{
}

/// A server that ended ends ngrok where it is configured, and exits with
/// success. A failure of the server ends the program with that failure.
pub proof fn law_server_ends_in_order(ngrok: bool, error: Error)
    ensures
        next_step(RunEvent::Stopped(Ok(())), true) is KillNgrok,
        next_step(RunEvent::Stopped(Ok(())), false) == RunView::Exit(Ok(())),
        next_step(RunEvent::DeadlinePassed, true) is KillNgrok,
        next_step(RunEvent::DeadlinePassed, false) == RunView::Exit(Ok(())),
        next_step(RunEvent::Killed, ngrok) == RunView::Exit(Ok(())),
        next_step(RunEvent::Stopped(Err(error)), ngrok) == RunView::Exit(Err(error@)),
{
}

/// The program exits with 0 exactly where the help was asked for or the server
/// ended well, with 2 exactly where the command line could not be read, and with
/// 1 otherwise.
pub proof fn law_exit_codes(ending: Ending)
    ensures
        exit_status(ending) == 0 <==> ending is Help || (ending is Ran && ending->0 is Ok),
        exit_status(ending) == 2 <==> ending is BadArguments,
        exit_status(ending) <= 2,
{
}

} // verus!
