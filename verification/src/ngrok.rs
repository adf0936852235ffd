//! The ngrok subprocess: how it is started, and how it is ended.

use vstd::prelude::*;

use crate::config::{law_ports_are_read, port_of};
use crate::error::{ends_with, Error, ErrorView};
use crate::sql::views;
use crate::text::{decimal, join, join3, print_u64};

verus! {

/// Where the output of ngrok goes.
pub const NGROK_STDOUT_LOG: &'static str = "/tmp/my-task-sync-ngrok.out.log";

/// Where the errors of ngrok go.
pub const NGROK_STDERR_LOG: &'static str = "/tmp/my-task-sync-ngrok.err.log";

/// The arguments of ngrok.
pub open spec fn spawn_arguments(domain: Seq<char>, port: u16) -> Seq<Seq<char>> {
    seq!["http"@, decimal(port as nat), "--domain"@, domain]
}

/// The arguments of ngrok: forward the domain to the port.
pub fn spawn_args(domain: &str, port: u16) -> (r: Vec<String>)
    ensures
        views(r@) == spawn_arguments(domain@, port),
{
    let mut args: Vec<String> = Vec::new();
    args.push("http".to_owned());
    args.push(print_u64(port as u64));
    args.push("--domain".to_owned());
    args.push(domain.to_owned());
    assert(views(args@) =~= spawn_arguments(domain@, port));
    args
}

/// The error for a program that could not be started.
pub open spec fn spawn_error(
    program: Seq<char>,
    not_found: bool,
    error: Seq<char>,
) -> ErrorView {
    if not_found {
        ErrorView::Config(
            "ngrok binary not found (tried `"@ + program
                + "`). Install with `brew install ngrok` and configure the authtoken via `ngrok config add-authtoken <token>`. Underlying error: "@
                + error,
        )
    } else {
        ErrorView::Io(error)
    }
}

/// The error for a program that could not be started. Where there is no such
/// program, it says how to install it.
pub fn map_spawn_error(program: &str, not_found: bool, error: String) -> (r: Error)
    ensures
        r@ == spawn_error(program@, not_found, error@),
{
    if not_found {
        let head = join3(
            "ngrok binary not found (tried `",
            program,
            "`). Install with `brew install ngrok` and configure the authtoken via `ngrok config add-authtoken <token>`. Underlying error: ",
        );
        Error::Config(join(head.as_str(), error.as_str()))
    } else {
        Error::Io(error)
    }
}

/// The next step in ending the subprocess.
#[derive(Debug, Clone, Copy, PartialEq, Eq, Structural)]
pub enum KillStep {
    /// Send the kill signal to the process group with this number.
    KillGroup(u32),
    /// Send the kill signal to the process alone.
    KillChild,
    /// Wait for the process to end.
    Wait,
    /// Nothing is left to do.
    Done,
}

/// How the subprocess is ended at shutdown. `child` is `None` where there is
/// none any more, and its process number is absent once it has ended. The
/// subprocess leads a process group of its own, so that the numbers are the
/// same.
pub open spec fn kill_start(child: Option<Option<u32>>) -> KillStep {
    match child {
        None => KillStep::Done,
        Some(None) => KillStep::Wait,
        Some(Some(pid)) => KillStep::KillGroup(pid),
    }
}

/// The first step in ending the subprocess at shutdown.
pub fn kill_and_wait(child: Option<Option<u32>>) -> (r: KillStep)
    ensures
        r == kill_start(child),
{
    match child {
        None => KillStep::Done,
        Some(None) => KillStep::Wait,
        Some(Some(pid)) => KillStep::KillGroup(pid),
    }
}

/// The step behind the signal to the group: the process is waited for. Where
/// the signal failed, and not because the group is gone already, the process
/// alone is killed first.
pub open spec fn after_group_kill(failed: bool, already_gone: bool) -> KillStep {
    if failed && !already_gone {
        KillStep::KillChild
    } else {
        KillStep::Wait
    }
}

/// The step behind the signal to the group. `errno` is the error number where
/// the signal failed, and `esrch` the number that says that there is no such
/// group.
pub fn after_killpg(errno: Option<i32>, esrch: i32) -> (r: KillStep)
    ensures
        r == after_group_kill(errno is Some, errno == Some(esrch)),
{
    match errno {
        None => KillStep::Wait,
        Some(n) => if n == esrch {
            KillStep::Wait
        } else {
            KillStep::KillChild
        },
    }
}

/// The step behind a step. `failed` and `already_gone` tell how the signal to
/// the group ended.
pub open spec fn kill_step(step: KillStep, failed: bool, already_gone: bool) -> KillStep {
    match step {
        KillStep::KillGroup(_) => after_group_kill(failed, already_gone),
        KillStep::KillChild => KillStep::Wait,
        KillStep::Wait => KillStep::Done,
        KillStep::Done => KillStep::Done,
    }
}

/// The step behind a step that was performed. `errno` and `esrch` are those of
/// [`after_killpg`].
pub fn next_kill_step(step: KillStep, errno: Option<i32>, esrch: i32) -> (r: KillStep)
    ensures
        r == kill_step(step, errno is Some, errno == Some(esrch)),
{
    match step {
        KillStep::KillGroup(_) => after_killpg(errno, esrch),
        KillStep::KillChild => KillStep::Wait,
        KillStep::Wait => KillStep::Done,
        KillStep::Done => KillStep::Done,
    }
}

/// The number of steps that are left at most.
pub open spec fn steps_left(step: KillStep) -> nat {
    match step {
        KillStep::KillGroup(_) => 3,
        KillStep::KillChild => 2,
        KillStep::Wait => 1,
        KillStep::Done => 0,
    }
}

/// The steps from one on, up to the last.
pub open spec fn kill_path(step: KillStep, failed: bool, already_gone: bool) -> Seq<KillStep>
    decreases steps_left(step),
{
    if step is Done {
        seq![step]
    } else {
        seq![step] + kill_path(kill_step(step, failed, already_gone), failed, already_gone)
    }
}

/// The step behind the signal to the group when the guard of the subprocess is
/// dropped, where nothing can be waited for.
pub fn drop_inner(group_killed: bool) -> (r: KillStep)
    ensures
        r == (if group_killed {
            KillStep::Done
        } else {
            KillStep::KillChild
        }),
{
    if group_killed {
        KillStep::Done
    } else {
        KillStep::KillChild
    }
}

/// A subprocess that is still there is waited for in the end, however the
/// signals end: that is the last step but one. A process with a number has the
/// signal sent to its group first, and a group that is gone already is no
/// failure.
pub proof fn law_subprocess_is_waited_for(pid: Option<u32>, failed: bool, already_gone: bool)
    ensures
        ({
            let path = kill_path(kill_start(Some(pid)), failed, already_gone);
            &&& 2 <= path.len() <= 4
            &&& path.last() == KillStep::Done
            &&& path[path.len() - 2] == KillStep::Wait
            &&& pid matches Some(n) ==> path[0] == KillStep::KillGroup(n)
            &&& path.contains(KillStep::KillChild) <==> pid is Some && failed && !already_gone
        }),
        kill_path(kill_start(None), failed, already_gone) == seq![KillStep::Done],
{
    reveal_with_fuel(kill_path, 5);
    let path = kill_path(kill_start(Some(pid)), failed, already_gone);
    if pid is Some && failed && !already_gone {
        assert(path =~= seq![
            KillStep::KillGroup(pid->0),
            KillStep::KillChild,
            KillStep::Wait,
            KillStep::Done,
        ]);
        assert(path[1] == KillStep::KillChild);
    } else if pid is Some {
        assert(path =~= seq![KillStep::KillGroup(pid->0), KillStep::Wait, KillStep::Done]);
    } else {
        assert(path =~= seq![KillStep::Wait, KillStep::Done]);
    }
}

/// ngrok is told to forward the domain to the port.
pub proof fn law_ngrok_is_told_domain_and_port(domain: Seq<char>, port: u16)
    ensures
        ({
            let args = spawn_arguments(domain, port);
            &&& args.len() == 4
            &&& args[0] == "http"@
            &&& port_of(args[1]) == Some(port)
            &&& args[2] == "--domain"@
            &&& args[3] == domain
        }),
{
    law_ports_are_read(port);
}

/// A program that is not there is a matter of the configuration, and the words
/// name it and give the cause. Any other failure is told as it is.
pub proof fn law_spawn_failures_are_told(program: Seq<char>, not_found: bool, error: Seq<char>)
    ensures
        !not_found ==> spawn_error(program, not_found, error) == ErrorView::Io(error),
        not_found ==> (spawn_error(program, not_found, error) matches ErrorView::Config(words)
            && ends_with(words, error) && exists|i: int|
            0 <= i && i + program.len() <= words.len() && #[trigger] words.subrange(
                i,
                i + program.len(),
            ) == program),
{
    if not_found {
        let words = spawn_error(program, not_found, error)->Config_0;
        assert(words.skip(words.len() - error.len()) =~= error);
        let i = "ngrok binary not found (tried `"@.len() as int;
        assert(words.subrange(i, i + program.len()) =~= program);
    }
}

} // verus!
