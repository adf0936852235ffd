//! The life of the server and of the ngrok subprocess.

use my_task_sync::error::Error;
use my_task_sync::ngrok::{
    after_killpg, drop_inner, kill_and_wait, map_spawn_error, next_kill_step, spawn_args, KillStep,
};
use my_task_sync::server::{exit_code, first_step, run, Ending, RunEvent, RunStep};

fn failure() -> Result<(), Error> {
    Err(Error::Io("address in use".into()))
}

#[test]
fn the_server_starts_step_by_step() {
    assert!(matches!(first_step(), RunStep::OpenDatabase));
    assert!(matches!(run(RunEvent::Opened(Ok(())), true), RunStep::Bind));
    assert!(matches!(run(RunEvent::Bound(Ok(())), true), RunStep::SpawnNgrok));
    assert!(matches!(run(RunEvent::Bound(Ok(())), false), RunStep::Serve));
    assert!(matches!(run(RunEvent::Spawned(Ok(())), true), RunStep::Serve));
}

#[test]
fn a_failure_on_the_way_ends_the_server() {
    for event in [
        RunEvent::Opened(failure()),
        RunEvent::Bound(failure()),
        RunEvent::Spawned(failure()),
        RunEvent::Stopped(failure()),
    ] {
        assert!(matches!(run(event, true), RunStep::Exit(Err(Error::Io(_)))));
    }
}

#[test]
fn ngrok_ends_after_the_requests() {
    assert!(matches!(run(RunEvent::Stopped(Ok(())), true), RunStep::KillNgrok));
    assert!(matches!(run(RunEvent::DeadlinePassed, true), RunStep::KillNgrok));
    assert!(matches!(run(RunEvent::Stopped(Ok(())), false), RunStep::Exit(Ok(()))));
    assert!(matches!(run(RunEvent::DeadlinePassed, false), RunStep::Exit(Ok(()))));
    assert!(matches!(run(RunEvent::Killed, true), RunStep::Exit(Ok(()))));
}

#[test]
fn exit_codes_tell_how_it_ended() {
    assert_eq!(exit_code(&Ending::BadArguments), 2);
    assert_eq!(exit_code(&Ending::Help), 0);
    assert_eq!(exit_code(&Ending::BadConfiguration), 1);
    assert_eq!(exit_code(&Ending::Ran(Ok(()))), 0);
    assert_eq!(exit_code(&Ending::Ran(failure())), 1);
}

#[test]
fn ngrok_forwards_the_domain_to_the_port() {
    assert_eq!(
        spawn_args("x.ngrok-free.dev", 3333),
        ["http", "3333", "--domain", "x.ngrok-free.dev"]
    );
}

#[test]
fn a_missing_binary_comes_with_advice() {
    let err = map_spawn_error("/nonexistent/ngrok", true, "No such file or directory".into());
    assert_eq!(
        err.message(),
        "config error: ngrok binary not found (tried `/nonexistent/ngrok`). Install with `brew install ngrok` and configure the authtoken via `ngrok config add-authtoken <token>`. Underlying error: No such file or directory"
    );
    let other = map_spawn_error("ngrok", false, "Permission denied".into());
    assert!(matches!(other, Error::Io(_)));
    assert_eq!(other.message(), "io error: Permission denied");
}

#[test]
fn every_way_to_end_the_subprocess_waits_for_it() {
    let path = |pid: Option<u32>, errno: Option<i32>| {
        let mut steps = vec![kill_and_wait(Some(pid))];
        while steps[steps.len() - 1] != KillStep::Done {
            steps.push(next_kill_step(steps[steps.len() - 1], errno, 3));
        }
        steps
    };
    let (group, wait, done) = (KillStep::KillGroup(7), KillStep::Wait, KillStep::Done);
    assert_eq!(path(Some(7), None), [group, wait, done]);
    assert_eq!(path(Some(7), Some(3)), [group, wait, done]);
    assert_eq!(path(Some(7), Some(1)), [group, KillStep::KillChild, wait, done]);
    assert_eq!(path(None, None), [wait, done]);
    assert_eq!(next_kill_step(done, None, 3), done);
}

#[test]
fn the_group_is_killed_then_waited_for() {
    assert_eq!(kill_and_wait(None), KillStep::Done);
    assert_eq!(kill_and_wait(Some(None)), KillStep::Wait);
    assert_eq!(kill_and_wait(Some(Some(7))), KillStep::KillGroup(7));
    assert_eq!(after_killpg(None, 3), KillStep::Wait);
    assert_eq!(after_killpg(Some(3), 3), KillStep::Wait);
    assert_eq!(after_killpg(Some(1), 3), KillStep::KillChild);
    assert_eq!(drop_inner(true), KillStep::Done);
    assert_eq!(drop_inner(false), KillStep::KillChild);
}
