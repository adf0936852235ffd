//! Requests and attempts of the client.

use my_task_sync::api_client::{send_with_retry, Attempt, HttpApiClient, Method, RetryStep};
use my_task_sync::error::Error;

fn client() -> HttpApiClient {
    HttpApiClient::new("https://own.example//".into(), "key".into())
}

fn answered(status: u16) -> Attempt {
    Attempt::Answered { status, body: "body".into() }
}

#[test]
fn addresses_have_one_slash() {
    assert_eq!(client().url("/x"), "https://own.example/x");
    assert_eq!(HttpApiClient::new("".into(), "".into()).url("/x"), "/x");
    assert_eq!(HttpApiClient::new("///".into(), "".into()).url("/x"), "/x");
}

#[test]
fn requests_name_their_endpoints() {
    let push = client().push_tasks();
    assert_eq!(push.method, Method::Post);
    assert_eq!(push.url, "https://own.example/api/sync/tasks/push");
    assert_eq!(push.authorization, "Bearer key");
    assert_eq!(push.accept, "application/json");
    assert_eq!(push.content_type.as_deref(), Some("application/json"));
    let unsynced = client().get_unsynced();
    assert_eq!(unsynced.method, Method::Get);
    assert_eq!(unsynced.url, "https://own.example/api/sync/tasks/unsynced");
    assert!(unsynced.content_type.is_none());
    let number = client().patch_task_number(-42);
    assert_eq!(number.method, Method::Patch);
    assert_eq!(number.url, "https://own.example/api/sync/tasks/-42/number");
    let changes = client().get_changes(Some("2026-04-11T00:00:00Z".into()));
    assert_eq!(changes.url, "https://own.example/api/sync/tasks/changes");
    assert_eq!(changes.since.as_deref(), Some("2026-04-11T00:00:00Z"));
    assert!(client().get_changes(None).since.is_none());
}

#[test]
fn success_ends_a_request() {
    for attempt in 0..4 {
        assert!(matches!(send_with_retry(attempt, answered(200)), RetryStep::Done));
        assert!(matches!(send_with_retry(attempt, answered(299)), RetryStep::Done));
    }
}

#[test]
fn client_errors_are_not_repeated() {
    for status in [400, 401, 404, 499] {
        match send_with_retry(0, answered(status)) {
            RetryStep::GiveUp(Error::Api { status: s, body }) => {
                assert_eq!(s, status);
                assert_eq!(body, "body");
            }
            other => panic!("unexpected: {other:?}"),
        }
    }
}

#[test]
fn other_statuses_are_not_repeated() {
    for status in [100, 199, 300, 302, 304, 399, 600] {
        match send_with_retry(0, answered(status)) {
            RetryStep::GiveUp(Error::Api { status: s, body }) => {
                assert_eq!(s, status);
                assert_eq!(body, "body");
            }
            other => panic!("unexpected: {other:?}"),
        }
    }
}

#[test]
fn server_errors_are_repeated_three_times() {
    for status in [500, 503, 599] {
        assert!(matches!(send_with_retry(0, answered(status)), RetryStep::Wait(1)));
        assert!(matches!(send_with_retry(1, answered(status)), RetryStep::Wait(2)));
        assert!(matches!(send_with_retry(2, answered(status)), RetryStep::Wait(4)));
        assert!(matches!(
            send_with_retry(3, answered(status)),
            RetryStep::GiveUp(Error::Api { .. })
        ));
    }
}

#[test]
fn only_transient_failures_are_repeated() {
    let failed = |transient| Attempt::Failed { transient, error: "timed out".into() };
    assert!(matches!(send_with_retry(0, failed(true)), RetryStep::Wait(1)));
    assert!(matches!(send_with_retry(3, failed(true)), RetryStep::GiveUp(Error::Reqwest(_))));
    assert!(matches!(send_with_retry(0, failed(false)), RetryStep::GiveUp(Error::Reqwest(_))));
    match send_with_retry(0, Attempt::NotRepeatable) {
        RetryStep::GiveUp(e) => assert_eq!(
            e.message(),
            "config error: request body is not cloneable; cannot retry (streaming bodies unsupported)"
        ),
        other => panic!("unexpected: {other:?}"),
    }
}
