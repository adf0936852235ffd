//! Bearer authentication and error responses.

use my_task_sync::error::Error;
use my_task_sync::http::auth::{authorize, constant_time_eq, require_bearer};
use my_task_sync::sql::SqlFailure;

const TEST_API_KEY: &str = "test-secret";

fn is_401(r: Result<(), Error>) -> bool {
    match r {
        Err(e) => e.into_response() == (401, "unauthorized".to_string()),
        Ok(()) => false,
    }
}

#[test]
fn constant_time_eq_matches_equal_bytes() {
    assert!(constant_time_eq(b"secret", b"secret"));
}

#[test]
fn constant_time_eq_rejects_different_bytes() {
    assert!(!constant_time_eq(b"secret", b"SECRET"));
}

#[test]
fn constant_time_eq_rejects_different_lengths() {
    assert!(!constant_time_eq(b"secret", b"secretx"));
    assert!(!constant_time_eq(b"", b"x"));
}

#[test]
fn constant_time_eq_accepts_empty_equal() {
    assert!(constant_time_eq(b"", b""));
}

#[test]
fn healthz_is_accessible_without_bearer_token() {
    assert!(authorize("/healthz", None, TEST_API_KEY).is_ok());
}

#[test]
fn api_without_authorization_header_returns_401() {
    assert!(is_401(authorize("/api/foo", None, TEST_API_KEY)));
}

#[test]
fn api_with_wrong_bearer_returns_401() {
    assert!(is_401(authorize("/api/foo", Some("Bearer wrong-token"), TEST_API_KEY)));
}

#[test]
fn api_with_malformed_authorization_returns_401() {
    assert!(is_401(authorize("/api/foo", Some(TEST_API_KEY), TEST_API_KEY)));
}

#[test]
fn api_with_correct_bearer_falls_through_to_404() {
    let header = format!("Bearer {TEST_API_KEY}");
    assert!(authorize("/api/foo", Some(header.as_str()), TEST_API_KEY).is_ok());
    assert_eq!(Error::NotFound.into_response().0, 404);
}

#[test]
fn without_auth_returns_401() {
    assert!(is_401(authorize("/api/projects", None, "test-key")));
}

#[test]
fn post_without_auth_returns_401() {
    assert!(is_401(authorize("/api/projects", None, "test-key")));
}

#[test]
fn patch_without_auth_returns_401() {
    assert!(is_401(authorize("/api/projects/1", None, "test-key")));
}

#[test]
fn delete_without_auth_returns_401() {
    assert!(is_401(authorize("/api/projects/1", None, "test-key")));
}

#[test]
fn only_status_is_open_below_api() {
    assert!(authorize("/api/status", None, "k").is_ok());
    assert!(is_401(authorize("/api", None, "k")));
    assert!(is_401(authorize("/api/", None, "k")));
    assert!(is_401(authorize("/api/status/", None, "k")));
    assert!(authorize("/apis", None, "k").is_ok());
    assert!(authorize("/", None, "k").is_ok());
}

#[test]
fn the_token_must_match_exactly() {
    assert!(require_bearer(Some("Bearer k"), "k").is_ok());
    assert!(is_401(require_bearer(Some("bearer k"), "k")));
    assert!(is_401(require_bearer(Some("Bearer  k"), "k")));
    assert!(is_401(require_bearer(Some("Bearer k "), "k")));
    assert!(is_401(require_bearer(Some("Bearer"), "k")));
    assert!(require_bearer(Some("Bearer "), "").is_ok());
    assert!(require_bearer(Some("Bearer 鍵"), "鍵").is_ok());
}

#[test]
fn every_error_has_its_response() {
    let internal = (500, "internal error".to_string());
    assert_eq!(Error::Config("c".into()).into_response(), internal);
    assert_eq!(Error::Sqlite(SqlFailure::NoRows).into_response(), internal);
    assert_eq!(Error::Reqwest("r".into()).into_response(), internal);
    assert_eq!(Error::Io("i".into()).into_response(), internal);
    assert_eq!(Error::Toml("t".into()).into_response(), internal);
    assert_eq!(Error::Json("j".into()).into_response(), internal);
    assert_eq!(Error::Api { status: 502, body: "b".into() }.into_response(), internal);
    assert_eq!(Error::Unauthorized.into_response(), (401, "unauthorized".to_string()));
    assert_eq!(Error::NotFound.into_response(), (404, "not found".to_string()));
    assert_eq!(Error::BadRequest("why".into()).into_response(), (400, "why".to_string()));
    assert_eq!(Error::Conflict("taken".into()).into_response(), (409, "taken".to_string()));
}

#[test]
fn every_error_has_its_message() {
    assert_eq!(Error::Config("c".into()).message(), "config error: c");
    assert_eq!(Error::BadRequest("b".into()).message(), "bad request: b");
    assert_eq!(
        Error::Sqlite(SqlFailure::Other("disk I/O error".into())).message(),
        "sqlite error: disk I/O error"
    );
    assert_eq!(
        Error::Sqlite(SqlFailure::Constraint("UNIQUE".into())).message(),
        "sqlite error: UNIQUE"
    );
    assert_eq!(Error::Sqlite(SqlFailure::NoRows).message(), "sqlite error: Query returned no rows");
    assert_eq!(
        Error::Sqlite(SqlFailure::ColumnType {
            index: 3,
            name: "source".into(),
            found: "Null".into(),
        })
        .message(),
        "sqlite error: Invalid column type Null at index: 3, name: source"
    );
    assert_eq!(
        Error::Sqlite(SqlFailure::Conversion { index: 10, reason: "premature end of input".into() })
            .message(),
        "sqlite error: Conversion error from type Text at index: 10, premature end of input"
    );
    assert_eq!(
        Error::Sqlite(SqlFailure::ColumnIndex(7)).message(),
        "sqlite error: Invalid column index: 7"
    );
    assert_eq!(Error::Reqwest("r".into()).message(), "http error: r");
    assert_eq!(Error::Io("i".into()).message(), "io error: i");
    assert_eq!(Error::Toml("t".into()).message(), "toml error: t");
    assert_eq!(Error::Json("j".into()).message(), "json error: j");
    assert_eq!(
        Error::Api { status: 404, body: "gone".into() }.message(),
        "api error 404: gone"
    );
    assert_eq!(Error::Unauthorized.message(), "unauthorized");
    assert_eq!(Error::NotFound.message(), "not found");
    assert_eq!(Error::Conflict("c".into()).message(), "conflict: c");
}
