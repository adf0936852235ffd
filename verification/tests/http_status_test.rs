//! The handler of `/api/status`.

use rusqlite::Connection;

use my_task_sync::http::auth::authorize;
use my_task_sync::http::status::{
    check_sqlite, display_path, get_status, parse_tunnel_status, AdminReply, NgrokStatus,
};
use my_task_sync::json::{Json, Number};
use my_task_sync::session::Session;

fn convert(value: serde_json::Value) -> Json {
    match value {
        serde_json::Value::Null => Json::Null,
        serde_json::Value::Bool(b) => Json::Bool(b),
        serde_json::Value::Number(n) => Json::Number(Number {
            unsigned: n.as_u64(),
            text: n.to_string(),
        }),
        serde_json::Value::String(s) => Json::Text(s),
        serde_json::Value::Array(items) => Json::Array(items.into_iter().map(convert).collect()),
        serde_json::Value::Object(map) => {
            Json::Object(map.into_iter().map(|(k, v)| (k, convert(v))).collect())
        }
    }
}

fn json(text: &str) -> Json {
    convert(serde_json::from_str(text).unwrap())
}

fn memory() -> Session {
    Session::new(Connection::open_in_memory().unwrap())
}

#[test]
fn parse_tunnel_status_extracts_full_shape() {
    let v = json(
        r#"{
            "tunnels": [{
                "name": "command_line",
                "public_url": "https://unedified-carrie-nondiathermanous.ngrok-free.dev",
                "proto": "https",
                "config": { "addr": "http://localhost:3333", "inspect": true },
                "metrics": {
                    "conns": { "count": 50, "gauge": 0 },
                    "http": { "count": 56, "rate1": 0.7138732962499688 }
                }
            }],
            "uri": "/api/tunnels"
        }"#,
    );
    let s = parse_tunnel_status(&v);
    assert!(s.enabled);
    assert_eq!(s.reachable, Some(true));
    assert_eq!(
        s.public_url.as_deref(),
        Some("https://unedified-carrie-nondiathermanous.ngrok-free.dev")
    );
    assert_eq!(s.forwarding_to.as_deref(), Some("http://localhost:3333"));
    assert_eq!(s.http_requests_total, Some(56));
    assert_eq!(s.connections_total, Some(50));
    let rate: f64 = s.http_requests_per_second.unwrap().parse().unwrap();
    let per_min = rate * 60.0;
    assert!((per_min - 42.832_397_774_998_13).abs() < 1e-6, "got {per_min}");
}

#[test]
fn parse_tunnel_status_handles_empty_tunnels_array() {
    let s = parse_tunnel_status(&json(r#"{ "tunnels": [], "uri": "/api/tunnels" }"#));
    assert!(s.enabled);
    assert_eq!(s.reachable, Some(true));
    assert!(s.public_url.is_none());
    assert!(s.forwarding_to.is_none());
    assert!(s.http_requests_total.is_none());
}

#[test]
fn parse_tunnel_status_handles_missing_metrics() {
    let s = parse_tunnel_status(&json(
        r#"{
            "tunnels": [{
                "public_url": "https://x.ngrok-free.dev",
                "config": { "addr": "http://localhost:3333" }
            }]
        }"#,
    ));
    assert_eq!(s.public_url.as_deref(), Some("https://x.ngrok-free.dev"));
    assert!(s.http_requests_total.is_none());
    assert!(s.http_requests_per_second.is_none());
    assert!(s.connections_total.is_none());
}

#[test]
fn parse_tunnel_status_handles_top_level_garbage() {
    assert!(parse_tunnel_status(&json("{}")).enabled);
    assert!(parse_tunnel_status(&json("\"not an object\"")).enabled);
    assert!(parse_tunnel_status(&json(r#"{ "tunnels": "not-an-array" }"#)).enabled);
}

#[test]
fn only_natural_numbers_are_counts() {
    let s = parse_tunnel_status(&json(
        r#"{"tunnels": [{"public_url": 3, "metrics": {
            "http": {"count": -1, "rate1": "fast"}, "conns": {"count": 1.5}}}]}"#,
    ));
    assert!(s.public_url.is_none());
    assert!(s.http_requests_total.is_none());
    assert!(s.http_requests_per_second.is_none());
    assert!(s.connections_total.is_none());
}

#[test]
fn status_returns_200_without_auth() {
    assert!(authorize("/api/status", None, "test-key").is_ok());
    let ok = check_sqlite(&mut memory());
    let response = get_status("0.2.0", 0, "/tmp/status-test.db", Some("/Users/me"), ok, &None);
    assert!(response.server.sqlite.ok);
}

#[test]
fn status_server_section_contains_version_uptime_sqlite() {
    let ok = check_sqlite(&mut memory());
    let response = get_status("0.2.0", 12345, "/tmp/status-test.db", Some("/Users/me"), ok, &None);
    assert_eq!(response.server.version, "0.2.0");
    assert_eq!(response.server.uptime_seconds, 12345);
    assert_eq!(response.server.sqlite.path, "/tmp/status-test.db");
    assert!(response.server.sqlite.ok);
    assert!(!get_status("0.2.0", 0, "p", None, false, &None).server.sqlite.ok);
}

#[test]
fn status_ngrok_disabled_when_no_domain() {
    let ngrok = get_status("0.2.0", 0, "p", None, true, &None).ngrok;
    assert!(!ngrok.enabled);
    assert!(ngrok.reachable.is_none());
    assert!(ngrok.public_url.is_none());
    assert!(ngrok.error.is_none());
    assert!(!NgrokStatus::default().enabled);
}

#[test]
fn status_ngrok_unreachable_when_admin_api_not_running() {
    let error = |reply: AdminReply| {
        let ngrok = get_status("0.2.0", 0, "p", None, true, &Some(reply)).ngrok;
        assert!(ngrok.enabled);
        assert_eq!(ngrok.reachable, Some(false));
        assert!(ngrok.public_url.is_none());
        ngrok.error.unwrap()
    };
    assert_eq!(
        error(AdminReply::NoAnswer("connection refused".into())),
        "ngrok admin unreachable: connection refused"
    );
    assert_eq!(
        error(AdminReply::NoClient("tls".into())),
        "reqwest client build failed: tls"
    );
    assert_eq!(
        error(AdminReply::BadStatus("502 Bad Gateway".into())),
        "ngrok admin returned 502 Bad Gateway"
    );
    assert_eq!(
        error(AdminReply::BadBody("expected value".into())),
        "ngrok admin body parse failed: expected value"
    );
    let up = get_status("0.2.0", 0, "p", None, true, &Some(AdminReply::Tunnels(Json::Null))).ngrok;
    assert_eq!(up.reachable, Some(true));
}

#[test]
fn a_database_file_that_can_be_read_is_ok() {
    let dir = tempfile::tempdir().unwrap();
    let path = dir.path().join("x.db");
    let other = Connection::open(&path).unwrap();
    other.execute_batch("CREATE TABLE t (x)").unwrap();
    let mut session = Session::new(Connection::open(&path).unwrap());
    assert!(check_sqlite(&mut session));
}

#[test]
fn the_home_directory_is_not_shown() {
    assert_eq!(
        display_path("/Users/me/Library/tasks.db", Some("/Users/me")),
        "~/Library/tasks.db"
    );
    assert_eq!(display_path("/Users/mexyz/tasks.db", Some("/Users/me")), "/Users/mexyz/tasks.db");
    assert_eq!(display_path("/tmp/status-test.db", Some("/Users/me")), "/tmp/status-test.db");
    assert_eq!(display_path("/tmp/x", Some("")), "/tmp/x");
    assert_eq!(display_path("/tmp/x", None), "/tmp/x");
    let path = "/Users/me/Library/Application Support/my-task/tasks.db";
    let response = get_status("0.2.0", 0, path, Some("/Users/me"), true, &None);
    assert_eq!(
        response.server.sqlite.path,
        "~/Library/Application Support/my-task/tasks.db"
    );
}
