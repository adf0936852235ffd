//! Command line and configuration.

use my_task_sync::config::{
    default_config_path, join_path, load_file_config, parse_cli_args, resolve, Environment,
    FileConfig,
};
use my_task_sync::error::Error;

fn env() -> Environment {
    Environment {
        api_key: None,
        port: None,
        data_file: None,
        ngrok_domain: None,
        data_dir: Some("/data".into()),
    }
}

fn text(table: &toml::Table, section: &str, key: &str) -> Option<String> {
    let value = table.get(section)?.get(key)?;
    Some(value.as_str().unwrap().to_string())
}

fn file(body: &str) -> FileConfig {
    let table: toml::Table = body.parse().unwrap();
    FileConfig {
        sqlite_path: text(&table, "sqlite", "path"),
        port: table
            .get("server")
            .and_then(|s| s.get("port"))
            .map(|p| p.as_integer().unwrap() as u16),
        api_key: text(&table, "server", "api_key"),
        ngrok_domain: text(&table, "ngrok", "domain"),
    }
}

fn argv(args: &[&str]) -> Vec<String> {
    args.iter().map(|s| s.to_string()).collect()
}

const FULL: &str = r#"
[sqlite]
path = "/custom/tasks.db"

[server]
port    = 4444
api_key = "file-key"
"#;

const KEY_ONLY: &str = r#"
[server]
api_key = "k"
"#;

#[test]
fn resolves_from_toml_file() {
    let resolved = resolve(&env(), &file(FULL)).expect("resolve");
    assert_eq!(resolved.server.api_key, "file-key");
    assert_eq!(resolved.server.port, 4444);
    assert_eq!(resolved.sqlite.path, "/custom/tasks.db");
}

#[test]
fn port_defaults_when_server_port_omitted() {
    let resolved = resolve(&env(), &file(KEY_ONLY)).unwrap();
    assert_eq!(resolved.server.port, 3333);
}

#[test]
fn env_overrides_api_key_and_port() {
    let mut env = env();
    env.api_key = Some("env-key".into());
    env.port = Some("5555".into());
    let resolved = resolve(&env, &file(FULL)).unwrap();
    assert_eq!(resolved.server.api_key, "env-key");
    assert_eq!(resolved.server.port, 5555);
}

#[test]
fn sqlite_path_env_overrides_file_and_default() {
    let mut env = env();
    env.data_file = Some("/tmp/from-env.db".into());
    let resolved = resolve(&env, &file(KEY_ONLY)).unwrap();
    assert_eq!(resolved.sqlite.path, "/tmp/from-env.db");
    let resolved = resolve(&env, &file(FULL)).unwrap();
    assert_eq!(resolved.sqlite.path, "/tmp/from-env.db");
}

#[test]
fn missing_api_key_is_a_config_error() {
    let body = r#"
[sqlite]
path = "/tmp/x.db"

[server]
port = 3333
"#;
    let err = resolve(&env(), &file(body)).expect_err("must fail");
    let msg = err.message().to_lowercase();
    assert!(msg.contains("api_key") || msg.contains("api key"), "got: {msg}");
    assert!(matches!(err, Error::Config(_)));
}

#[test]
fn invalid_port_env_is_rejected() {
    let mut env = env();
    env.port = Some("not-a-port".into());
    let err = resolve(&env, &file(KEY_ONLY)).expect_err("must fail");
    assert!(err.message().to_lowercase().contains("port"));
    assert_eq!(
        err.message(),
        "config error: MY_TASK_SYNC_PORT is not a valid port: invalid digit found in string"
    );
}

#[test]
fn parse_cli_args_captures_config_path() {
    let cli = parse_cli_args(argv(&["my-task-sync", "--config", "/etc/my-task-sync.toml"])).unwrap();
    assert_eq!(cli.config_path.as_deref(), Some("/etc/my-task-sync.toml"));
    assert!(!cli.help);
}

#[test]
fn parse_cli_args_detects_help_flag() {
    let cli = parse_cli_args(argv(&["my-task-sync", "--help"])).unwrap();
    assert!(cli.help);
}

#[test]
fn parse_cli_args_rejects_unknown_flag() {
    let result = parse_cli_args(argv(&["my-task-sync", "--bogus"]));
    assert!(result.is_err(), "unknown flag must be rejected");
    assert_eq!(result.unwrap_err().message(), "config error: unknown CLI flag: --bogus");
}

#[test]
fn parse_cli_args_rejects_deprecated_v1_flags() {
    for flag in ["--once", "--dry-run"] {
        let result = parse_cli_args(argv(&["my-task-sync", flag]));
        assert!(result.is_err(), "{flag} must be rejected (v1 legacy)");
    }
}

#[test]
fn config_takes_the_argument_behind_it() {
    let cli = parse_cli_args(argv(&["p", "--config", "--help", "-h"])).unwrap();
    assert_eq!(cli.config_path.as_deref(), Some("--help"));
    assert!(cli.help);
    let cli = parse_cli_args(argv(&["p", "--config", "a", "--config", "b"])).unwrap();
    assert_eq!(cli.config_path.as_deref(), Some("b"));
    assert!(!cli.help);
    let err = parse_cli_args(argv(&["p", "--config"])).unwrap_err();
    assert_eq!(err.message(), "config error: --config requires a path argument");
    assert!(parse_cli_args(argv(&["p"])).unwrap().config_path.is_none());
    assert!(parse_cli_args(vec![]).unwrap().config_path.is_none());
}

#[test]
fn empty_variables_count_as_absent() {
    let env = Environment {
        api_key: Some("".into()),
        port: Some("".into()),
        data_file: Some("".into()),
        ngrok_domain: Some("".into()),
        data_dir: Some("/data".into()),
    };
    let resolved = resolve(&env, &file(FULL)).unwrap();
    assert_eq!(resolved.server.api_key, "file-key");
    assert_eq!(resolved.server.port, 4444);
    assert_eq!(resolved.sqlite.path, "/custom/tasks.db");
    assert!(resolved.ngrok.domain.is_none());
}

#[test]
fn database_lies_in_the_data_directory_by_default() {
    let resolved = resolve(&env(), &file(KEY_ONLY)).unwrap();
    assert_eq!(resolved.sqlite.path, "/data/my-task/tasks.db");
    let mut nowhere = env();
    nowhere.data_dir = None;
    let err = resolve(&nowhere, &file(KEY_ONLY)).unwrap_err();
    assert_eq!(
        err.message(),
        "config error: data_dir is not available on this platform; set MY_TASK_DATA_FILE explicitly"
    );
}

#[test]
fn ngrok_domain_comes_from_env_or_file() {
    let body = "[server]\napi_key = \"k\"\n[ngrok]\ndomain = \"file.ngrok-free.dev\"\n";
    let resolved = resolve(&env(), &file(body)).unwrap();
    assert_eq!(resolved.ngrok.domain.as_deref(), Some("file.ngrok-free.dev"));
    let mut over = env();
    over.ngrok_domain = Some("env.ngrok-free.dev".into());
    let resolved = resolve(&over, &file(body)).unwrap();
    assert_eq!(resolved.ngrok.domain.as_deref(), Some("env.ngrok-free.dev"));
    let empty = "[server]\napi_key = \"k\"\n[ngrok]\ndomain = \"\"\n";
    assert!(resolve(&env(), &file(empty)).unwrap().ngrok.domain.is_none());
}

#[test]
fn ports_are_read_as_documented() {
    let with = |port: &str| {
        let mut env = env();
        env.port = Some(port.to_string());
        resolve(&env, &file(KEY_ONLY)).map(|c| c.server.port)
    };
    assert_eq!(with("65535").unwrap(), 65535);
    assert_eq!(with("0").unwrap(), 0);
    assert_eq!(with("+080").unwrap(), 80);
    assert_eq!(
        with("65536").unwrap_err().message(),
        "config error: MY_TASK_SYNC_PORT is not a valid port: number too large to fit in target type"
    );
    assert!(with("-1").is_err());
    assert!(with("+").is_err());
    assert!(with(" 80").is_err());
    assert!(with("8_0").is_err());
}

#[test]
fn config_file_is_looked_for_below_home() {
    assert_eq!(
        default_config_path(Some("/home/me")).as_deref(),
        Some("/home/me/.config/my-task-sync/config.toml")
    );
    assert_eq!(
        default_config_path(Some("/home/me/")).as_deref(),
        Some("/home/me/.config/my-task-sync/config.toml")
    );
    assert!(default_config_path(None).is_none());
    assert_eq!(join_path("", "x"), "x");
}

#[test]
fn explicit_config_file_goes_first() {
    let own = |s: &str| Some(s.to_string());
    assert_eq!(load_file_config(own("a"), own("b"), true), own("a"));
    assert_eq!(load_file_config(own("a"), None, false), own("a"));
    assert_eq!(load_file_config(None, own("b"), true), own("b"));
    assert_eq!(load_file_config(None, own("b"), false), None);
    assert_eq!(load_file_config(None, None, false), None);
}
