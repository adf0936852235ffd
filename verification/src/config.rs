//! Configuration: a TOML file, overridden by the environment.

use vstd::prelude::*;

use crate::error::{Error, ErrorView};
use crate::sql::{opt_view, result_view, views};
use crate::text::{decimal, decimal_int, digit, join, join3, str_eq};

verus! {

/// The port where the configuration sets none.
pub const DEFAULT_PORT: u16 = 3333;

// ------------------------------------------------------------------
// Command line
// ------------------------------------------------------------------

/// What the command line asks for.
#[derive(Debug, Clone)]
pub struct Cli {
    pub config_path: Option<String>,
    pub help: bool,
}

/// The model of a [`Cli`].
pub struct CliView {
    pub config_path: Option<Seq<char>>,
    pub help: bool,
}

impl View for Cli {
    type V = CliView;

    open spec fn view(&self) -> CliView {
        CliView { config_path: opt_view(self.config_path), help: self.help }
    }
}

impl Default for Cli {
    fn default() -> (r: Cli)
        ensures
            r@ == (CliView { config_path: None, help: false }),
    {
        Cli { config_path: None, help: false }
    }
}

/// What the arguments add to what was read before them. `--config` takes the
/// argument behind it, whatever that is. Nothing unknown is accepted.
pub open spec fn cli_of(args: Seq<Seq<char>>, before: CliView) -> Result<CliView, ErrorView>
    decreases args.len(),
{
    if args.len() == 0 {
        Ok(before)
    } else if args[0] == "--help"@ || args[0] == "-h"@ {
        cli_of(args.skip(1), CliView { help: true, ..before })
    } else if args[0] == "--config"@ {
        if args.len() == 1 {
            Err(ErrorView::Config("--config requires a path argument"@))
        } else {
            cli_of(args.skip(2), CliView { config_path: Some(args[1]), ..before })
        }
    } else {
        Err(ErrorView::Config("unknown CLI flag: "@ + args[0]))
    }
}

/// The arguments behind the name of the program.
pub open spec fn behind_program(args: Seq<Seq<char>>) -> Seq<Seq<char>> {
    if args.len() == 0 {
        args
    } else {
        args.skip(1)
    }
}

/// Reads the command line. The first argument is the name of the program.
pub fn parse_cli_args(args: Vec<String>) -> (r: Result<Cli, Error>)
    ensures
        result_view(r) == cli_of(
            behind_program(views(args@)),
            CliView { config_path: None, help: false },
        ),
{
    let ghost all = views(args@);
    let mut cli = Cli::default();
    if args.len() == 0 {
        return Ok(cli);
    }
    let mut i: usize = 1;
    while i < args.len()
        invariant
            1 <= i <= args.len(),
            all == views(args@),
            cli_of(all.skip(1), CliView { config_path: None, help: false }) == cli_of(
                all.skip(i as int),
                cli@,
            ),
        decreases args.len() - i,
    {
        let ghost rest = all.skip(i as int);
        assert(rest[0] == args@[i as int]@);
        if str_eq(args[i].as_str(), "--help") || str_eq(args[i].as_str(), "-h") {
            assert(rest.skip(1) =~= all.skip(i + 1));
            cli.help = true;
            i = i + 1;
        } else if str_eq(args[i].as_str(), "--config") {
            if i + 1 >= args.len() {
                return Err(Error::Config("--config requires a path argument".to_owned()));
            }
            assert(rest[1] == args@[i + 1]@);
            assert(rest.skip(2) =~= all.skip(i + 2));
            cli.config_path = Some(args[i + 1].clone());
            i = i + 2;
        } else {
            return Err(Error::Config(join("unknown CLI flag: ", args[i].as_str())));
        }
    }
    Ok(cli)
}

// ------------------------------------------------------------------
// What is configured
// ------------------------------------------------------------------

/// The configuration after all sources were read.
#[derive(Debug, Clone)]
pub struct ResolvedConfig {
    pub sqlite: SqliteConfig,
    pub server: ServerConfig,
    pub ngrok: NgrokConfig,
}

/// Where the database is.
#[derive(Debug, Clone)]
pub struct SqliteConfig {
    pub path: String,
}

/// How the server is reached.
#[derive(Debug, Clone)]
pub struct ServerConfig {
    pub port: u16,
    pub api_key: String,
}

/// Under which domain ngrok makes the server public, if it does.
#[derive(Debug, Clone)]
pub struct NgrokConfig {
    pub domain: Option<String>,
}

/// The model of a [`ResolvedConfig`].
pub struct ConfigView {
    pub sqlite_path: Seq<char>,
    pub port: u16,
    pub api_key: Seq<char>,
    pub ngrok_domain: Option<Seq<char>>,
}

impl View for ResolvedConfig {
    type V = ConfigView;

    open spec fn view(&self) -> ConfigView {
        ConfigView {
            sqlite_path: self.sqlite.path@,
            port: self.server.port,
            api_key: self.server.api_key@,
            ngrok_domain: opt_view(self.ngrok.domain),
        }
    }
}

/// The contents of the configuration file.
#[derive(Debug, Clone)]
pub struct FileConfig {
    pub sqlite_path: Option<String>,
    pub port: Option<u16>,
    pub api_key: Option<String>,
    pub ngrok_domain: Option<String>,
}

impl Default for FileConfig {
    fn default() -> (r: FileConfig)
        ensures
            r.sqlite_path is None,
            r.port is None,
            r.api_key is None,
            r.ngrok_domain is None,
    {
        FileConfig { sqlite_path: None, port: None, api_key: None, ngrok_domain: None }
    }
}

/// What the environment says: the variables that override the file, and the
/// directory for data. A variable that is not text counts as absent.
#[derive(Debug, Clone)]
pub struct Environment {
    /// `MY_TASK_SYNC_API_KEY`.
    pub api_key: Option<String>,
    /// `MY_TASK_SYNC_PORT`.
    pub port: Option<String>,
    /// `MY_TASK_DATA_FILE`.
    pub data_file: Option<String>,
    /// `MY_TASK_SYNC_NGROK_DOMAIN`.
    pub ngrok_domain: Option<String>,
    pub data_dir: Option<String>,
}

// ------------------------------------------------------------------
// Resolution
// ------------------------------------------------------------------

/// A value that is present and not empty.
pub open spec fn filled(value: Option<Seq<char>>) -> Option<Seq<char>> {
    match value {
        Some(s) => if s.len() > 0 {
            Some(s)
        } else {
            None
        },
        None => None,
    }
}

fn filled_text(value: &Option<String>) -> (r: Option<String>)
    ensures
        opt_view(r) == filled(opt_view(*value)),
{
    match value {
        Some(s) => if s.as_str().unicode_len() > 0 {
            Some(s.clone())
        } else {
            None
        },
        None => None,
    }
}

/// `part` below the directory `base`.
pub open spec fn joined(base: Seq<char>, part: Seq<char>) -> Seq<char> {
    if base.len() == 0 {
        part
    } else if base.last() == '/' {
        base + part
    } else {
        base + "/"@ + part
    }
}

/// `part` below the directory `base`. `part` is relative.
pub fn join_path(base: &str, part: &str) -> (r: String)
    ensures
        r@ == joined(base@, part@),
{
    let n: usize = base.unicode_len();
    if n == 0 {
        part.to_owned()
    } else if base.get_char(n - 1) == '/' {
        join(base, part)
    } else {
        join3(base, "/", part)
    }
}

/// Where the configuration file is looked for: below the home directory.
pub open spec fn default_config(home: Option<Seq<char>>) -> Option<Seq<char>> {
    match home {
        Some(home) => Some(
            joined(joined(joined(home, ".config"@), "my-task-sync"@), "config.toml"@),
        ),
        None => None,
    }
}

/// Where the configuration file is looked for: below the home directory.
pub fn default_config_path(home: Option<&str>) -> (r: Option<String>)
    ensures
        opt_view(r) == default_config(opt_view(home)),
{
    match home {
        Some(home) => {
            let config = join_path(home, ".config");
            let dir = join_path(config.as_str(), "my-task-sync");
            Some(join_path(dir.as_str(), "config.toml"))
        },
        None => None,
    }
}

/// The file that is read, if any: the one that was asked for, which must
/// exist, or the one in the usual place, if it exists.
pub open spec fn config_source(
    explicit: Option<Seq<char>>,
    default: Option<Seq<char>>,
    default_exists: bool,
) -> Option<Seq<char>> {
    match explicit {
        Some(path) => Some(path),
        None => if default_exists {
            default
        } else {
            None
        },
    }
}

/// The configuration file to read, if any.
pub fn load_file_config(
    explicit: Option<String>,
    default: Option<String>,
    default_exists: bool,
) -> (r: Option<String>)
    ensures
        opt_view(r) == config_source(opt_view(explicit), opt_view(default), default_exists),
{
    match explicit {
        Some(path) => Some(path),
        None => if default_exists {
            default
        } else {
            None
        },
    }
}

/// Where the database is: by the environment, by the file, or in the directory
/// for data.
pub open spec fn sqlite_path(
    data_file: Option<Seq<char>>,
    file_path: Option<Seq<char>>,
    data_dir: Option<Seq<char>>,
) -> Result<Seq<char>, ErrorView> {
    match filled(data_file) {
        Some(path) => Ok(path),
        None => match filled(file_path) {
            Some(path) => Ok(path),
            None => match data_dir {
                Some(dir) => Ok(joined(joined(dir, "my-task"@), "tasks.db"@)),
                None => Err(
                    ErrorView::Config(
                        "data_dir is not available on this platform; set MY_TASK_DATA_FILE explicitly"@,
                    ),
                ),
            },
        },
    }
}

fn resolve_sqlite_path(
    data_file: &Option<String>,
    file_path: &Option<String>,
    data_dir: &Option<String>,
) -> (r: Result<String, Error>)
    ensures
        result_view(r) == sqlite_path(
            opt_view(*data_file),
            opt_view(*file_path),
            opt_view(*data_dir),
        ),
{
    if let Some(path) = filled_text(data_file) {
        return Ok(path);
    }
    if let Some(path) = filled_text(file_path) {
        return Ok(path);
    }
    match data_dir {
        Some(dir) => {
            let below = join_path(dir.as_str(), "my-task");
            Ok(join_path(below.as_str(), "tasks.db"))
        },
        None => Err(
            Error::Config(
                "data_dir is not available on this platform; set MY_TASK_DATA_FILE explicitly".to_owned(),
            ),
        ),
    }
}

/// A decimal digit.
pub open spec fn is_digit(c: char) -> bool {
    '0' <= c <= '9'
}

/// The digits of a number, without a plus sign in front.
pub open spec fn digits_of(text: Seq<char>) -> Seq<char> {
    if text.len() > 0 && text[0] == '+' {
        text.skip(1)
    } else {
        text
    }
}

/// The number that digits show.
pub open spec fn number_of(digits: Seq<char>) -> nat
    decreases digits.len(),
{
    if digits.len() == 0 {
        0
    } else {
        number_of(digits.drop_last()) * 10 + (digits.last() as nat - '0' as nat) as nat
    }
}

/// The port that a text shows: an optional plus sign and digits, of no more
/// than 65535.
pub open spec fn port_of(text: Seq<char>) -> Option<u16> {
    let digits = digits_of(text);
    if digits.len() > 0 && (forall|i: int| 0 <= i < digits.len() ==> is_digit(#[trigger] digits[i]))
        && number_of(digits) <= 65535 {
        Some(number_of(digits) as u16)
    } else {
        None
    }
}

/// The words of `std::num::ParseIntError` for a text that `str::parse` does
/// not take as a number of 16 bits.
pub uninterp spec fn port_error(text: Seq<char>) -> Seq<char>;

/// Calls `str::parse::<u16>`: an optional plus sign followed by digits is
/// taken where the number fits. The words of the error are named by
/// [`port_error`].
#[verifier::external_body]
fn std_parse_u16(text: &str) -> (r: Result<u16, String>)
    ensures
        match r {
            Ok(n) => port_of(text@) == Some(n),
            Err(e) => port_of(text@) is None && e@ == port_error(text@),
        },
{
    text.parse::<u16>().map_err(|e| e.to_string())
}

/// The port: by the environment, by the file, or the usual one.
pub open spec fn port(variable: Option<Seq<char>>, file_port: Option<u16>) -> Result<
    u16,
    ErrorView,
> {
    match filled(variable) {
        Some(text) => match port_of(text) {
            Some(n) => Ok(n),
            None => Err(
                ErrorView::Config("MY_TASK_SYNC_PORT is not a valid port: "@ + port_error(text)),
            ),
        },
        None => match file_port {
            Some(n) => Ok(n),
            None => Ok(DEFAULT_PORT),
        },
    }
}

fn resolve_port(variable: &Option<String>, file_port: Option<u16>) -> (r: Result<u16, Error>)
    ensures
        result_view(r) == port(opt_view(*variable), file_port),
{
    match filled_text(variable) {
        Some(text) => match std_parse_u16(text.as_str()) {
            Ok(n) => Ok(n),
            Err(e) => Err(
                Error::Config(join("MY_TASK_SYNC_PORT is not a valid port: ", e.as_str())),
            ),
        },
        None => match file_port {
            Some(n) => Ok(n),
            None => Ok(DEFAULT_PORT),
        },
    }
}

/// The key: by the environment, or by the file. There is none by default.
pub open spec fn api_key(variable: Option<Seq<char>>, file_key: Option<Seq<char>>) -> Result<
    Seq<char>,
    ErrorView,
> {
    match filled(variable) {
        Some(key) => Ok(key),
        None => match file_key {
            Some(key) => Ok(key),
            None => Err(
                ErrorView::Config(
                    "api_key is not set (provide [server].api_key in config or MY_TASK_SYNC_API_KEY env)"@,
                ),
            ),
        },
    }
}

/// The domain of ngrok: by the environment, or by the file. An empty one
/// switches it off.
pub open spec fn ngrok_domain(variable: Option<Seq<char>>, file_domain: Option<Seq<char>>) -> Option<
    Seq<char>,
> {
    match filled(variable) {
        Some(domain) => Some(domain),
        None => filled(file_domain),
    }
}

/// The configuration that the environment and the file amount to.
pub open spec fn resolved(env: Environment, file: FileConfig) -> Result<ConfigView, ErrorView> {
    match api_key(opt_view(env.api_key), opt_view(file.api_key)) {
        Err(e) => Err(e),
        Ok(key) => match port(opt_view(env.port), file.port) {
            Err(e) => Err(e),
            Ok(n) => match sqlite_path(
                opt_view(env.data_file),
                opt_view(file.sqlite_path),
                opt_view(env.data_dir),
            ) {
                Err(e) => Err(e),
                Ok(path) => Ok(
                    ConfigView {
                        sqlite_path: path,
                        port: n,
                        api_key: key,
                        ngrok_domain: ngrok_domain(
                            opt_view(env.ngrok_domain),
                            opt_view(file.ngrok_domain),
                        ),
                    },
                ),
            },
        },
    }
}

/// Puts the configuration together. The environment goes before the file, and
/// a missing key is an error.
pub fn resolve(env: &Environment, file: &FileConfig) -> (r: Result<ResolvedConfig, Error>)
    ensures
        result_view(r) == resolved(*env, *file),
{
    let key = match filled_text(&env.api_key) {
        Some(key) => key,
        None => match &file.api_key {
            Some(key) => key.clone(),
            None => return Err(
                Error::Config(
                    "api_key is not set (provide [server].api_key in config or MY_TASK_SYNC_API_KEY env)".to_owned(),
                ),
            ),
        },
    };
    let port: u16 = match resolve_port(&env.port, file.port) {
        Ok(n) => n,
        Err(e) => return Err(e),
    };
    let path = match resolve_sqlite_path(&env.data_file, &file.sqlite_path, &env.data_dir) {
        Ok(path) => path,
        Err(e) => return Err(e),
    };
    let domain = match filled_text(&env.ngrok_domain) {
        Some(domain) => Some(domain),
        None => filled_text(&file.ngrok_domain),
    };
    Ok(
        ResolvedConfig {
            sqlite: SqliteConfig { path },
            server: ServerConfig { port, api_key: key },
            ngrok: NgrokConfig { domain },
        },
    )
}

/// A variable that is set and not empty decides, whatever the file says.
pub proof fn law_environment_overrides_file(env: Environment, file: FileConfig)
    ensures
        resolved(env, file) matches Ok(config) ==> {
            &&& filled(opt_view(env.api_key)) matches Some(key) ==> config.api_key == key
            &&& filled(opt_view(env.port)) matches Some(text) ==> port_of(text) == Some(
                config.port,
            )
            &&& filled(opt_view(env.data_file)) matches Some(path) ==> config.sqlite_path == path
            &&& filled(opt_view(env.ngrok_domain)) matches Some(domain) ==> config.ngrok_domain
                == Some(domain)
        },
{
}

/// Without a key there is no configuration.
pub proof fn law_no_key_no_configuration(env: Environment, file: FileConfig)
    requires
        filled(opt_view(env.api_key)) is None,
        file.api_key is None,
    ensures
        resolved(env, file) matches Err(e) && e is Config,
{
}

/// A command line that is accepted holds nothing but known flags and the paths
/// behind `--config`.
pub proof fn law_accepted_arguments_are_known(args: Seq<Seq<char>>, before: CliView, i: int)
    requires
        cli_of(args, before) is Ok,
        0 <= i < args.len(),
    ensures
        ({
            ||| args[i] == "--help"@
            ||| args[i] == "-h"@
            ||| args[i] == "--config"@ && i + 1 < args.len()
            ||| i > 0 && args[i - 1] == "--config"@
        }),
    decreases args.len(),
{
    if args[0] == "--help"@ || args[0] == "-h"@ {
        if i > 0 {
            assert(args.skip(1)[i - 1] == args[i]);
            law_accepted_arguments_are_known(
                args.skip(1),
                CliView { help: true, ..before },
                i - 1,
            );
            if i > 1 {
                assert(args.skip(1)[i - 2] == args[i - 1]);
            }
        }
    } else {
        if i > 1 {
            assert(args.skip(2)[i - 2] == args[i]);
            law_accepted_arguments_are_known(
                args.skip(2),
                CliView { config_path: Some(args[1]), ..before },
                i - 2,
            );
            if i > 2 {
                assert(args.skip(2)[i - 3] == args[i - 1]);
            }
        }
    }
}

/// Every error of the command line is one of configuration.
pub proof fn law_refused_arguments_are_config_errors(args: Seq<Seq<char>>, before: CliView)
    ensures
        cli_of(args, before) matches Err(e) ==> e is Config,
    decreases args.len(),
{
    if args.len() > 0 && (args[0] == "--help"@ || args[0] == "-h"@) {
        law_refused_arguments_are_config_errors(args.skip(1), CliView { help: true, ..before });
    } else if args.len() > 1 && args[0] == "--config"@ {
        law_refused_arguments_are_config_errors(
            args.skip(2),
            CliView { config_path: Some(args[1]), ..before },
        );
    }
}

/// What a command line says is what its first part says, changed by what the
/// rest says. A part that is refused for an unknown flag is refused with
/// whatever stands behind it.
pub proof fn law_arguments_compose(a: Seq<Seq<char>>, b: Seq<Seq<char>>, before: CliView)
    ensures
        cli_of(a, before) matches Ok(cli) ==> cli_of(a + b, before) == cli_of(b, cli),
        cli_of(a, before) matches Err(e) ==> a.last() == "--config"@ || cli_of(a + b, before)
            == Err::<CliView, ErrorView>(e),
    decreases a.len(),
{
    if a.len() == 0 {
        assert(a + b =~= b);
    } else if a[0] == "--help"@ || a[0] == "-h"@ {
        assert((a + b).skip(1) =~= a.skip(1) + b);
        if a.len() > 1 {
            assert(a.skip(1).last() == a.last());
        }
        law_arguments_compose(a.skip(1), b, CliView { help: true, ..before });
    } else if a[0] == "--config"@ && a.len() > 1 {
        assert((a + b).skip(2) =~= a.skip(2) + b);
        if a.len() > 2 {
            assert(a.skip(2).last() == a.last());
        }
        law_arguments_compose(a.skip(2), b, CliView { config_path: Some(a[1]), ..before });
    }
}

/// No argument says nothing. A flag for help asks for it and leaves the path, and
/// a flag with a path sets it and leaves the rest. A path is missing behind a
/// flag at the end, and any other argument is an unknown flag.
pub proof fn law_single_arguments(arg: Seq<char>, path: Seq<char>, before: CliView)
    ensures
        cli_of(seq![], before) == Ok::<CliView, ErrorView>(before),
        cli_of(seq!["--help"@], before) matches Ok(cli) && cli.help && cli.config_path
            == before.config_path,
        cli_of(seq!["-h"@], before) matches Ok(cli) && cli.help && cli.config_path
            == before.config_path,
        cli_of(seq!["--config"@, path], before) matches Ok(cli) && cli.help == before.help
            && cli.config_path == Some(path),
        cli_of(seq!["--config"@], before) == Err::<CliView, ErrorView>(
            ErrorView::Config("--config requires a path argument"@),
        ),
        arg != "--help"@ && arg != "-h"@ && arg != "--config"@ ==> cli_of(seq![arg], before) == Err::<
            CliView,
            ErrorView,
        >(ErrorView::Config("unknown CLI flag: "@ + arg)),
{
    reveal_strlit("--help");
    reveal_strlit("-h");
    reveal_strlit("--config");
    assert("--help"@.len() == 6 && "-h"@.len() == 2 && "--config"@.len() == 8);
    assert(seq!["--help"@].skip(1) =~= seq![]);
    assert(seq!["-h"@].skip(1) =~= seq![]);
    assert(seq!["--config"@, path].skip(2) =~= seq![]);
    reveal_with_fuel(cli_of, 2);
}

/// The name of the program says nothing.
pub proof fn law_program_name_says_nothing(program: Seq<char>, rest: Seq<Seq<char>>)
    ensures
        behind_program(seq![program] + rest) == rest,
{
    assert(behind_program(seq![program] + rest) =~= rest);
}

/// Whether a text is present and not empty.
pub open spec fn present(value: Option<String>) -> bool {
    value is Some && (value->0)@.len() > 0
}

/// Each setting is that of the environment where it is present there, else that
/// of the file, else the usual one. An empty path or domain in the file counts
/// as absent.
pub proof fn law_each_setting_has_its_source(env: Environment, file: FileConfig)
    ensures
        resolved(env, file) matches Ok(config) ==> {
            &&& if present(env.api_key) {
                config.api_key == (env.api_key->0)@
            } else {
                file.api_key is Some && config.api_key == (file.api_key->0)@
            }
            &&& if present(env.port) {
                port_of((env.port->0)@) == Some(config.port)
            } else {
                config.port == file.port.unwrap_or(3333)
            }
            &&& if present(env.data_file) {
                config.sqlite_path == (env.data_file->0)@
            } else if present(file.sqlite_path) {
                config.sqlite_path == (file.sqlite_path->0)@
            } else {
                env.data_dir is Some && config.sqlite_path == joined(
                    joined((env.data_dir->0)@, "my-task"@),
                    "tasks.db"@,
                )
            }
            &&& if present(env.ngrok_domain) {
                config.ngrok_domain == Some((env.ngrok_domain->0)@)
            } else if present(file.ngrok_domain) {
                config.ngrok_domain == Some((file.ngrok_domain->0)@)
            } else {
                config.ngrok_domain is None
            }
        },
{
}

/// There is a configuration exactly where there is a key, the port of the
/// environment can be read if it is present, and there is a place for the
/// database. Otherwise the error is one of the configuration.
pub proof fn law_when_there_is_a_configuration(env: Environment, file: FileConfig)
    ensures
        resolved(env, file) is Ok <==> {
            &&& present(env.api_key) || file.api_key is Some
            &&& present(env.port) ==> port_of((env.port->0)@) is Some
            &&& present(env.data_file) || present(file.sqlite_path) || env.data_dir is Some
        },
        resolved(env, file) matches Err(e) ==> e is Config,
{
}

/// A path below a directory begins with the directory, ends with the part, and
/// has one slash between them.
pub proof fn law_joined_paths(base: Seq<char>, part: Seq<char>)
    requires
        base.len() > 0,
    ensures
        ({
            let path = joined(base, part);
            let slash = if base.last() == '/' {
                base.len() - 1
            } else {
                base.len() as int
            };
            &&& path.len() == slash + 1 + part.len()
            &&& path.take(base.len() as int) == base
            &&& path[slash] == '/'
            &&& path.skip(slash + 1) == part
        }),
        joined(seq![], part) == part,
{
    reveal_strlit("/");
    let path = joined(base, part);
    let slash = if base.last() == '/' {
        base.len() - 1
    } else {
        base.len() as int
    };
    assert(path.take(base.len() as int) =~= base);
    assert(path.skip(slash + 1) =~= part);
}

/// The usual place of the configuration file is below the home directory.
pub proof fn law_usual_place_of_the_file(home: Seq<char>)
    requires
        home.len() > 0,
        home.last() != '/',
    ensures
        default_config(Some(home)) == Some(home + "/.config/my-task-sync/config.toml"@),
        default_config(None) is None,
{
    reveal_strlit("/");
    reveal_strlit(".config");
    reveal_strlit("my-task-sync");
    reveal_strlit("config.toml");
    reveal_strlit("/.config/my-task-sync/config.toml");
    let a = joined(home, ".config"@);
    assert(a.last() == 'g');
    let b = joined(a, "my-task-sync"@);
    assert(b.last() == 'c');
    assert(joined(b, "config.toml"@) =~= home + "/.config/my-task-sync/config.toml"@);
}

/// The usual place of the database is below the directory for data.
pub proof fn law_usual_place_of_the_database(env: Environment, file: FileConfig)
    requires
        !present(env.data_file),
        !present(file.sqlite_path),
        env.data_dir is Some,
        present(env.data_dir),
        (env.data_dir->0)@.last() != '/',
    ensures
        resolved(env, file) matches Ok(config) ==> config.sqlite_path == (env.data_dir->0)@
            + "/my-task/tasks.db"@,
{
    reveal_strlit("/");
    reveal_strlit("my-task");
    reveal_strlit("tasks.db");
    reveal_strlit("/my-task/tasks.db");
    let dir = (env.data_dir->0)@;
    let a = joined(dir, "my-task"@);
    assert(a.last() == 'k');
    assert(joined(a, "tasks.db"@) =~= dir + "/my-task/tasks.db"@);
}

/// A file that was asked for is the one that is read, whether or not it exists.
/// Otherwise it is the one in the usual place, if that exists.
pub proof fn law_which_file_is_read(
    explicit: Option<Seq<char>>,
    default: Option<Seq<char>>,
    default_exists: bool,
)
    ensures
        explicit is Some ==> config_source(explicit, default, default_exists) == explicit,
        explicit is None && default_exists ==> config_source(explicit, default, default_exists)
            == default,
        explicit is None && !default_exists ==> config_source(
            explicit,
            default,
            default_exists,
        ) is None,
{
}

/// A number in decimal notation shows the number, in digits, without a zero in
/// front.
pub proof fn law_decimal_shows_the_number(n: nat)
    ensures
        number_of(decimal(n)) == n,
        decimal(n).len() > 0,
        forall|i: int| 0 <= i < decimal(n).len() ==> is_digit(#[trigger] decimal(n)[i]),
        n > 0 ==> decimal(n)[0] != '0',
    decreases n,
{
    reveal_with_fuel(number_of, 2);
    if n < 10 {
        assert(decimal(n) =~= seq![digit(n)]);
        assert(decimal(n).drop_last() =~= seq![]);
    } else {
        law_decimal_shows_the_number(n / 10);
        assert(decimal(n).drop_last() =~= decimal(n / 10));
    }
}

/// A negative number has a sign in front of its digits, and no other has one.
pub proof fn law_signs_of_integers(n: int)
    ensures
        n < 0 ==> decimal_int(n)[0] == '-' && number_of(decimal_int(n).skip(1)) == -n,
        n >= 0 ==> decimal_int(n)[0] != '-' && number_of(decimal_int(n)) == n,
{
    if n < 0 {
        law_decimal_shows_the_number((-n) as nat);
        assert(decimal_int(n).skip(1) =~= decimal((-n) as nat));
    } else {
        law_decimal_shows_the_number(n as nat);
        assert(is_digit(decimal(n as nat)[0]));
    }
}

/// Every port is read from its decimal notation.
pub proof fn law_ports_are_read(n: u16)
    ensures
        port_of(decimal(n as nat)) == Some(n),
{
    law_decimal_shows_the_number(n as nat);
    assert(is_digit(decimal(n as nat)[0]));
}

} // verus!
