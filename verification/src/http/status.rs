//! The handler of `/api/status`.
//!
//! It answers whatever happens: that the database or ngrok cannot be reached
//! is part of the answer.

use vstd::prelude::*;

use crate::json::{
    deref, field, field_of, first_of, get_in, number_text_of, text_of, unsigned_of, Json,
};
use crate::session::{continues, fetched_row, group_transcript, Session, Transcript};
use crate::sql::opt_view;
use crate::sqlite::{params0, plain};
use crate::statement::Statement;
use crate::tables::{faithful, follows, tells_failure, History};
use crate::text::{has_prefix, join, strip_prefix};

verus! {

broadcast use group_transcript;

/// How long the admin API of ngrok may take, in seconds.
pub const NGROK_ADMIN_TIMEOUT_SECS: u64 = 2;

/// The address of the admin API of ngrok.
pub const NGROK_ADMIN_URL: &'static str = "http://localhost:4040/api/tunnels";

// ------------------------------------------------------------------
// The answer
// ------------------------------------------------------------------

/// The answer to `GET /api/status`.
#[derive(Debug, Clone)]
pub struct StatusResponse {
    pub server: ServerStatus,
    pub ngrok: NgrokStatus,
}

/// The state of the server.
#[derive(Debug, Clone)]
pub struct ServerStatus {
    pub version: String,
    pub uptime_seconds: u64,
    pub sqlite: SqliteStatus,
}

/// The state of the database.
#[derive(Debug, Clone)]
pub struct SqliteStatus {
    pub path: String,
    pub ok: bool,
}

/// The state of ngrok: switched off, out of reach, or up. Only what is known
/// in a state is present.
#[derive(Debug, Clone)]
pub struct NgrokStatus {
    pub enabled: bool,
    pub reachable: Option<bool>,
    pub error: Option<String>,
    pub public_url: Option<String>,
    pub forwarding_to: Option<String>,
    pub http_requests_total: Option<u64>,
    /// The rate of the last minute as ngrok gives it: requests in a second, in
    /// the notation of JSON.
    pub http_requests_per_second: Option<String>,
    pub connections_total: Option<u64>,
}

/// The model of a [`NgrokStatus`].
pub struct NgrokView {
    pub enabled: bool,
    pub reachable: Option<bool>,
    pub error: Option<Seq<char>>,
    pub public_url: Option<Seq<char>>,
    pub forwarding_to: Option<Seq<char>>,
    pub http_requests_total: Option<u64>,
    pub http_requests_per_second: Option<Seq<char>>,
    pub connections_total: Option<u64>,
}

impl View for NgrokStatus {
    type V = NgrokView;

    open spec fn view(&self) -> NgrokView {
        NgrokView {
            enabled: self.enabled,
            reachable: self.reachable,
            error: opt_view(self.error),
            public_url: opt_view(self.public_url),
            forwarding_to: opt_view(self.forwarding_to),
            http_requests_total: self.http_requests_total,
            http_requests_per_second: opt_view(self.http_requests_per_second),
            connections_total: self.connections_total,
        }
    }
}

/// ngrok switched off.
pub open spec fn ngrok_off() -> NgrokView {
    NgrokView {
        enabled: false,
        reachable: None,
        error: None,
        public_url: None,
        forwarding_to: None,
        http_requests_total: None,
        http_requests_per_second: None,
        connections_total: None,
    }
}

impl Default for NgrokStatus {
    fn default() -> (r: NgrokStatus)
        ensures
            r@ == ngrok_off(),
    {
        NgrokStatus {
            enabled: false,
            reachable: None,
            error: None,
            public_url: None,
            forwarding_to: None,
            http_requests_total: None,
            http_requests_per_second: None,
            connections_total: None,
        }
    }
}

// ------------------------------------------------------------------
// ngrok
// ------------------------------------------------------------------

/// What the admin API of ngrok was found to answer.
#[derive(Debug)]
pub enum AdminReply {
    /// The client could not be built.
    NoClient(String),
    /// There was no answer.
    NoAnswer(String),
    /// The answer has a status outside 2xx.
    BadStatus(String),
    /// The body is no JSON.
    BadBody(String),
    /// The list of tunnels.
    Tunnels(Json),
}

/// The state of ngrok by the list of its tunnels, of which the first counts.
/// What is missing or has another shape is left out.
pub open spec fn tunnel_status(v: Json) -> NgrokView {
    let tunnel = first_of(field_of(Some(v), "tunnels"@));
    let metrics = field_of(tunnel, "metrics"@);
    let http = field_of(metrics, "http"@);
    let conns = field_of(metrics, "conns"@);
    NgrokView {
        enabled: true,
        reachable: Some(true),
        error: None,
        public_url: text_of(field_of(tunnel, "public_url"@)),
        forwarding_to: text_of(field_of(field_of(tunnel, "config"@), "addr"@)),
        http_requests_total: unsigned_of(field_of(http, "count"@)),
        http_requests_per_second: number_text_of(field_of(http, "rate1"@)),
        connections_total: unsigned_of(field_of(conns, "count"@)),
    }
}

fn first_item<'a>(value: Option<&'a Json>) -> (r: Option<&'a Json>)
    ensures
        deref(r) == first_of(deref(value)),
{
    match value {
        Some(Json::Array(items)) => if items.len() > 0 {
            Some(&items[0])
        } else {
            None
        },
        _ => None,
    }
}

fn own_text(value: Option<&Json>) -> (r: Option<String>)
    ensures
        opt_view(r) == text_of(deref(value)),
{
    match value {
        Some(Json::Text(s)) => Some(s.clone()),
        _ => None,
    }
}

fn own_unsigned(value: Option<&Json>) -> (r: Option<u64>)
    ensures
        r == unsigned_of(deref(value)),
{
    match value {
        Some(Json::Number(n)) => n.unsigned,
        _ => None,
    }
}

fn own_number_text(value: Option<&Json>) -> (r: Option<String>)
    ensures
        opt_view(r) == number_text_of(deref(value)),
{
    match value {
        Some(Json::Number(n)) => Some(n.text.clone()),
        _ => None,
    }
}

/// Reads the state of ngrok from the list of its tunnels.
pub fn parse_tunnel_status(v: &Json) -> (r: NgrokStatus)
    ensures
        r@ == tunnel_status(*v),
{
    let tunnel = first_item(get_in(Some(v), "tunnels"));
    let public_url = own_text(get_in(tunnel, "public_url"));
    let forwarding_to = own_text(get_in(get_in(tunnel, "config"), "addr"));
    let metrics = get_in(tunnel, "metrics");
    let http_metrics = get_in(metrics, "http");
    let conns_metrics = get_in(metrics, "conns");
    let http_requests_total = own_unsigned(get_in(http_metrics, "count"));
    let http_requests_per_second = own_number_text(get_in(http_metrics, "rate1"));
    let connections_total = own_unsigned(get_in(conns_metrics, "count"));
    NgrokStatus {
        enabled: true,
        reachable: Some(true),
        error: None,
        public_url,
        forwarding_to,
        http_requests_total,
        http_requests_per_second,
        connections_total,
    }
}

/// ngrok out of reach.
pub open spec fn ngrok_unreachable(error: Seq<char>) -> NgrokView {
    NgrokView { enabled: true, reachable: Some(false), error: Some(error), ..ngrok_off() }
}

/// The state of ngrok by what its admin API answered. There is no answer where
/// no domain is configured.
pub open spec fn ngrok_status(reply: Option<AdminReply>) -> NgrokView {
    match reply {
        None => ngrok_off(),
        Some(AdminReply::NoClient(e)) => ngrok_unreachable("reqwest client build failed: "@ + e@),
        Some(AdminReply::NoAnswer(e)) => ngrok_unreachable("ngrok admin unreachable: "@ + e@),
        Some(AdminReply::BadStatus(e)) => ngrok_unreachable("ngrok admin returned "@ + e@),
        Some(AdminReply::BadBody(e)) => ngrok_unreachable("ngrok admin body parse failed: "@ + e@),
        Some(AdminReply::Tunnels(v)) => tunnel_status(v),
    }
}

fn unreachable_status(head: &str, error: &str) -> (r: NgrokStatus)
    ensures
        r@ == ngrok_unreachable(head@ + error@),
{
    NgrokStatus {
        enabled: true,
        reachable: Some(false),
        error: Some(join(head, error)),
        public_url: None,
        forwarding_to: None,
        http_requests_total: None,
        http_requests_per_second: None,
        connections_total: None,
    }
}

/// The state of ngrok by what its admin API answered.
pub fn ngrok_status_of(reply: &Option<AdminReply>) -> (r: NgrokStatus)
    ensures
        r@ == ngrok_status(*reply),
{
    match reply {
        None => NgrokStatus::default(),
        Some(AdminReply::NoClient(e)) => unreachable_status(
            "reqwest client build failed: ",
            e.as_str(),
        ),
        Some(AdminReply::NoAnswer(e)) => unreachable_status(
            "ngrok admin unreachable: ",
            e.as_str(),
        ),
        Some(AdminReply::BadStatus(e)) => unreachable_status("ngrok admin returned ", e.as_str()),
        Some(AdminReply::BadBody(e)) => unreachable_status(
            "ngrok admin body parse failed: ",
            e.as_str(),
        ),
        Some(AdminReply::Tunnels(v)) => parse_tunnel_status(v),
    }
}

// ------------------------------------------------------------------
// Server
// ------------------------------------------------------------------

/// A path as it is shown: what lies below the home directory starts with `~`.
pub open spec fn shown_path(path: Seq<char>, home: Option<Seq<char>>) -> Seq<char> {
    match home {
        Some(home) => if home.len() > 0 && has_prefix(path, home + "/"@) {
            "~/"@ + path.skip((home + "/"@).len() as int)
        } else {
            path
        },
        None => path,
    }
}

/// A path as it is shown, so that the name of the user does not appear.
pub fn display_path(path: &str, home: Option<&str>) -> (r: String)
    ensures
        r@ == shown_path(path@, opt_view(home)),
{
    if let Some(home) = home {
        if home.unicode_len() > 0 {
            if let Some(rest) = strip_prefix(path, join(home, "/").as_str()) {
                return join("~/", rest);
            }
        }
    }
    path.to_owned()
}

/// Whether the database can be read, by the transcript.
pub open spec fn sqlite_ok_trace(t: Transcript, at: int) -> Option<(bool, int)> {
    match fetched_row(t, at, plain(Statement::Probe)) {
        None => None,
        Some((row, at)) => Some((row is Ok, at)),
    }
}

/// Whether the database can be read.
pub fn check_sqlite(session: &mut Session) -> (r: bool)
    ensures
        continues(final(session)@, old(session)@),
        sqlite_ok_trace(final(session)@, old(session)@.len() as int) == Some(
            (r, final(session)@.len() as int),
        ),
{
    session.fetch_row(Statement::Probe, params0()).is_ok()
}

/// The state of the server. `sqlite_path` is shown without the home directory;
/// `sqlite_ok` is what [`check_sqlite`] found, or false where the database is
/// out of reach; `reply` is what ngrok answered, if it is configured.
pub fn get_status(
    version: &str,
    uptime_seconds: u64,
    sqlite_path: &str,
    home: Option<&str>,
    sqlite_ok: bool,
    reply: &Option<AdminReply>,
) -> (r: StatusResponse)
    ensures
        r.server.version@ == version@,
        r.server.uptime_seconds == uptime_seconds,
        r.server.sqlite.path@ == shown_path(sqlite_path@, opt_view(home)),
        r.server.sqlite.ok == sqlite_ok,
        r.ngrok@ == ngrok_status(*reply),
{
    StatusResponse {
        server: ServerStatus {
            version: version.to_owned(),
            uptime_seconds,
            sqlite: SqliteStatus { path: display_path(sqlite_path, home), ok: sqlite_ok },
        },
        ngrok: ngrok_status_of(reply),
    }
}

/// The three states of ngrok exclude each other, and each shows only what
/// belongs to it.
pub proof fn law_ngrok_states_are_apart(reply: Option<AdminReply>)
    ensures
        ngrok_status(reply).enabled <==> reply is Some,
        reply is None ==> ngrok_status(reply) == ngrok_off(),
        ngrok_status(reply).error is Some <==> ngrok_status(reply).reachable == Some(false),
        ngrok_status(reply).reachable == Some(true) <==> (reply matches Some(r) && r is Tunnels),
        ngrok_status(reply).public_url is Some ==> ngrok_status(reply).reachable == Some(true),
{
}

/// The value at the end of a path of keys, where there is one.
pub open spec fn at_path(value: Json, keys: Seq<Seq<char>>) -> Option<Json>
    decreases keys.len(),
{
    if keys.len() == 0 {
        Some(value)
    } else {
        match field(value, keys[0]) {
            Some(inner) => at_path(inner, keys.skip(1)),
            None => None,
        }
    }
}

/// A figure of ngrok is the one at its place in the first tunnel: a text where it
/// is a text, a number where it is a number.
pub proof fn law_figures_of_the_first_tunnel(v: Json, items: Vec<Json>)
    requires
        field(v, "tunnels"@) == Some(Json::Array(items)),
        items@.len() > 0,
    ensures
        ({
            let tunnel = items@[0];
            let shown = tunnel_status(v);
            &&& shown.enabled && shown.reachable == Some(true) && shown.error is None
            &&& shown.public_url == match at_path(tunnel, seq!["public_url"@]) {
                Some(Json::Text(s)) => Some(s@),
                _ => None,
            }
            &&& shown.forwarding_to == match at_path(tunnel, seq!["config"@, "addr"@]) {
                Some(Json::Text(s)) => Some(s@),
                _ => None,
            }
            &&& shown.http_requests_total == match at_path(
                tunnel,
                seq!["metrics"@, "http"@, "count"@],
            ) {
                Some(Json::Number(n)) => n.unsigned,
                _ => None,
            }
            &&& shown.http_requests_per_second == match at_path(
                tunnel,
                seq!["metrics"@, "http"@, "rate1"@],
            ) {
                Some(Json::Number(n)) => Some(n.text@),
                _ => None,
            }
            &&& shown.connections_total == match at_path(
                tunnel,
                seq!["metrics"@, "conns"@, "count"@],
            ) {
                Some(Json::Number(n)) => n.unsigned,
                _ => None,
            }
        }),
{
    reveal_with_fuel(at_path, 4);
    assert(seq!["public_url"@].skip(1) =~= seq![]);
    assert(seq!["config"@, "addr"@].skip(1) =~= seq!["addr"@]);
    assert(seq!["addr"@].skip(1) =~= seq![]);
    assert(seq!["metrics"@, "http"@, "count"@].skip(1) =~= seq!["http"@, "count"@]);
    assert(seq!["metrics"@, "http"@, "rate1"@].skip(1) =~= seq!["http"@, "rate1"@]);
    assert(seq!["metrics"@, "conns"@, "count"@].skip(1) =~= seq!["conns"@, "count"@]);
    assert(seq!["http"@, "count"@].skip(1) =~= seq!["count"@]);
    assert(seq!["http"@, "rate1"@].skip(1) =~= seq!["rate1"@]);
    assert(seq!["conns"@, "count"@].skip(1) =~= seq!["count"@]);
    assert(seq!["count"@].skip(1) =~= seq![]);
    assert(seq!["rate1"@].skip(1) =~= seq![]);
}

/// Where ngrok lists no tunnel, it is in reach and there are no figures.
pub proof fn law_no_tunnel_no_figures(v: Json)
    requires
        field(v, "tunnels"@) matches Some(Json::Array(items)) ==> items@.len() == 0,
    ensures
        tunnel_status(v) == (NgrokView { enabled: true, reachable: Some(true), ..ngrok_off() }),
{
}

/// What kept ngrok from answering is told behind the words for the kind of the
/// failure, and there are no figures.
pub proof fn law_ngrok_failures_are_told(reply: AdminReply)
    ensures
        match reply {
            AdminReply::NoClient(e) => ngrok_status(Some(reply)).error == Some(
                "reqwest client build failed: "@ + e@,
            ),
            AdminReply::NoAnswer(e) => ngrok_status(Some(reply)).error == Some(
                "ngrok admin unreachable: "@ + e@,
            ),
            AdminReply::BadStatus(e) => ngrok_status(Some(reply)).error == Some(
                "ngrok admin returned "@ + e@,
            ),
            AdminReply::BadBody(e) => ngrok_status(Some(reply)).error == Some(
                "ngrok admin body parse failed: "@ + e@,
            ),
            AdminReply::Tunnels(v) => ngrok_status(Some(reply)) == tunnel_status(v),
        },
        !(reply is Tunnels) ==> {
            let shown = ngrok_status(Some(reply));
            &&& shown.public_url is None && shown.forwarding_to is None
            &&& shown.http_requests_total is None && shown.http_requests_per_second is None
            &&& shown.connections_total is None
        },
{
}

/// A path below the home directory is shown with `~` in place of the directory,
/// and any other path as it is.
pub proof fn law_home_is_not_shown(path: Seq<char>, home: Seq<char>)
    ensures
        ({
            let shown = shown_path(path, Some(home));
            if home.len() > 0 && path.len() > home.len() && path.take(home.len() as int) == home
                && path[home.len() as int] == '/' {
                shown.len() > 0 && shown[0] == '~' && shown.skip(1) == path.skip(
                    home.len() as int,
                )
            } else {
                shown == path
            }
        }),
        shown_path(path, None) == path,
{
    reveal_strlit("/");
    reveal_strlit("~/");
    let shown = shown_path(path, Some(home));
    let n = home.len() as int;
    if home.len() > 0 && path.len() > n && path.take(n) == home && path[n] == '/' {
        assert(path.take(n + 1) =~= home + "/"@) by {
            assert forall|i: int| 0 <= i < n implies path[i] == home[i] by {
                assert(path.take(n)[i] == path[i]);
            }
        }
        assert(shown.skip(1) =~= path.skip(n));
    } else if home.len() > 0 && path.len() > n && path.take(n + 1) == home + "/"@ {
        assert(path.take(n) =~= home) by {
            assert forall|i: int| 0 <= i < n implies path[i] == home[i] by {
                assert(path.take(n + 1)[i] == (home + "/"@)[i]);
            }
        }
        assert(path.take(n + 1)[n] == (home + "/"@)[n]);
    }
}

/// The database is in reach exactly where it answers the probe, which it does
/// unless it fails.
pub proof fn law_probe_tells_of_the_database(
    t: Transcript,
    h: History,
    at: int,
    end: int,
    ok: bool,
)
    requires
        faithful(t, h, at, end),
        sqlite_ok_trace(t, at) == Some((ok, end)),
    ensures
        end == at + 1,
        ok <==> !tells_failure(t[at]),
{
    assert(follows(h[at], t[at], h[end]));
}

} // verus!
