//! The client of the remote sync API: which requests it sends, and when it
//! sends one again.

use vstd::prelude::*;

use crate::error::{Error, ErrorView};
use crate::sql::opt_view;
use crate::text::{decimal_int, join, join3, print_i64};

verus! {

/// The number of attempts: the first, and three more.
pub const MAX_ATTEMPTS: u32 = 4;

/// How long one request may take, in seconds.
pub const REQUEST_TIMEOUT_SECS: u64 = 30;

// ------------------------------------------------------------------
// Requests
// ------------------------------------------------------------------

/// `s` without the slashes that it ends with.
pub open spec fn without_slashes(s: Seq<char>) -> Seq<char>
    decreases s.len(),
{
    if s.len() > 0 && s.last() == '/' {
        without_slashes(s.drop_last())
    } else {
        s
    }
}

fn trim_slashes<'a>(s: &'a str) -> (r: &'a str)
    ensures
        r@ == without_slashes(s@),
{
    let mut to: usize = s.unicode_len();
    assert(s@.subrange(0, to as int) =~= s@);
    while to > 0 && s.get_char(to - 1) == '/'
        invariant
            to <= s@.len(),
            without_slashes(s@.subrange(0, to as int)) == without_slashes(s@),
        decreases to,
    {
        assert(s@.subrange(0, to as int).drop_last() =~= s@.subrange(0, to - 1));
        to = to - 1;
    }
    s.substring_char(0, to)
}

/// The methods of the requests.
#[derive(Debug, Clone, Copy, PartialEq, Eq, Structural)]
pub enum Method {
    Get,
    Post,
    Patch,
}

/// A request to the remote API, but for its body.
#[derive(Debug, Clone)]
pub struct ApiRequest {
    pub method: Method,
    pub url: String,
    pub authorization: String,
    pub accept: String,
    /// Present where the request has a body.
    pub content_type: Option<String>,
    /// The value of `since` in the query.
    pub since: Option<String>,
}

/// The model of an [`ApiRequest`].
pub struct ApiRequestView {
    pub method: Method,
    pub url: Seq<char>,
    pub authorization: Seq<char>,
    pub accept: Seq<char>,
    pub content_type: Option<Seq<char>>,
    pub since: Option<Seq<char>>,
}

impl View for ApiRequest {
    type V = ApiRequestView;

    open spec fn view(&self) -> ApiRequestView {
        ApiRequestView {
            method: self.method,
            url: self.url@,
            authorization: self.authorization@,
            accept: self.accept@,
            content_type: opt_view(self.content_type),
            since: opt_view(self.since),
        }
    }
}

/// Where the remote API is, and the key for it.
#[derive(Debug, Clone)]
pub struct HttpApiClient {
    pub base_url: String,
    pub api_key: String,
}

/// A request of this client.
pub open spec fn api_request(
    client: HttpApiClient,
    method: Method,
    path: Seq<char>,
    has_body: bool,
    since: Option<Seq<char>>,
) -> ApiRequestView {
    ApiRequestView {
        method,
        url: without_slashes(client.base_url@) + path,
        authorization: "Bearer "@ + client.api_key@,
        accept: "application/json"@,
        content_type: if has_body {
            Some("application/json"@)
        } else {
            None
        },
        since,
    }
}

impl HttpApiClient {
    /// A client of the API at this address.
    pub fn new(base_url: String, api_key: String) -> (r: HttpApiClient)
        ensures
            r.base_url@ == base_url@,
            r.api_key@ == api_key@,
    {
        HttpApiClient { base_url, api_key }
    }

    /// The address of a path of the API.
    pub fn url(&self, path: &str) -> (r: String)
        ensures
            r@ == without_slashes(self.base_url@) + path@,
    {
        join(trim_slashes(self.base_url.as_str()), path)
    }

    fn request(&self, method: Method, path: &str, has_body: bool, since: Option<String>) -> (r:
        ApiRequest)
        ensures
            r@ == api_request(*self, method, path@, has_body, opt_view(since)),
    {
        ApiRequest {
            method,
            url: self.url(path),
            authorization: join("Bearer ", self.api_key.as_str()),
            accept: "application/json".to_owned(),
            content_type: if has_body {
                Some("application/json".to_owned())
            } else {
                None
            },
            since,
        }
    }

    /// The request that pushes tasks.
    pub fn push_tasks(&self) -> (r: ApiRequest)
        ensures
            r@ == api_request(*self, Method::Post, "/api/sync/tasks/push"@, true, None),
    {
        self.request(Method::Post, "/api/sync/tasks/push", true, None)
    }

    /// The request for the tasks without a number.
    pub fn get_unsynced(&self) -> (r: ApiRequest)
        ensures
            r@ == api_request(*self, Method::Get, "/api/sync/tasks/unsynced"@, false, None),
    {
        self.request(Method::Get, "/api/sync/tasks/unsynced", false, None)
    }

    /// The request that gives a task its number.
    pub fn patch_task_number(&self, neon_id: i64) -> (r: ApiRequest)
        ensures
            r@ == api_request(
                *self,
                Method::Patch,
                "/api/sync/tasks/"@ + decimal_int(neon_id as int) + "/number"@,
                true,
                None,
            ),
    {
        let path = join3("/api/sync/tasks/", print_i64(neon_id).as_str(), "/number");
        self.request(Method::Patch, path.as_str(), true, None)
    }

    /// The request for the changes since a time, or for all.
    pub fn get_changes(&self, since: Option<String>) -> (r: ApiRequest)
        ensures
            r@ == api_request(
                *self,
                Method::Get,
                "/api/sync/tasks/changes"@,
                false,
                opt_view(since),
            ),
    {
        self.request(Method::Get, "/api/sync/tasks/changes", false, since)
    }
}

// ------------------------------------------------------------------
// Attempts
// ------------------------------------------------------------------

/// How an attempt to send a request ended.
#[derive(Debug)]
pub enum Attempt {
    /// The request cannot be sent more than once.
    NotRepeatable,
    /// The remote side answered. The body is read where the status is outside
    /// 2xx.
    Answered { status: u16, body: String },
    /// The transport failed. `transient` says that it timed out or that there
    /// was no connection.
    Failed { transient: bool, error: String },
}

/// What follows an attempt.
#[derive(Debug)]
pub enum RetryStep {
    /// The answer is there.
    Done,
    /// The request failed for good.
    GiveUp(Error),
    /// Wait so many seconds, then try again.
    Wait(u64),
}

/// The model of a [`RetryStep`].
pub enum RetryView {
    Done,
    GiveUp(ErrorView),
    Wait(u64),
}

impl View for RetryStep {
    type V = RetryView;

    open spec fn view(&self) -> RetryView {
        match self {
            RetryStep::Done => RetryView::Done,
            RetryStep::GiveUp(e) => RetryView::GiveUp(e@),
            RetryStep::Wait(n) => RetryView::Wait(*n),
        }
    }
}

/// Whether a status code tells of success.
pub open spec fn is_success(status: u16) -> bool {
    200 <= status < 300
}

/// Whether a status code tells of success.
pub fn is_success_status(status: u16) -> (r: bool)
    ensures
        r == is_success(status),
{
    200 <= status && status < 300
}

/// The seconds to wait after the attempt with this number, counted from 0.
pub open spec fn backoff(attempt: u32) -> u64 {
    if attempt == 0 {
        1
    } else if attempt == 1 {
        2
    } else {
        4
    }
}

/// After a failure that may pass: wait, or give up after the last attempt.
pub open spec fn again(attempt: u32, error: ErrorView) -> RetryView {
    if attempt + 1 < MAX_ATTEMPTS {
        RetryView::Wait(backoff(attempt))
    } else {
        RetryView::GiveUp(error)
    }
}

/// Whether a status code tells that the server failed.
pub open spec fn is_server_error(status: u16) -> bool {
    500 <= status < 600
}

/// What follows the attempt with this number, counted from 0. Only a status of
/// 5xx and a failure of the transport that may pass are tried again; every
/// other status outside 2xx and every other failure end the request at once.
pub open spec fn after_attempt(attempt: u32, outcome: Attempt) -> RetryView {
    match outcome {
        Attempt::NotRepeatable => RetryView::GiveUp(
            ErrorView::Config(
                "request body is not cloneable; cannot retry (streaming bodies unsupported)"@,
            ),
        ),
        Attempt::Answered { status, body } => {
            let error = ErrorView::Api { status, body: body@ };
            if is_success(status) {
                RetryView::Done
            } else if is_server_error(status) {
                again(attempt, error)
            } else {
                RetryView::GiveUp(error)
            }
        },
        Attempt::Failed { transient, error } => if transient {
            again(attempt, ErrorView::Reqwest(error@))
        } else {
            RetryView::GiveUp(ErrorView::Reqwest(error@))
        },
    }
}

fn wait_or_give_up(attempt: u32, error: Error) -> (r: RetryStep)
    ensures
        r@ == again(attempt, error@),
{
    if attempt >= MAX_ATTEMPTS - 1 {
        RetryStep::GiveUp(error)
    } else if attempt == 0 {
        RetryStep::Wait(1)
    } else if attempt == 1 {
        RetryStep::Wait(2)
    } else {
        RetryStep::Wait(4)
    }
}

/// Decides what follows the attempt with this number, counted from 0.
pub fn send_with_retry(attempt: u32, outcome: Attempt) -> (r: RetryStep)
    ensures
        r@ == after_attempt(attempt, outcome),
{
    match outcome {
        Attempt::NotRepeatable => RetryStep::GiveUp(
            Error::Config(
                "request body is not cloneable; cannot retry (streaming bodies unsupported)".to_owned(),
            ),
        ),
        Attempt::Answered { status, body } => {
            if is_success_status(status) {
                RetryStep::Done
            } else if 500 <= status && status < 600 {
                wait_or_give_up(attempt, Error::Api { status, body })
            } else {
                RetryStep::GiveUp(Error::Api { status, body })
            }
        },
        Attempt::Failed { transient, error } => {
            if transient {
                wait_or_give_up(attempt, Error::Reqwest(error))
            } else {
                RetryStep::GiveUp(Error::Reqwest(error))
            }
        },
    }
}

// ------------------------------------------------------------------
// Laws of the attempts
// ------------------------------------------------------------------

/// The number of attempts that a request takes when they end like this, and
/// the seconds that are waited between them.
pub open spec fn attempts(outcomes: Seq<Attempt>, attempt: nat) -> (nat, nat)
    decreases outcomes.len() - attempt,
{
    if attempt >= outcomes.len() {
        (0, 0)
    } else {
        match after_attempt(attempt as u32, outcomes[attempt as int]) {
            RetryView::Wait(n) => {
                let (count, waited) = attempts(outcomes, attempt + 1);
                (count + 1, waited + n as nat)
            },
            _ => (1, 0),
        }
    }
}

/// However the attempts end, there are no more than four, and no more than
/// seven seconds are waited between them.
pub proof fn law_attempts_are_bounded(outcomes: Seq<Attempt>)
    ensures
        attempts(outcomes, 0).0 <= MAX_ATTEMPTS,
        attempts(outcomes, 0).1 <= 7,
{
    reveal_with_fuel(attempts, 5);
}

/// Nothing but an error of the server or a failure of the transport that may
/// pass is tried again: success, every other status and every other failure end
/// a request at the attempt where they occur.
pub proof fn law_only_passing_failures_are_repeated(attempt: u32, outcome: Attempt)
    ensures
        after_attempt(attempt, outcome) is Wait ==> attempt < 3 && match outcome {
            Attempt::NotRepeatable => false,
            Attempt::Answered { status, .. } => is_server_error(status),
            Attempt::Failed { transient, .. } => transient,
        },
{
}

/// The error after the last attempt is that of the last attempt.
pub proof fn law_last_error_is_reported(status: u16, body: String)
    requires
        is_server_error(status),
    ensures
        after_attempt(3, Attempt::Answered { status, body }) == RetryView::GiveUp(
            ErrorView::Api { status, body: body@ },
        ),
{
}

/// Cutting the slashes at the end of an address cuts nothing else and leaves
/// none there.
pub proof fn law_only_slashes_are_cut(s: Seq<char>)
    ensures
        without_slashes(s).len() <= s.len(),
        s.take(without_slashes(s).len() as int) == without_slashes(s),
        forall|i: int| without_slashes(s).len() <= i < s.len() ==> #[trigger] s[i] == '/',
        without_slashes(s).len() > 0 ==> without_slashes(s).last() != '/',
    decreases s.len(),
{
    if s.len() > 0 && s.last() == '/' {
        let init = s.drop_last();
        law_only_slashes_are_cut(init);
        let n = without_slashes(s).len();
        assert(s.take(n as int) =~= init.take(n as int));
        assert forall|i: int| n <= i < s.len() implies #[trigger] s[i] == '/' by {
            if i < init.len() {
                assert(init[i] == s[i]);
            }
        }
    } else {
        assert(s.take(s.len() as int) =~= s);
    }
}

/// A request goes to the path below the address of the API, carries the key, and
/// says that it holds JSON exactly where it has a body.
pub proof fn law_requests_carry_the_key(
    client: HttpApiClient,
    method: Method,
    path: Seq<char>,
    has_body: bool,
    since: Option<Seq<char>>,
)
    ensures
        ({
            let request = api_request(client, method, path, has_body, since);
            let cut = request.url.len() - path.len();
            &&& request.method == method
            &&& 0 <= cut <= client.base_url@.len()
            &&& request.url.skip(cut) == path
            &&& request.url.take(cut) == client.base_url@.take(cut)
            &&& forall|i: int| cut <= i < client.base_url@.len() ==> #[trigger] client.base_url@[i]
                == '/'
            &&& cut > 0 ==> client.base_url@[cut - 1] != '/'
            &&& request.authorization.take(7) == "Bearer "@
            &&& request.authorization.skip(7) == client.api_key@
            &&& request.accept == "application/json"@
            &&& has_body ==> request.content_type == Some("application/json"@)
            &&& !has_body ==> request.content_type is None
            &&& request.since == since
        }),
{
    reveal_strlit("Bearer ");
    law_only_slashes_are_cut(client.base_url@);
    let request = api_request(client, method, path, has_body, since);
    let cut = request.url.len() - path.len();
    assert(request.url.skip(cut) =~= path);
    assert(request.url.take(cut) =~= client.base_url@.take(cut));
    assert(request.authorization.take(7) =~= "Bearer "@);
    assert(request.authorization.skip(7) =~= client.api_key@);
}

/// An answer with a status of 2xx ends a request with success. One of 5xx and a
/// failure that may pass are tried again three times. Everything else, and what
/// comes after that, ends the request with the error of this attempt.
pub proof fn law_what_follows_an_attempt(attempt: u32, outcome: Attempt)
    ensures
        match outcome {
            Attempt::NotRepeatable => after_attempt(attempt, outcome) matches RetryView::GiveUp(e)
                && e is Config,
            Attempt::Answered { status, body } => if 200 <= status <= 299 {
                after_attempt(attempt, outcome) is Done
            } else if 500 <= status <= 599 && attempt < 3 {
                after_attempt(attempt, outcome) is Wait
            } else {
                after_attempt(attempt, outcome) == RetryView::GiveUp(
                    ErrorView::Api { status, body: body@ },
                )
            },
            Attempt::Failed { transient, error } => if transient && attempt < 3 {
                after_attempt(attempt, outcome) is Wait
            } else {
                after_attempt(attempt, outcome) == RetryView::GiveUp(ErrorView::Reqwest(error@))
            },
        },
{
}

/// The first wait is of one second, and each further one is twice as long,
/// whatever the attempts ended with.
pub proof fn law_waits_double(attempt: u32, outcome: Attempt, next: Attempt)
    ensures
        after_attempt(0, outcome) matches RetryView::Wait(n) ==> n == 1,
        attempt < u32::MAX ==> (after_attempt(attempt, outcome) matches RetryView::Wait(n) ==> (
        after_attempt((attempt + 1) as u32, next) matches RetryView::Wait(m) ==> m == 2 * n)),
{
}

} // verus!
