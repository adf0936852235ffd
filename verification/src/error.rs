//! The library's error type, and how it is shown to clients.

use vstd::prelude::*;

use crate::sql::{failure_message, FailureView, SqlFailure};
use crate::text::{decimal, join, join3, print_u64};

verus! {

/// What can go wrong.
#[derive(Debug, Clone)]
pub enum Error {
    /// A problem with the configuration or the command line, or a state that
    /// should not occur.
    Config(String),
    /// The client's input is invalid. The words are shown to the client.
    BadRequest(String),
    /// A database operation failed.
    Sqlite(SqlFailure),
    /// The HTTP transport failed.
    Reqwest(String),
    /// An operation on files failed.
    Io(String),
    /// A TOML text cannot be read.
    Toml(String),
    /// A JSON text cannot be read or written.
    Json(String),
    /// The remote API answered with a status outside 2xx.
    Api { status: u16, body: String },
    /// The request does not carry the right bearer token.
    Unauthorized,
    /// There is no such resource.
    NotFound,
    /// The request contradicts what is stored. The words are shown to the
    /// client.
    Conflict(String),
}

/// The model of an [`Error`].
pub enum ErrorView {
    Config(Seq<char>),
    BadRequest(Seq<char>),
    Sqlite(FailureView),
    Reqwest(Seq<char>),
    Io(Seq<char>),
    Toml(Seq<char>),
    Json(Seq<char>),
    Api { status: u16, body: Seq<char> },
    Unauthorized,
    NotFound,
    Conflict(Seq<char>),
}

impl View for Error {
    type V = ErrorView;

    open spec fn view(&self) -> ErrorView {
        match self {
            Error::Config(s) => ErrorView::Config(s@),
            Error::BadRequest(s) => ErrorView::BadRequest(s@),
            Error::Sqlite(e) => ErrorView::Sqlite(e@),
            Error::Reqwest(s) => ErrorView::Reqwest(s@),
            Error::Io(s) => ErrorView::Io(s@),
            Error::Toml(s) => ErrorView::Toml(s@),
            Error::Json(s) => ErrorView::Json(s@),
            Error::Api { status, body } => ErrorView::Api { status: *status, body: body@ },
            Error::Unauthorized => ErrorView::Unauthorized,
            Error::NotFound => ErrorView::NotFound,
            Error::Conflict(s) => ErrorView::Conflict(s@),
        }
    }
}

/// The words for an error, for logs and the terminal.
pub open spec fn error_message(error: ErrorView) -> Seq<char> {
    match error {
        ErrorView::Config(s) => "config error: "@ + s,
        ErrorView::BadRequest(s) => "bad request: "@ + s,
        ErrorView::Sqlite(e) => "sqlite error: "@ + failure_message(e),
        ErrorView::Reqwest(s) => "http error: "@ + s,
        ErrorView::Io(s) => "io error: "@ + s,
        ErrorView::Toml(s) => "toml error: "@ + s,
        ErrorView::Json(s) => "json error: "@ + s,
        ErrorView::Api { status, body } => "api error "@ + decimal(status as nat) + ": "@ + body,
        ErrorView::Unauthorized => "unauthorized"@,
        ErrorView::NotFound => "not found"@,
        ErrorView::Conflict(s) => "conflict: "@ + s,
    }
}

/// The status code of the response to a request that ended in an error.
pub open spec fn response_status(error: ErrorView) -> u16 {
    match error {
        ErrorView::Unauthorized => 401,
        ErrorView::NotFound => 404,
        ErrorView::BadRequest(_) => 400,
        ErrorView::Conflict(_) => 409,
        _ => 500,
    }
}

/// The words in the body of that response. A failure of the server itself is
/// not described to the client.
pub open spec fn response_message(error: ErrorView) -> Seq<char> {
    match error {
        ErrorView::Unauthorized => "unauthorized"@,
        ErrorView::NotFound => "not found"@,
        ErrorView::BadRequest(s) => s,
        ErrorView::Conflict(s) => s,
        _ => "internal error"@,
    }
}

impl Error {
    /// The words for the error, for logs and the terminal.
    pub fn message(&self) -> (r: String)
        ensures
            r@ == error_message(self@),
    {
        match self {
            Error::Config(s) => join("config error: ", s.as_str()),
            Error::BadRequest(s) => join("bad request: ", s.as_str()),
            Error::Sqlite(e) => join("sqlite error: ", e.message().as_str()),
            Error::Reqwest(s) => join("http error: ", s.as_str()),
            Error::Io(s) => join("io error: ", s.as_str()),
            Error::Toml(s) => join("toml error: ", s.as_str()),
            Error::Json(s) => join("json error: ", s.as_str()),
            Error::Api { status, body } => {
                let head = join3("api error ", print_u64(*status as u64).as_str(), ": ");
                join(head.as_str(), body.as_str())
            },
            Error::Unauthorized => "unauthorized".to_owned(),
            Error::NotFound => "not found".to_owned(),
            Error::Conflict(s) => join("conflict: ", s.as_str()),
        }
    }

    /// The status code and the words of the response to a request that ended
    /// in the error.
    pub fn into_response(&self) -> (r: (u16, String))
        ensures
            r.0 == response_status(self@),
            r.1@ == response_message(self@),
    {
        match self {
            Error::Unauthorized => (401, "unauthorized".to_owned()),
            Error::NotFound => (404, "not found".to_owned()),
            Error::BadRequest(s) => (400, s.clone()),
            Error::Conflict(s) => (409, s.clone()),
            _ => (500, "internal error".to_owned()),
        }
    }
}

/// No response with a status of 500 says more than that the server failed.
pub proof fn law_server_failures_are_not_described(error: ErrorView)
    requires
        response_status(error) >= 500,
    ensures
        response_message(error) == "internal error"@,
{
}

/// An error of the client is answered with its own status and the words for it,
/// and any other with the status 500.
pub proof fn law_errors_are_told(error: ErrorView)
    ensures
        error matches ErrorView::BadRequest(words) ==> response_status(error) == 400
            && response_message(error) == words,
        error matches ErrorView::Conflict(words) ==> response_status(error) == 409
            && response_message(error) == words,
        error is Unauthorized ==> response_status(error) == 401 && response_message(error)
            == "unauthorized"@,
        error is NotFound ==> response_status(error) == 404 && response_message(error)
            == "not found"@,
        !(error is BadRequest || error is Conflict || error is Unauthorized || error is NotFound)
            ==> response_status(error) == 500 && response_message(error) == "internal error"@,
{
}

/// The words for an error end with those that it holds.
pub proof fn law_messages_end_with_the_words(error: ErrorView)
    ensures
        match error {
            ErrorView::Config(words) | ErrorView::BadRequest(words) | ErrorView::Reqwest(words)
            | ErrorView::Io(words) | ErrorView::Toml(words) | ErrorView::Json(words)
            | ErrorView::Conflict(words) => ends_with(error_message(error), ": "@ + words),
            ErrorView::Sqlite(failure) => ends_with(
                error_message(error),
                ": "@ + failure_message(failure),
            ),
            ErrorView::Api { status, body } => ends_with(
                error_message(error),
                " "@ + decimal(status as nat) + ": "@ + body,
            ),
            ErrorView::Unauthorized => error_message(error) == "unauthorized"@,
            ErrorView::NotFound => error_message(error) == "not found"@,
        },
{
    reveal_strlit(": ");
    reveal_strlit(" ");
    reveal_strlit("config error: ");
    reveal_strlit("bad request: ");
    reveal_strlit("sqlite error: ");
    reveal_strlit("http error: ");
    reveal_strlit("io error: ");
    reveal_strlit("toml error: ");
    reveal_strlit("json error: ");
    reveal_strlit("api error ");
    reveal_strlit("conflict: ");
    let message = error_message(error);
    match error {
        ErrorView::Config(words) | ErrorView::BadRequest(words) | ErrorView::Reqwest(words)
        | ErrorView::Io(words) | ErrorView::Toml(words) | ErrorView::Json(words)
        | ErrorView::Conflict(words) => {
            let tail = ": "@ + words;
            assert(message.skip(message.len() - tail.len()) =~= tail);
        },
        ErrorView::Sqlite(failure) => {
            let tail = ": "@ + failure_message(failure);
            assert(message.skip(message.len() - tail.len()) =~= tail);
        },
        ErrorView::Api { status, body } => {
            let tail = " "@ + decimal(status as nat) + ": "@ + body;
            assert(message.skip(message.len() - tail.len()) =~= tail);
        },
        _ => {},
    }
}

/// Whether a text ends with another.
pub open spec fn ends_with(s: Seq<char>, tail: Seq<char>) -> bool {
    s.len() >= tail.len() && s.skip(s.len() - tail.len()) == tail
}

} // verus!
