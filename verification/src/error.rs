//! Application-wide error type.
//!
//! Every variant maps to a stable HTTP status code and a short machine-readable
//! error code.

use vstd::prelude::*;
use vstd::string::*;

use crate::text;

verus! {

/// Unified error enum for the whole application.
#[derive(Debug, PartialEq, Eq)]
pub enum AppError {
    /// The requested resource does not exist.
    NotFound,
    /// The request was malformed or semantically invalid.
    BadRequest(String),
    /// Authentication is missing or failed.
    Unauthorized,
    /// The authenticated caller lacks permission.
    Forbidden,
    /// The request conflicts with the current server state.
    Conflict(String),
    /// An unexpected internal error occurred.
    Internal(String),
    /// A filesystem or I/O operation failed.
    Io(String),
    /// A JSON (de)serialization failed.
    Json(String),
    /// An upstream HTTP request failed.
    Http(String),
    /// A local path failed validation.
    PathValidation(String),
}

/// What an [`AppError`] says, with its text as a character sequence.
pub enum ErrorView {
    NotFound,
    BadRequest(Seq<char>),
    Unauthorized,
    Forbidden,
    Conflict(Seq<char>),
    Internal(Seq<char>),
    Io(Seq<char>),
    Json(Seq<char>),
    Http(Seq<char>),
    PathValidation(Seq<char>),
}

impl View for AppError {
    type V = ErrorView;

    open spec fn view(&self) -> ErrorView {
        match self {
            AppError::NotFound => ErrorView::NotFound,
            AppError::BadRequest(m) => ErrorView::BadRequest(m@),
            AppError::Unauthorized => ErrorView::Unauthorized,
            AppError::Forbidden => ErrorView::Forbidden,
            AppError::Conflict(m) => ErrorView::Conflict(m@),
            AppError::Internal(m) => ErrorView::Internal(m@),
            AppError::Io(m) => ErrorView::Io(m@),
            AppError::Json(m) => ErrorView::Json(m@),
            AppError::Http(m) => ErrorView::Http(m@),
            AppError::PathValidation(m) => ErrorView::PathValidation(m@),
        }
    }
}

impl ErrorView {
    /// The HTTP status of an error.
    pub open spec fn status(self) -> u16 {
        match self {
            ErrorView::NotFound => 404,
            ErrorView::BadRequest(_) | ErrorView::Json(_) | ErrorView::PathValidation(_) => 400,
            ErrorView::Unauthorized => 401,
            ErrorView::Forbidden => 403,
            ErrorView::Conflict(_) => 409,
            ErrorView::Internal(_) | ErrorView::Io(_) => 500,
            ErrorView::Http(_) => 502,
        }
    }

    /// The machine-readable code of an error.
    pub open spec fn code(self) -> Seq<char> {
        match self {
            ErrorView::NotFound => "not_found"@,
            ErrorView::BadRequest(_) => "bad_request"@,
            ErrorView::Unauthorized => "unauthorized"@,
            ErrorView::Forbidden => "forbidden"@,
            ErrorView::Conflict(_) => "conflict"@,
            ErrorView::Internal(_) => "internal_error"@,
            ErrorView::Io(_) => "io_error"@,
            ErrorView::Json(_) => "invalid_json"@,
            ErrorView::Http(_) => "http_error"@,
            ErrorView::PathValidation(_) => "invalid_path"@,
        }
    }

    /// The human-readable text of an error.
    pub open spec fn message(self) -> Seq<char> {
        match self {
            ErrorView::NotFound => "resource not found"@,
            ErrorView::BadRequest(m) => "bad request: "@ + m,
            ErrorView::Unauthorized => "unauthorized"@,
            ErrorView::Forbidden => "forbidden"@,
            ErrorView::Conflict(m) => "conflict: "@ + m,
            ErrorView::Internal(m) => "internal error: "@ + m,
            ErrorView::Io(m) => "io error: "@ + m,
            ErrorView::Json(m) => "json error: "@ + m,
            ErrorView::Http(m) => "http error: "@ + m,
            ErrorView::PathValidation(m) => "path validation error: "@ + m,
        }
    }
}

/// `a` followed by `b`.
pub(crate) fn glued(a: &str, b: &str) -> (r: String)
    ensures
        r@ == a@ + b@,
{
    let mut r: String = a.to_owned();
    r.append(b);
    r
}

impl AppError {
    /// The HTTP status code associated with this error.
    #[must_use]
    pub fn status(&self) -> (r: u16)
        ensures
            r == self@.status(),
    {
        match self {
            AppError::NotFound => 404,
            AppError::BadRequest(_) | AppError::Json(_) | AppError::PathValidation(_) => 400,
            AppError::Unauthorized => 401,
            AppError::Forbidden => 403,
            AppError::Conflict(_) => 409,
            AppError::Internal(_) | AppError::Io(_) => 500,
            AppError::Http(_) => 502,
        }
    }

    /// A short, stable, machine-readable error code.
    #[must_use]
    pub fn code(&self) -> (r: &'static str)
        ensures
            r@ == self@.code(),
    {
        match self {
            AppError::NotFound => "not_found",
            AppError::BadRequest(_) => "bad_request",
            AppError::Unauthorized => "unauthorized",
            AppError::Forbidden => "forbidden",
            AppError::Conflict(_) => "conflict",
            AppError::Internal(_) => "internal_error",
            AppError::Io(_) => "io_error",
            AppError::Json(_) => "invalid_json",
            AppError::Http(_) => "http_error",
            AppError::PathValidation(_) => "invalid_path",
        }
    }

    /// The human-readable text of this error.
    #[must_use]
    pub fn message(&self) -> (r: String)
        ensures
            r@ == self@.message(),
    {
        match self {
            AppError::NotFound => "resource not found".to_owned(),
            AppError::BadRequest(m) => glued("bad request: ", m.as_str()),
            AppError::Unauthorized => "unauthorized".to_owned(),
            AppError::Forbidden => "forbidden".to_owned(),
            AppError::Conflict(m) => glued("conflict: ", m.as_str()),
            AppError::Internal(m) => glued("internal error: ", m.as_str()),
            AppError::Io(m) => glued("io error: ", m.as_str()),
            AppError::Json(m) => glued("json error: ", m.as_str()),
            AppError::Http(m) => glued("http error: ", m.as_str()),
            AppError::PathValidation(m) => glued("path validation error: ", m.as_str()),
        }
    }
}

/// The status of an error is a client or a server error, and tells the request
/// errors (4xx) from the server's own (5xx).
pub proof fn law_error_status_is_an_error(e: ErrorView)
    ensures
        400 <= e.status() < 600,
        e.status() >= 500 <==> (e is Internal || e is Io || e is Http),
{
}

/// Each kind of error has a code of its own, and its text ends in what it was
/// given.
pub proof fn law_error_text_ends_in_its_reason(m: Seq<char>)
    ensures
        text::ends_with(ErrorView::BadRequest(m).message(), m),
        text::ends_with(ErrorView::Conflict(m).message(), m),
        text::ends_with(ErrorView::Internal(m).message(), m),
        text::ends_with(ErrorView::Io(m).message(), m),
        text::ends_with(ErrorView::Json(m).message(), m),
        text::ends_with(ErrorView::Http(m).message(), m),
        text::ends_with(ErrorView::PathValidation(m).message(), m),
{
    let a = ErrorView::BadRequest(m).message();
    assert(a.skip(a.len() - m.len()) =~= m);
    let b = ErrorView::Conflict(m).message();
    assert(b.skip(b.len() - m.len()) =~= m);
    let c = ErrorView::Internal(m).message();
    assert(c.skip(c.len() - m.len()) =~= m);
    let d = ErrorView::Io(m).message();
    assert(d.skip(d.len() - m.len()) =~= m);
    let e = ErrorView::Json(m).message();
    assert(e.skip(e.len() - m.len()) =~= m);
    let f = ErrorView::Http(m).message();
    assert(f.skip(f.len() - m.len()) =~= m);
    let g = ErrorView::PathValidation(m).message();
    assert(g.skip(g.len() - m.len()) =~= m);
}

/// A request that is at fault, not allowed, in conflict or for something that is
/// not there is answered with the status that HTTP has for it.
pub proof fn law_statuses_are_those_of_http(e: ErrorView)
    ensures
        e.status() == 404 <==> e is NotFound,
        e.status() == 401 <==> e is Unauthorized,
        e.status() == 403 <==> e is Forbidden,
        e.status() == 409 <==> e is Conflict,
        e.status() == 502 <==> e is Http,
        e.status() == 500 <==> e is Internal || e is Io,
        e.status() == 400 <==> e is BadRequest || e is Json || e is PathValidation,
{
}

} // verus!
