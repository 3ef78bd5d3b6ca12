//! The error type that every operation answers with.

use vstd::prelude::*;

use crate::outside::{json_literal, quote_json};
use crate::text::join3;
use crate::work::text_or_none;

verus! {

/// The body of an error answer.
#[derive(Debug)]
pub struct ErrorBody {
    /// What went wrong.
    pub error: String,
    /// What the failing tool said, where there is such a thing.
    pub detail: Option<String>,
}

/// A refused or failed request: an HTTP status and a body.
#[derive(Debug)]
pub struct ApiError {
    /// The HTTP status code.
    pub status: u16,
    /// The body of the answer.
    pub body: ErrorBody,
}

/// What an [`ApiError`] says.
#[verifier::ext_equal]
pub struct ErrorView {
    /// The HTTP status code.
    pub status: u16,
    /// What went wrong.
    pub error: Seq<char>,
    /// What the failing tool said.
    pub detail: Option<Seq<char>>,
}

impl View for ApiError {
    type V = ErrorView;

    open spec fn view(&self) -> ErrorView {
        ErrorView {
            status: self.status,
            error: self.body.error@,
            detail: match self.body.detail {
                Some(d) => Some(d@),
                None => None,
            },
        }
    }
}

impl Clone for ApiError {
    fn clone(&self) -> (e: Self)
        ensures
            e@ == self@,
    {
        ApiError {
            status: self.status,
            body: ErrorBody {
                error: self.body.error.clone(),
                detail: match &self.body.detail {
                    Some(d) => Some(d.clone()),
                    None => None,
                },
            },
        }
    }
}

/// An error of a status and a message, without detail.
pub open spec fn plain(status: u16, error: Seq<char>) -> ErrorView {
    ErrorView { status, error, detail: None }
}

/// The JSON text of an error body, from the literals of what it holds. The keys
/// stand in alphabetical order.
pub open spec fn error_object(error: Seq<char>, detail: Option<Seq<char>>) -> Seq<char> {
    match detail {
        Some(d) => "{\"detail\":"@ + d + ",\"error\":"@ + error + "}"@,
        None => "{\"error\":"@ + error + "}"@,
    }
}

/// The JSON text of an error body.
pub open spec fn error_json(e: ErrorView) -> Seq<char> {
    error_object(
        json_literal(e.error),
        match e.detail {
            Some(d) => Some(json_literal(d)),
            None => None,
        },
    )
}

/// Writes an error body as JSON, from the literals of what it holds.
pub fn write_object(error: &str, detail: &Option<String>) -> (text: String)
    ensures
        text@ == error_object(error@, text_or_none(*detail)),
{
    match detail {
        Some(d) => {
            let head = join3("{\"detail\":", d.as_str(), ",\"error\":");
            join3(head.as_str(), error, "}")
        },
        None => join3("{\"error\":", error, "}"),
    }
}

impl ApiError {
    /// An error of a status and a body.
    pub fn new(status: u16, body: ErrorBody) -> (e: Self)
        ensures
            e.status == status,
            e.body == body,
    {
        ApiError { status, body }
    }

    fn simple(code: u16, error: &str) -> (e: Self)
        ensures
            e@ == plain(code, error@),
    {
        ApiError::new(code, ErrorBody { error: error.to_owned(), detail: None })
    }

    /// The HTTP status code.
    pub fn status_code(&self) -> (code: u16)
        ensures
            code == self@.status,
    {
        self.status
    }

    /// The body as JSON text.
    pub fn to_json(&self) -> (text: String)
        ensures
            text@ == error_json(self@),
    {
        let error = quote_json(self.body.error.as_str());
        let detail = match &self.body.detail {
            Some(d) => Some(quote_json(d.as_str())),
            None => None,
        };
        write_object(error.as_str(), &detail)
    }
}

/// The caller did not say who they are: 401.
pub fn unauthorized(msg: &str) -> (e: ApiError)
    ensures
        e@ == plain(401, msg@),
{
    ApiError::simple(401, msg)
}

/// The request makes no sense: 400.
pub fn bad_request(msg: &str) -> (e: ApiError)
    ensures
        e@ == plain(400, msg@),
{
    ApiError::simple(400, msg)
}

/// The caller may not do this: 403.
pub fn forbidden_msg(msg: &str) -> (e: ApiError)
    ensures
        e@ == plain(403, msg@),
{
    ApiError::simple(403, msg)
}

/// The caller may not do this: 403 with the message `forbidden`.
pub fn forbidden() -> (e: ApiError)
    ensures
        e@ == plain(403, "forbidden"@),
{
    forbidden_msg("forbidden")
}

/// There is no such thing: 404.
pub fn not_found(msg: &str) -> (e: ApiError)
    ensures
        e@ == plain(404, msg@),
{
    ApiError::simple(404, msg)
}

/// The thing is there already: 409.
pub fn conflict(msg: &str) -> (e: ApiError)
    ensures
        e@ == plain(409, msg@),
{
    ApiError::simple(409, msg)
}

/// The agent itself failed: 500.
pub fn internal(msg: &str) -> (e: ApiError)
    ensures
        e@ == plain(500, msg@),
{
    ApiError::simple(500, msg)
}

/// A failed tool, with what it said: 500.
pub fn tool_failure(msg: &str, detail: String) -> (e: ApiError)
    ensures
        e@ == (ErrorView { status: 500, error: msg@, detail: Some(detail@) }),
{
    ApiError::new(500, ErrorBody { error: msg.to_owned(), detail: Some(detail) })
}

} // verus!
