//! The service's error type, the HTTP status of each error, and the reply to a refused request.

use vstd::prelude::*;

use crate::number::ParseIntError;
use crate::text::str_eq;

verus! {

/// Everything that can make a request fail.
#[derive(Debug, Clone)]
pub enum Error {
    /// A query parameter is not an integer.
    ParseError(ParseIntError),
    /// A query parameter that pagination needs is absent.
    MissingParameters,
    /// The request body breaks a rule; the text says which.
    ValidationError(String),
    /// No valid credentials or session.
    Unauthorized,
    /// The caller may not change someone else's content.
    Forbidden,
    /// The resource does not exist.
    NotFound,
    /// The request clashes with existing data; the text says how.
    Conflict(String),
    /// Too many failed attempts from this client in the current window.
    TooManyRequests,
    /// The database refused the query.
    DatabaseQueryError,
    /// Stored data is not what the service expects.
    InternalServerError,
}

/// The HTTP status code of each error.
pub open spec fn status_of(e: Error) -> u16 {
    match e {
        Error::ParseError(_) | Error::MissingParameters | Error::ValidationError(_) => 400,
        Error::Unauthorized => 401,
        Error::Forbidden => 403,
        Error::NotFound => 404,
        Error::Conflict(_) => 409,
        Error::TooManyRequests => 429,
        Error::DatabaseQueryError => 422,
        Error::InternalServerError => 500,
    }
}

/// The HTTP status code that a request failing with `error` is answered with.
pub fn status_for_error(error: &Error) -> (r: u16)
    ensures
        r == status_of(*error),
{
    match error {
        Error::ParseError(_) | Error::MissingParameters | Error::ValidationError(_) => 400,
        Error::Unauthorized => 401,
        Error::Forbidden => 403,
        Error::NotFound => 404,
        Error::Conflict(_) => 409,
        Error::TooManyRequests => 429,
        Error::DatabaseQueryError => 422,
        Error::InternalServerError => 500,
    }
}

/// The text of a parse failure, as the standard library words it.
pub open spec fn parse_error_text(k: ParseIntError) -> Seq<char> {
    match k {
        ParseIntError::Empty => "cannot parse integer from empty string"@,
        ParseIntError::InvalidDigit => "invalid digit found in string"@,
        ParseIntError::PosOverflow => "number too large to fit in target type"@,
        ParseIntError::NegOverflow => "number too small to fit in target type"@,
    }
}

impl ParseIntError {
    /// The text of this parse failure.
    pub fn to_string(&self) -> (r: String)
        ensures
            r@ == parse_error_text(*self),
    {
        match self {
            ParseIntError::Empty => String::from_str("cannot parse integer from empty string"),
            ParseIntError::InvalidDigit => String::from_str("invalid digit found in string"),
            ParseIntError::PosOverflow => String::from_str(
                "number too large to fit in target type",
            ),
            ParseIntError::NegOverflow => String::from_str(
                "number too small to fit in target type",
            ),
        }
    }
}

/// The text that a request failing with `e` is answered with.
pub open spec fn message_of(e: Error) -> Seq<char> {
    match e {
        Error::ParseError(k) => "Cannot parse parameter: "@ + parse_error_text(k),
        Error::MissingParameters => "Missing parameter"@,
        Error::ValidationError(m) => m@,
        Error::Unauthorized => "Unauthorized"@,
        Error::Forbidden => "Forbidden"@,
        Error::NotFound => "Not found"@,
        Error::Conflict(m) => m@,
        Error::TooManyRequests => "Too many requests"@,
        Error::DatabaseQueryError => "Cannot update, invalid data."@,
        Error::InternalServerError => "Internal server error"@,
    }
}

impl Error {
    /// The text of this error.
    pub fn to_string(&self) -> (r: String)
        ensures
            r@ == message_of(*self),
    {
        match self {
            Error::ParseError(k) => {
                let mut r = String::from_str("Cannot parse parameter: ");
                let t = k.to_string();
                r.append(t.as_str());
                r
            },
            Error::MissingParameters => String::from_str("Missing parameter"),
            Error::ValidationError(m) => m.clone(),
            Error::Unauthorized => String::from_str("Unauthorized"),
            Error::Forbidden => String::from_str("Forbidden"),
            Error::NotFound => String::from_str("Not found"),
            Error::Conflict(m) => m.clone(),
            Error::TooManyRequests => String::from_str("Too many requests"),
            Error::DatabaseQueryError => String::from_str("Cannot update, invalid data."),
            Error::InternalServerError => String::from_str("Internal server error"),
        }
    }
}

/// How a request came to be refused before or while it was handled.
pub enum Rejected {
    /// A handler failed with an error of the service.
    App(Error),
    /// The request broke the CORS policy; the text describes how.
    CorsForbidden(String),
    /// The request body could not be read as JSON of the expected shape; the text says why.
    BodyDeserialize(String),
    /// No route matched the request.
    Unmatched,
}

/// The status and the body text that answer a refused request.
pub open spec fn reply_of(r: Rejected) -> (u16, Seq<char>) {
    match r {
        Rejected::App(e) => (status_of(e), message_of(e)),
        Rejected::CorsForbidden(m) => (403, m@),
        Rejected::BodyDeserialize(m) => (422, m@),
        Rejected::Unmatched => (404, "Route not found"@),
    }
}

/// The status and the body text that answer a refused request.
pub fn return_error(rejected: &Rejected) -> (r: (u16, String))
    ensures
        (r.0, r.1@) == reply_of(*rejected),
{
    match rejected {
        Rejected::App(e) => (status_for_error(e), e.to_string()),
        Rejected::CorsForbidden(m) => (403, m.clone()),
        Rejected::BodyDeserialize(m) => (422, m.clone()),
        Rejected::Unmatched => (404, String::from_str("Route not found")),
    }
}

/// What the database reported when a query failed.
pub enum DbFailure {
    /// A query that must return a row returned none.
    RowNotFound,
    /// The database refused the statement, naming the constraint it broke, if any.
    Database { constraint: Option<String> },
    /// Any other failure (connection, protocol, decoding).
    Other,
}

/// The error that a failed query becomes: a missing row is `NotFound`, a clash
/// with the unique user name is a `Conflict`, anything else a `DatabaseQueryError`.
pub fn map_db_error(failure: DbFailure) -> (r: Error)
    ensures
        match failure {
            DbFailure::RowNotFound => r == Error::NotFound,
            DbFailure::Database { constraint: Some(c) } => if c@ == "users_username_key"@ {
                r matches Error::Conflict(m) && m@ == "username already taken"@
            } else {
                r == Error::DatabaseQueryError
            },
            _ => r == Error::DatabaseQueryError,
        },
{
    match failure {
        DbFailure::RowNotFound => Error::NotFound,
        DbFailure::Database { constraint: Some(c) } => {
            if str_eq(c.as_str(), "users_username_key") {
                Error::Conflict(String::from_str("username already taken"))
            } else {
                Error::DatabaseQueryError
            }
        },
        _ => Error::DatabaseQueryError,
    }
}

/// Every refused request is answered with a client or server error status.
pub proof fn lemma_refusals_are_errors(rejected: Rejected)
    ensures
        400 <= reply_of(rejected).0 <= 599,
{
}

/// The reply to a handler's error carries that error's status and text, and
/// the status says which kind of failure it was: 400 for a bad request, 401
/// without valid credentials or session, 403 for someone else's content, 404
/// for a missing resource, 409 for a clash, 422 for a refused query, 429 when
/// rate limited, 500 for unreadable stored data.
pub proof fn lemma_handler_error_reply(e: Error)
    ensures
        reply_of(Rejected::App(e)).0 == status_of(e),
        reply_of(Rejected::App(e)).1 == message_of(e),
        status_of(e) == match e {
            Error::ParseError(_) => 400u16,
            Error::MissingParameters => 400u16,
            Error::ValidationError(_) => 400u16,
            Error::Unauthorized => 401u16,
            Error::Forbidden => 403u16,
            Error::NotFound => 404u16,
            Error::Conflict(_) => 409u16,
            Error::DatabaseQueryError => 422u16,
            Error::TooManyRequests => 429u16,
            Error::InternalServerError => 500u16,
        },
{
}

} // verus!
