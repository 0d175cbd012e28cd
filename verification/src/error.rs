//! The errors that the API answers with.

use vstd::prelude::*;

verus! {

/// The class of an API error; each maps to one HTTP status.
#[derive(Clone, Copy, Debug, PartialEq, Eq)]
pub enum ErrorKind {
    /// 400: the request is malformed or breaks a rule.
    BadRequest,
    /// 401: missing or unknown API key.
    Unauthorized,
    /// 404: the agent or matchup does not exist.
    NotFound,
    /// 409: the name is taken, or the vote was already cast.
    Conflict,
    /// 429: the key used up its rate limit; the client may retry after
    /// `retry_after` seconds (sent as the `Retry-After` header).
    TooManyRequests { retry_after: u64 },
    /// 500: the store failed.
    Internal,
}

/// An API error: its class and the human-readable message sent back as
/// `{ "error": message }`.
#[derive(Debug)]
pub struct ApiError {
    pub kind: ErrorKind,
    pub message: String,
}

impl View for ApiError {
    type V = (ErrorKind, Seq<char>);

    open spec fn view(&self) -> (ErrorKind, Seq<char>) {
        (self.kind, self.message@)
    }
}

impl ApiError {
    /// A 400 error with the given message.
    pub fn bad_request(message: String) -> (e: ApiError)
        ensures
            e@ == (ErrorKind::BadRequest, message@),
    {
        ApiError { kind: ErrorKind::BadRequest, message }
    }

    /// The 401 error: "Missing or invalid API key".
    pub fn unauthorized() -> (e: ApiError)
        ensures
            e@ == (ErrorKind::Unauthorized, "Missing or invalid API key"@),
    {
        ApiError { kind: ErrorKind::Unauthorized, message: String::from_str("Missing or invalid API key") }
    }

    /// A 404 error with the given message.
    pub fn not_found(message: String) -> (e: ApiError)
        ensures
            e@ == (ErrorKind::NotFound, message@),
    {
        ApiError { kind: ErrorKind::NotFound, message }
    }

    /// A 409 error with the given message.
    pub fn conflict(message: String) -> (e: ApiError)
        ensures
            e@ == (ErrorKind::Conflict, message@),
    {
        ApiError { kind: ErrorKind::Conflict, message }
    }

    /// The 429 error: "Rate limit exceeded", retry after `retry_after` seconds.
    pub fn rate_limited(retry_after: u64) -> (e: ApiError)
        ensures
            e@ == (ErrorKind::TooManyRequests { retry_after }, "Rate limit exceeded"@),
    {
        ApiError {
            kind: ErrorKind::TooManyRequests { retry_after },
            message: String::from_str("Rate limit exceeded"),
        }
    }

    /// The answer to a failed store operation that no handler maps itself:
    /// a violated uniqueness constraint is a 409 "Already exists", anything
    /// else a 500 carrying the store's description.
    pub fn store_failure(unique_violation: bool, detail: &str) -> (e: ApiError)
        ensures
            e@ == if unique_violation {
                (ErrorKind::Conflict, "Already exists"@)
            } else {
                (ErrorKind::Internal, "Database error: "@ + detail@)
            },
    {
        if unique_violation {
            ApiError::conflict(String::from_str("Already exists"))
        } else {
            let mut message = String::from_str("Database error: ");
            message.append(detail);
            ApiError { kind: ErrorKind::Internal, message }
        }
    }
}

} // verus!
