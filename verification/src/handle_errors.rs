//! The closed set of failures and the reply that each one becomes.
//!
//! Every failure that the catalogue itself reports is answered with status
//! 422; a request from a forbidden origin with 403; a request that no route
//! matches with 404.

use vstd::prelude::*;
use vstd::string::StringExecFns;
use crate::reply::{text_reply, Reply, ReplyView, FORBIDDEN, NOT_FOUND, UNPROCESSABLE_ENTITY};

verus! {

/// Why a numeral could not be read as an unsigned integer.
#[derive(Debug, Clone, Copy, PartialEq, Eq, Structural)]
pub enum ParseFailure {
    /// The text was empty.
    Empty,
    /// The text holds a character that is no decimal digit, or a sign alone.
    InvalidDigit,
    /// The digits denote a number beyond the largest index.
    PosOverflow,
}

impl ParseFailure {
    /// The text shown for this failure.
    pub open spec fn message(self) -> Seq<char> {
        match self {
            ParseFailure::Empty => "cannot parse integer from empty string"@,
            ParseFailure::InvalidDigit => "invalid digit found in string"@,
            ParseFailure::PosOverflow => "number too large to fit in target type"@,
        }
    }

    /// Renders the failure as text.
    pub fn to_string(&self) -> (text: String)
        ensures
            text@ == self.message(),
    {
        match self {
            ParseFailure::Empty => "cannot parse integer from empty string".to_string(),
            ParseFailure::InvalidDigit => "invalid digit found in string".to_string(),
            ParseFailure::PosOverflow => "number too large to fit in target type".to_string(),
        }
    }
}

/// A failure that the catalogue reports.
#[derive(Debug, Clone, Copy, PartialEq, Eq, Structural)]
pub enum CustomError {
    /// A pagination numeral failed to parse.
    ParseError(ParseFailure),
    /// One of a required pair of parameters is absent.
    MissingParameters,
    /// The question that was looked up, updated or deleted does not exist.
    QuestionNotFound,
    /// The persistence layer refused an operation.
    DatabaseQueryError,
    /// The requested range reaches beyond the listing.
    OutOfBound,
}

impl CustomError {
    /// The text shown to the client for this failure.
    pub open spec fn message(self) -> Seq<char> {
        match self {
            CustomError::ParseError(failure) => "Cannot parse parameter: "@ + failure.message(),
            CustomError::MissingParameters => "Missing parameter"@,
            CustomError::QuestionNotFound => "Question not found"@,
            CustomError::DatabaseQueryError => "Cannot update, invalid data."@,
            CustomError::OutOfBound => "Out of bound. The index end is out of range."@,
        }
    }

    /// Renders the failure as the text shown to the client.
    pub fn to_string(&self) -> (text: String)
        ensures
            text@ == self.message(),
    {
        match self {
            CustomError::ParseError(failure) => {
                let detail = failure.to_string();
                "Cannot parse parameter: ".to_string().concat(detail.as_str())
            },
            CustomError::MissingParameters => "Missing parameter".to_string(),
            CustomError::QuestionNotFound => "Question not found".to_string(),
            CustomError::DatabaseQueryError => "Cannot update, invalid data.".to_string(),
            CustomError::OutOfBound => "Out of bound. The index end is out of range.".to_string(),
        }
    }
}

/// What a rejected request carries: at most one failure of the catalogue,
/// and the texts of the two failures that the transport itself can raise.
#[derive(Debug)]
pub struct Rejection {
    /// The failure that a handler reported, if any.
    pub custom: Option<CustomError>,
    /// The transport's text for a forbidden cross-origin request, if it was one.
    pub cors_forbidden: Option<String>,
    /// The transport's text for a body that could not be read, if there was one.
    pub body_error: Option<String>,
}

/// The reply that a rejection becomes. A failure of the persistence layer
/// comes first, then a forbidden origin, then an unreadable body, then any
/// other failure of the catalogue; a rejection that carries none of these
/// found no route.
pub open spec fn rejection_reply(r: Rejection) -> ReplyView {
    if r.custom == Some(CustomError::DatabaseQueryError) {
        text_reply(UNPROCESSABLE_ENTITY, CustomError::DatabaseQueryError.message())
    } else if let Some(text) = r.cors_forbidden {
        text_reply(FORBIDDEN, text@)
    } else if let Some(text) = r.body_error {
        text_reply(UNPROCESSABLE_ENTITY, text@)
    } else if let Some(error) = r.custom {
        text_reply(UNPROCESSABLE_ENTITY, error.message())
    } else {
        text_reply(NOT_FOUND, "Route not found"@)
    }
}

/// Turns a rejection into the reply that the client receives.
pub fn return_error(r: Rejection) -> (reply: Reply)
    ensures
        reply@ == rejection_reply(r),
{
    let Rejection { custom, cors_forbidden, body_error } = r;
    if let Some(CustomError::DatabaseQueryError) = custom {
        return Reply::text(UNPROCESSABLE_ENTITY, CustomError::DatabaseQueryError.to_string());
    }
    if let Some(text) = cors_forbidden {
        return Reply::text(FORBIDDEN, text);
    }
    if let Some(text) = body_error {
        return Reply::text(UNPROCESSABLE_ENTITY, text);
    }
    match custom {
        Some(error) => Reply::text(UNPROCESSABLE_ENTITY, error.to_string()),
        None => Reply::text(NOT_FOUND, "Route not found".to_string()),
    }
}

} // verus!
