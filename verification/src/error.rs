//! The error taxonomy that the request handlers share.
//!
//! A cancelled query must stay distinguishable from a genuine failure all the
//! way to the client: a kill issued by the registry surfaces as a dedicated
//! "no content" status, never as the status of a generic server error, so a
//! client can tell "a newer request of yours superseded this one" apart from
//! "something broke".

use vstd::prelude::*;

use crate::models::BreakdownTypeParseError;
use crate::reaper::Message;
use tokio::sync::mpsc::error::SendError;

verus! {

/// tokio's error for a send on a channel whose receiving side is gone; it
/// hands the unsent value back.
#[verifier::external_type_specification]
#[verifier::external_body]
#[verifier::reject_recursive_types(T)]
pub struct ExSendError<T>(SendError<T>);

/// One of the failure modes a request handler can report.
#[derive(Clone, Copy, Debug, PartialEq, Eq, Structural)]
pub enum AppError {
    /// A generic, unrecoverable error: the client sees an error banner and
    /// must reload.
    GenericError,
    /// Every connection of the database pool is in use: a distinct, retryable
    /// service-busy condition.
    ConnectionPoolError,
    /// The handler's query was killed by the registry. This is the silent
    /// outcome of a user superseding or abandoning a search, not a failure.
    Cancelled,
}

impl AppError {
    /// The HTTP status code that a response carrying this error must use.
    pub open spec fn spec_status_code(self) -> u16 {
        match self {
            AppError::GenericError => 500,
            AppError::ConnectionPoolError => 503,
            AppError::Cancelled => 204,
        }
    }

    /// Returns the HTTP status code for this error: a cancelled query answers
    /// with 204 (no content), pool exhaustion with 503 (service unavailable),
    /// and anything else with 500 (internal server error).
    pub fn status_code(&self) -> (code: u16)
        ensures
            code == self.spec_status_code(),
    {
        match self {
            AppError::GenericError => 500,
            AppError::ConnectionPoolError => 503,
            AppError::Cancelled => 204,
        }
    }

    /// The message that a response carrying this error must show.
    pub open spec fn spec_message(self) -> Seq<char> {
        match self {
            AppError::GenericError => "something went wrong - please refresh the page and try again"@,
            AppError::ConnectionPoolError => "our servers are very busy - please try again later"@,
            AppError::Cancelled => "request cancelled"@,
        }
    }

    /// Returns the user-facing message for this error.
    pub fn message(&self) -> (text: String)
        ensures
            text@ == self.spec_message(),
    {
        match self {
            AppError::GenericError => {
                "something went wrong - please refresh the page and try again".to_owned()
            },
            AppError::ConnectionPoolError => {
                "our servers are very busy - please try again later".to_owned()
            },
            AppError::Cancelled => "request cancelled".to_owned(),
        }
    }
}

impl From<BreakdownTypeParseError> for AppError {
    /// A request naming an unknown breakdown type is malformed: it surfaces
    /// as the generic error.
    fn from(_parse_error: BreakdownTypeParseError) -> (error: AppError) {
        AppError::GenericError
    }
}

impl vstd::std_specs::convert::FromSpecImpl<BreakdownTypeParseError> for AppError {
    open spec fn obeys_from_spec() -> bool {
        true
    }

    open spec fn from_spec(_parse_error: BreakdownTypeParseError) -> AppError {
        AppError::GenericError
    }
}

impl From<SendError<Message>> for AppError {
    /// A message that cannot reach the reaper is a generic failure for the
    /// handler, which must still run or cancel its query — merely untracked.
    fn from(_send_error: SendError<Message>) -> (error: AppError) {
        AppError::GenericError
    }
}

impl vstd::std_specs::convert::FromSpecImpl<SendError<Message>> for AppError {
    open spec fn obeys_from_spec() -> bool {
        true
    }

    open spec fn from_spec(_send_error: SendError<Message>) -> AppError {
        AppError::GenericError
    }
}

} // verus!
