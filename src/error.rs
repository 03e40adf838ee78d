//! Request failures and the structured bodies that report them.
use vstd::prelude::*;

verus! {

/// The body of a failure response: one human-readable message.
#[derive(Clone, Debug)]
pub struct ErrorResponse {
    pub error: String,
}

/// A failure response: its status code and its body.
#[derive(Clone, Debug)]
pub struct ErrorReply {
    pub status: u16,
    pub body: ErrorResponse,
}

/// Builds the failure response with the given status and message.
pub fn error_response(status: u16, message: &str) -> (r: ErrorReply)
    ensures
        r.status == status,
        r.body.error@ == message@,
{
    ErrorReply { status, body: ErrorResponse { error: String::from_str(message) } }
}

/// The kinds of failure a request can meet.
#[derive(Clone, Copy, Debug, PartialEq, Eq, Structural)]
pub enum ApiError {
    /// Missing, malformed or expired credentials, all alike to the caller.
    AuthenticationRequired,
    /// No stored file backs the requested track.
    TrackNotFound,
    /// The track directory holds no track.
    NoTracks,
    /// The request body is not the expected JSON document.
    MalformedRequest,
    /// The requested byte range starts at or past the end of the resource.
    RangeNotSatisfiable,
    /// A filesystem failure after the request was admitted.
    Internal,
}

impl ApiError {
    pub open spec fn spec_status(self) -> u16 {
        match self {
            ApiError::AuthenticationRequired => 401,
            ApiError::TrackNotFound => 404,
            ApiError::NoTracks => 404,
            ApiError::MalformedRequest => 400,
            ApiError::RangeNotSatisfiable => 416,
            ApiError::Internal => 500,
        }
    }

    pub open spec fn spec_message(self) -> Seq<char> {
        match self {
            ApiError::AuthenticationRequired => "Authentication required"@,
            ApiError::TrackNotFound => "Track not found"@,
            ApiError::NoTracks => "No tracks found"@,
            ApiError::MalformedRequest => "Invalid request body"@,
            ApiError::RangeNotSatisfiable => "Range not satisfiable"@,
            ApiError::Internal => "Internal server error"@,
        }
    }

    /// The HTTP status code that reports this failure.
    pub fn status(&self) -> (r: u16)
        ensures
            r == self.spec_status(),
    {
        match self {
            ApiError::AuthenticationRequired => 401,
            ApiError::TrackNotFound => 404,
            ApiError::NoTracks => 404,
            ApiError::MalformedRequest => 400,
            ApiError::RangeNotSatisfiable => 416,
            ApiError::Internal => 500,
        }
    }

    /// The message carried in the failure body.
    pub fn message(&self) -> (r: &'static str)
        ensures
            r@ == self.spec_message(),
    {
        match self {
            ApiError::AuthenticationRequired => "Authentication required",
            ApiError::TrackNotFound => "Track not found",
            ApiError::NoTracks => "No tracks found",
            ApiError::MalformedRequest => "Invalid request body",
            ApiError::RangeNotSatisfiable => "Range not satisfiable",
            ApiError::Internal => "Internal server error",
        }
    }

    /// The failure response that reports this failure.
    pub fn reply(&self) -> (r: ErrorReply)
        ensures
            r.status == self.spec_status(),
            r.body.error@ == self.spec_message(),
    {
        error_response(self.status(), self.message())
    }
}

} // verus!
