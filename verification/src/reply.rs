//! Replies to requests that fail.

use vstd::prelude::*;
use vstd::string::*;

verus! {

/// An HTTP status with a message.
pub struct ErrorReply {
    pub status: u16,
    pub error: String,
}

/// What an [`ErrorReply`] says.
pub struct ErrorText {
    pub status: u16,
    pub error: Seq<char>,
}

impl View for ErrorReply {
    type V = ErrorText;

    open spec fn view(&self) -> ErrorText {
        ErrorText { status: self.status, error: self.error@ }
    }
}

/// The reply to a request that the caller got wrong.
pub open spec fn bad_request_text(error: Seq<char>) -> ErrorText {
    ErrorText { status: 400, error }
}

/// The reply to a request for something that does not exist.
pub open spec fn not_found_text(error: Seq<char>) -> ErrorText {
    ErrorText { status: 404, error }
}

/// The reply to a request that failed on the server's side.
pub open spec fn internal_error_text(error: Seq<char>) -> ErrorText {
    ErrorText { status: 500, error }
}

/// A `400 Bad Request` reply.
pub fn bad_request(error: String) -> (r: ErrorReply)
    ensures
        r@ == bad_request_text(error@),
{
    ErrorReply { status: 400, error }
}

/// A `404 Not Found` reply.
pub fn not_found(error: String) -> (r: ErrorReply)
    ensures
        r@ == not_found_text(error@),
{
    ErrorReply { status: 404, error }
}

/// A `500 Internal Server Error` reply.
pub fn internal_error(error: String) -> (r: ErrorReply)
    ensures
        r@ == internal_error_text(error@),
{
    ErrorReply { status: 500, error }
}

/// The outcome of an operation on the server's side, as a reply.
pub fn or_internal_error<T>(outcome: Result<T, String>) -> (r: Result<T, ErrorReply>)
    ensures
        match outcome {
            Ok(value) => r == Ok::<T, ErrorReply>(value),
            Err(error) => r is Err && r->Err_0@ == internal_error_text(error@),
        },
{
    match outcome {
        Ok(value) => Ok(value),
        Err(error) => Err(internal_error(error)),
    }
}

/// The outcome of reading a value out of a request, as a reply.
pub fn or_bad_request<T>(outcome: Result<T, String>) -> (r: Result<T, ErrorReply>)
    ensures
        match outcome {
            Ok(value) => r == Ok::<T, ErrorReply>(value),
            Err(error) => r is Err && r->Err_0@ == bad_request_text(error@),
        },
{
    match outcome {
        Ok(value) => Ok(value),
        Err(error) => Err(bad_request(error)),
    }
}

/// A reply carries the status of its kind and the whole message.
pub proof fn law_replies_carry_status_and_message(error: Seq<char>)
    ensures
        bad_request_text(error).status == 400,
        not_found_text(error).status == 404,
        internal_error_text(error).status == 500,
        bad_request_text(error).error == error,
        not_found_text(error).error == error,
        internal_error_text(error).error == error,
{
}

} // verus!
