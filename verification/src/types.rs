//! Wire-facing record types: the JSON error envelope and the shape of an
//! OpenAI-style error payload.

use vstd::prelude::*;

verus! {

/// The body of every error response: `{"error": "<message>"}`.
pub struct ErrorResponse {
    pub error: String,
}

impl ErrorResponse {
    pub fn new(message: String) -> (r: Self)
        ensures
            r.error@ == message@,
    {
        ErrorResponse { error: message }
    }
}

/// An error payload as OpenAI-compatible upstreams shape it.
pub struct OpenAIError {
    pub error: OpenAIErrorDetails,
}

pub struct OpenAIErrorDetails {
    pub message: String,
    pub error_type: Option<String>,
    pub code: Option<String>,
}

} // verus!
