//! The error taxonomy of the proxy, the HTTP status each kind surfaces as,
//! and the human-readable message rendered into the JSON error envelope.

use vstd::prelude::*;
use vstd::string::StringExecFns;

verus! {

/// The class of a failed upstream transport attempt, as the HTTP client
/// reported it.
#[derive(Debug, Clone, Copy, PartialEq, Eq, Structural)]
pub enum TransportErrorKind {
    /// The connection could not be established.
    Connect,
    /// The transport reported a timeout.
    TimedOut,
    /// The request could not be constructed or sent.
    RequestBuild,
    /// Any other transport-level failure.
    Other,
}

#[derive(Debug)]
pub enum ProxyError {
    /// No credential matches the requested model and none carries the
    /// `"others"` sentinel.
    NoKeyAvailable { model: String },
    NoKeyFound,
    InvalidApiKey,
    /// The last upstream response carried a rotate-worthy status.
    UpstreamHttpError { status: u16 },
    /// The upstream transport failed; `detail` is the transport's own text.
    UpstreamFailed { kind: TransportErrorKind, detail: String },
    /// Every attempt exceeded the per-attempt deadline.
    Timeout,
    RateLimited,
    /// The request body was not JSON, or had no string `model` field.
    InvalidJson { detail: String },
    PayloadTooLarge,
    MethodNotAllowed,
    AllRetriesExhausted,
    Internal { message: String },
}

impl ProxyError {
    pub fn internal(message: String) -> (r: Self)
        ensures
            r == (ProxyError::Internal { message }),
    {
        ProxyError::Internal { message }
    }

    /// The HTTP status this error surfaces as at the downstream edge.
    pub open spec fn spec_status_code(self) -> u16 {
        match self {
            ProxyError::NoKeyAvailable { .. } => 500,
            ProxyError::NoKeyFound => 500,
            ProxyError::InvalidApiKey => 500,
            ProxyError::UpstreamHttpError { .. } => 502,
            ProxyError::UpstreamFailed { kind, .. } => if kind is TimedOut {
                504
            } else {
                502
            },
            ProxyError::Timeout => 504,
            ProxyError::RateLimited => 429,
            ProxyError::InvalidJson { .. } => 400,
            ProxyError::PayloadTooLarge => 413,
            ProxyError::MethodNotAllowed => 405,
            ProxyError::AllRetriesExhausted => 502,
            ProxyError::Internal { .. } => 500,
        }
    }

    pub fn status_code(&self) -> (r: u16)
        ensures
            r == self.spec_status_code(),
    {
        match self {
            ProxyError::NoKeyAvailable { .. } => 500,
            ProxyError::NoKeyFound => 500,
            ProxyError::InvalidApiKey => 500,
            ProxyError::UpstreamHttpError { .. } => 502,
            ProxyError::UpstreamFailed { kind, .. } => match kind {
                TransportErrorKind::TimedOut => 504,
                _ => 502,
            },
            ProxyError::Timeout => 504,
            ProxyError::RateLimited => 429,
            ProxyError::InvalidJson { .. } => 400,
            ProxyError::PayloadTooLarge => 413,
            ProxyError::MethodNotAllowed => 405,
            ProxyError::AllRetriesExhausted => 502,
            ProxyError::Internal { .. } => 500,
        }
    }

    /// The message rendered into the `{"error": "<message>"}` envelope.
    pub open spec fn spec_message(self) -> Seq<char> {
        match self {
            ProxyError::NoKeyAvailable { model } => "No API key available for model '"@ + model@
                + "'"@,
            ProxyError::NoKeyFound => "No API key found"@,
            ProxyError::InvalidApiKey => "Invalid API key"@,
            ProxyError::UpstreamHttpError { status } => "Upstream request failed: status "@
                + crate::text::spec_decimal(status as int),
            ProxyError::UpstreamFailed { detail, .. } => "Upstream request failed: "@ + detail@,
            ProxyError::Timeout => "Request timeout"@,
            ProxyError::RateLimited => "Rate limit exceeded"@,
            ProxyError::InvalidJson { detail } => "Invalid JSON payload: "@ + detail@,
            ProxyError::PayloadTooLarge => "Request body too large"@,
            ProxyError::MethodNotAllowed => "Method not allowed"@,
            ProxyError::AllRetriesExhausted => "All retries exhausted"@,
            ProxyError::Internal { message } => "Internal server error: "@ + message@,
        }
    }

    pub fn message(&self) -> (r: String)
        ensures
            r@ == self.spec_message(),
    {
        match self {
            ProxyError::NoKeyAvailable { model } => {
                let mut s = String::new();
                s.append("No API key available for model '");
                s.append(model.as_str());
                s.append("'");
                s
            },
            ProxyError::NoKeyFound => "No API key found".to_owned(),
            ProxyError::InvalidApiKey => "Invalid API key".to_owned(),
            ProxyError::UpstreamHttpError { status } => {
                let mut s = String::new();
                s.append("Upstream request failed: status ");
                crate::text::append_u16_decimal(&mut s, *status);
                s
            },
            ProxyError::UpstreamFailed { detail, .. } => {
                let mut s = String::new();
                s.append("Upstream request failed: ");
                s.append(detail.as_str());
                s
            },
            ProxyError::Timeout => "Request timeout".to_owned(),
            ProxyError::RateLimited => "Rate limit exceeded".to_owned(),
            ProxyError::InvalidJson { detail } => {
                let mut s = String::new();
                s.append("Invalid JSON payload: ");
                s.append(detail.as_str());
                s
            },
            ProxyError::PayloadTooLarge => "Request body too large".to_owned(),
            ProxyError::MethodNotAllowed => "Method not allowed".to_owned(),
            ProxyError::AllRetriesExhausted => "All retries exhausted".to_owned(),
            ProxyError::Internal { message } => {
                let mut s = String::new();
                s.append("Internal server error: ");
                s.append(message.as_str());
                s
            },
        }
    }
}

} // verus!
