//! The request dispatcher's admission rules: only POST reaches the
//! forwarding route, bodies are capped, and the health endpoint's body.

use crate::error::ProxyError;
use vstd::prelude::*;

verus! {

/// The incoming request's method, as the HTTP layer reports it.
#[derive(Debug, Clone, Copy, PartialEq, Eq, Structural)]
pub enum HttpMethod {
    Get,
    Post,
    Put,
    Delete,
    Head,
    Options,
    Patch,
    Trace,
    Other,
}

/// Admits a request to the forwarding route: only POST is accepted, and the
/// buffered body must not exceed the configured cap.
pub fn admit_request(method: &HttpMethod, body_len: usize, body_limit: usize) -> (r: Result<
    (),
    ProxyError,
>)
    ensures
        r is Ok <==> (method is Post && body_len <= body_limit),
        !(method is Post) ==> r == Err::<(), ProxyError>(ProxyError::MethodNotAllowed),
        (method is Post && body_len > body_limit) ==> r == Err::<(), ProxyError>(
            ProxyError::PayloadTooLarge,
        ),
{
    if !matches!(method, HttpMethod::Post) {
        return Err(ProxyError::MethodNotAllowed);
    }
    if body_len > body_limit {
        return Err(ProxyError::PayloadTooLarge);
    }
    Ok(())
}

/// The body of a successful `GET /health` response.
pub fn health_body() -> (r: &'static str)
    ensures
        r@ == "OK"@,
{
    "OK"
}

/// Statuses an HTTP response line can carry; the dispatcher refuses to build
/// a response outside this range.
pub fn validate_status(status: u16) -> (r: Result<u16, ProxyError>)
    ensures
        100 <= status < 1000 ==> r == Ok::<u16, ProxyError>(status),
        !(100 <= status < 1000) ==> (r matches Err(e) && e matches ProxyError::Internal { .. }),
{
    if 100 <= status && status < 1000 {
        Ok(status)
    } else {
        Err(ProxyError::internal("invalid upstream status code".to_owned()))
    }
}

} // verus!
