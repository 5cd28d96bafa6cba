use key_cycle_proxy::dispatch::{admit_request, health_body, validate_status, HttpMethod};
use key_cycle_proxy::error::ProxyError;

#[test]
fn test_health_check() {
    assert_eq!(health_body(), "OK");
}

#[test]
fn test_method_not_allowed() {
    let err = admit_request(&HttpMethod::Get, 0, 262_144).unwrap_err();
    assert!(matches!(err, ProxyError::MethodNotAllowed));
    assert_eq!(err.status_code(), 405);
    assert_eq!(err.message(), "Method not allowed");

    for m in [
        HttpMethod::Put,
        HttpMethod::Delete,
        HttpMethod::Head,
        HttpMethod::Options,
        HttpMethod::Patch,
        HttpMethod::Trace,
        HttpMethod::Other,
    ] {
        assert!(admit_request(&m, 0, 262_144).is_err());
    }
}

#[test]
fn test_payload_too_large() {
    let err = admit_request(&HttpMethod::Post, 262_145, 262_144).unwrap_err();
    assert!(matches!(err, ProxyError::PayloadTooLarge));
    assert_eq!(err.status_code(), 413);

    assert!(admit_request(&HttpMethod::Post, 262_144, 262_144).is_ok());
    assert!(admit_request(&HttpMethod::Post, 0, 262_144).is_ok());
}

#[test]
fn test_validate_status_range() {
    assert_eq!(validate_status(200).unwrap(), 200);
    assert_eq!(validate_status(502).unwrap(), 502);
    assert_eq!(validate_status(100).unwrap(), 100);
    assert_eq!(validate_status(999).unwrap(), 999);

    assert!(validate_status(99).is_err());
    assert!(validate_status(1000).is_err());
    let err = validate_status(0).unwrap_err();
    assert_eq!(err.status_code(), 500);
}
