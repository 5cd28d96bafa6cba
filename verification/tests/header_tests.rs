use key_cycle_proxy::headers::{bearer_value, lookup_header, prepare_upstream_headers};

fn pairs(list: &[(&str, &str)]) -> Vec<(String, String)> {
    list.iter()
        .map(|(n, v)| (n.to_string(), v.to_string()))
        .collect()
}

#[test]
fn test_bearer_value_format() {
    assert_eq!(bearer_value("sk-test"), "Bearer sk-test");
    assert_eq!(bearer_value(""), "Bearer ");
}

#[test]
fn test_authorization_always_wins() {
    let incoming = pairs(&[
        ("authorization", "Bearer stolen-token"),
        ("x-custom", "1"),
    ]);
    let out = prepare_upstream_headers(&incoming, "sk-real", true);

    let auth = lookup_header(&out, "authorization").unwrap();
    assert_eq!(auth, "Bearer sk-real");
    assert_eq!(lookup_header(&out, "x-custom").unwrap(), "1");
    for (name, value) in &out {
        if name == "authorization" {
            assert_eq!(value, "Bearer sk-real");
        }
    }
}

#[test]
fn test_content_type_defaults_for_body() {
    let incoming = pairs(&[("accept", "application/json")]);
    let out = prepare_upstream_headers(&incoming, "tok", true);
    assert_eq!(
        lookup_header(&out, "content-type").unwrap(),
        "application/json"
    );

    let out = prepare_upstream_headers(&incoming, "tok", false);
    assert!(lookup_header(&out, "content-type").is_none());
}

#[test]
fn test_incoming_content_type_overrides() {
    let incoming = pairs(&[("content-type", "text/plain")]);
    let out = prepare_upstream_headers(&incoming, "tok", true);
    assert_eq!(lookup_header(&out, "content-type").unwrap(), "text/plain");
}

#[test]
fn test_other_headers_preserved() {
    let incoming = pairs(&[
        ("accept", "text/event-stream"),
        ("x-request-id", "abc-123"),
        ("authorization", "Bearer evil"),
    ]);
    let out = prepare_upstream_headers(&incoming, "good", false);
    assert_eq!(
        lookup_header(&out, "accept").unwrap(),
        "text/event-stream"
    );
    assert_eq!(lookup_header(&out, "x-request-id").unwrap(), "abc-123");
    assert_eq!(lookup_header(&out, "authorization").unwrap(), "Bearer good");
    assert!(lookup_header(&out, "x-missing").is_none());
}

#[test]
fn test_lookup_last_occurrence_wins() {
    let headers = pairs(&[("x-a", "1"), ("x-b", "2"), ("x-a", "3")]);
    assert_eq!(lookup_header(&headers, "x-a").unwrap(), "3");
    assert_eq!(lookup_header(&headers, "x-b").unwrap(), "2");
}
