use key_cycle_proxy::config::ApiKeyInfo;
use key_cycle_proxy::dispatch::HttpMethod;
use key_cycle_proxy::engine::{
    note_outcome, run_engine, AttemptState, EngineAction, ForwardOutcome, ProxyEngine,
};
use key_cycle_proxy::error::ProxyError;
use key_cycle_proxy::pool::KeyPool;

fn create_test_key(id: &str, models: Vec<&str>) -> ApiKeyInfo {
    ApiKeyInfo {
        key: format!("test-key-{}", id),
        url: format!("https://api-{}.example.com", id),
        models: models.into_iter().map(String::from).collect(),
    }
}

fn test_engine(keys: Vec<ApiKeyInfo>, strategy: &str, max_retries: u32) -> ProxyEngine {
    ProxyEngine::new(KeyPool::new(keys, strategy), max_retries)
}

#[test]
fn test_extract_model_from_body() {
    let keys = vec![create_test_key("1", vec!["gpt-3.5-turbo"])];
    let engine = test_engine(keys, "round_robin", 3);

    let body = r#"{"model": "gpt-3.5-turbo", "messages": []}"#;
    let model = engine.extract_model_from_body(body.as_bytes()).unwrap();
    assert_eq!(model, "gpt-3.5-turbo");

    let result = engine.extract_model_from_body(b"invalid json");
    assert!(result.is_err());
}

#[test]
fn test_openai_request_parsing() {
    let json_str = r#"{
        "model": "gpt-3.5-turbo",
        "messages": [
            {"role": "user", "content": "Hello"}
        ],
        "temperature": 0.7,
        "max_tokens": 150
    }"#;

    let keys = vec![create_test_key("1", vec!["others"])];
    let engine = test_engine(keys, "round_robin", 3);
    let model = engine.extract_model_from_body(json_str.as_bytes()).unwrap();
    assert_eq!(model, "gpt-3.5-turbo");
}

#[test]
fn test_openai_request_minimal() {
    let json_str = r#"{"model": "gpt-4"}"#;
    let keys = vec![create_test_key("1", vec!["others"])];
    let engine = test_engine(keys, "round_robin", 3);
    let model = engine.extract_model_from_body(json_str.as_bytes()).unwrap();
    assert_eq!(model, "gpt-4");
}

#[test]
fn test_json_error_handling() {
    let invalid_json = "{ invalid json }";
    let keys = vec![create_test_key("1", vec!["others"])];
    let engine = test_engine(keys, "round_robin", 3);
    let result = engine.extract_model_from_body(invalid_json.as_bytes());
    assert!(result.is_err());
    let err = result.unwrap_err();
    assert!(matches!(err, ProxyError::InvalidJson { .. }));
    assert_eq!(err.status_code(), 400);
    assert!(err.message().contains("Invalid JSON"));
}

#[test]
fn test_proxy_engine_creation() {
    let keys = vec![create_test_key("1", vec!["gpt-3.5-turbo"])];
    let engine = test_engine(keys, "round_robin", 3);
    assert_eq!(engine.max_retries(), 3);
}

#[test]
fn test_routing_model_non_post_uses_others() {
    let keys = vec![create_test_key("1", vec!["others"])];
    let engine = test_engine(keys, "round_robin", 3);

    let model = engine.routing_model(&HttpMethod::Get, b"").unwrap();
    assert_eq!(model, "others");

    let model = engine.routing_model(&HttpMethod::Post, b"").unwrap();
    assert_eq!(model, "others");

    let model = engine
        .routing_model(&HttpMethod::Post, br#"{"model":"gpt-4"}"#)
        .unwrap();
    assert_eq!(model, "gpt-4");

    let err = engine.routing_model(&HttpMethod::Post, b"not json");
    assert!(matches!(err, Err(ProxyError::InvalidJson { .. })));
}

#[test]
fn test_happy_path_single_call() {
    let (calls, result) = run_engine(vec![ForwardOutcome::Delivered { status: 200 }], 0);
    assert_eq!(calls, 1);
    assert_eq!(result.unwrap(), 200);
}

#[test]
fn test_rotate_on_rate_limit_two_calls() {
    let outcomes = vec![
        ForwardOutcome::Delivered { status: 429 },
        ForwardOutcome::Delivered { status: 200 },
        ForwardOutcome::Delivered { status: 200 },
    ];
    let (calls, result) = run_engine(outcomes, 2);
    assert_eq!(calls, 2);
    assert_eq!(result.unwrap(), 200);
}

#[test]
fn test_exhaustion_three_calls() {
    let outcomes = vec![
        ForwardOutcome::Delivered { status: 429 },
        ForwardOutcome::Delivered { status: 429 },
        ForwardOutcome::Delivered { status: 429 },
    ];
    let (calls, result) = run_engine(outcomes, 2);
    assert_eq!(calls, 3);
    let err = result.unwrap_err();
    assert_eq!(err.status_code(), 502);
}

#[test]
fn test_non_rotate_status_is_returned() {
    let outcomes = vec![
        ForwardOutcome::Delivered { status: 404 },
        ForwardOutcome::Delivered { status: 200 },
    ];
    let (calls, result) = run_engine(outcomes, 1);
    assert_eq!(calls, 1);
    assert_eq!(result.unwrap(), 404);
}

#[test]
fn test_transport_failure_then_success() {
    let outcomes = vec![
        ForwardOutcome::Failed {
            error: ProxyError::Timeout,
        },
        ForwardOutcome::Delivered { status: 200 },
    ];
    let (calls, result) = run_engine(outcomes, 1);
    assert_eq!(calls, 2);
    assert_eq!(result.unwrap(), 200);
}

#[test]
fn test_note_outcome_steps() {
    let mut state = AttemptState::new();
    let action = note_outcome(&mut state, ForwardOutcome::Delivered { status: 200 }, 2);
    assert!(matches!(action, EngineAction::Respond { status: 200 }));
    assert_eq!(state.attempts_used, 0);
    assert!(!state.use_next);

    let action = note_outcome(&mut state, ForwardOutcome::Delivered { status: 429 }, 2);
    assert!(matches!(action, EngineAction::RetryNext));
    assert_eq!(state.attempts_used, 1);
    assert!(state.use_next);
    assert!(matches!(
        state.last_error,
        Some(ProxyError::UpstreamHttpError { status: 429 })
    ));
}

#[test]
fn test_select_for_model_then_rotate() {
    let keys = vec![
        create_test_key("a", vec!["gpt-3.5-turbo"]),
        create_test_key("b", vec!["others"]),
    ];
    let mut engine = test_engine(keys, "round_robin", 2);

    let first = engine.select_attempt_key(false, "gpt-3.5-turbo").unwrap();
    assert_eq!(first, 0);

    let second = engine.select_attempt_key(true, "gpt-3.5-turbo").unwrap();
    assert_eq!(second, 1);
}

#[test]
fn test_route_by_model_to_others() {
    let keys = vec![
        create_test_key("a", vec!["gpt-3.5-turbo"]),
        create_test_key("b", vec!["others"]),
    ];
    let mut engine = test_engine(keys, "round_robin", 2);

    let picked = engine.select_attempt_key(false, "llama-2").unwrap();
    assert_eq!(picked, 1);
    let picked = engine.select_attempt_key(false, "llama-2").unwrap();
    assert_eq!(picked, 1);
}

#[test]
fn test_no_key_available_error() {
    let keys = vec![create_test_key("a", vec!["gpt-4"])];
    let mut engine = test_engine(keys, "round_robin", 2);

    let err = engine.select_attempt_key(false, "llama-2").unwrap_err();
    match &err {
        ProxyError::NoKeyAvailable { model } => assert_eq!(model, "llama-2"),
        other => panic!("unexpected error: {:?}", other),
    }
    assert_eq!(err.status_code(), 500);
}
