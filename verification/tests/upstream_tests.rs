use key_cycle_proxy::config::UpstreamConfig;
use key_cycle_proxy::error::{ProxyError, TransportErrorKind};
use key_cycle_proxy::upstream::{
    backoff_ms, client_step, run_client, should_retry_error, should_retry_status,
    should_rotate_key, AttemptOutcome, ClientAction,
};

fn create_test_config() -> UpstreamConfig {
    UpstreamConfig {
        base_url: "https://api.openai.com/v1".to_string(),
        connect_timeout_ms: 1000,
        request_timeout_ms: 5000,
        retry_initial_backoff_ms: 100,
        retry_max_backoff_ms: 1000,
        max_retries: 3,
    }
}

#[test]
fn test_should_retry_status() {
    assert!(should_retry_status(429));
    assert!(should_retry_status(502));
    assert!(should_retry_status(503));
    assert!(should_retry_status(504));
    assert!(should_retry_status(418));

    assert!(!should_retry_status(200));
    assert!(!should_retry_status(400));
    assert!(!should_retry_status(401));
    assert!(!should_retry_status(404));
}

#[test]
fn test_should_rotate_key() {
    assert!(should_rotate_key(429));
    assert!(should_rotate_key(502));
    assert!(should_rotate_key(400));
    assert!(should_rotate_key(418));

    assert!(!should_rotate_key(200));
    assert!(!should_rotate_key(201));
    assert!(!should_rotate_key(404));
}

#[test]
fn test_should_retry_error_classes() {
    assert!(should_retry_error(&TransportErrorKind::Connect));
    assert!(should_retry_error(&TransportErrorKind::TimedOut));
    assert!(should_retry_error(&TransportErrorKind::RequestBuild));
    assert!(!should_retry_error(&TransportErrorKind::Other));
}

#[test]
fn test_backoff_doubles_and_clamps() {
    assert_eq!(backoff_ms(50, 2000, 0), 50);
    assert_eq!(backoff_ms(50, 2000, 1), 100);
    assert_eq!(backoff_ms(50, 2000, 2), 200);
    assert_eq!(backoff_ms(50, 2000, 5), 1600);
    assert_eq!(backoff_ms(50, 2000, 6), 2000);
    assert_eq!(backoff_ms(50, 2000, 63), 2000);
    assert_eq!(backoff_ms(50, 2000, 200), 2000);
    assert_eq!(backoff_ms(0, 2000, 5), 0);
}

#[test]
fn test_client_step_retryable_status_sleeps() {
    let config = create_test_config();
    let action = client_step(&config, 0, AttemptOutcome::Response { status: 503 });
    assert!(matches!(action, ClientAction::Sleep { wait_ms: 100 }));

    let action = client_step(&config, 1, AttemptOutcome::Response { status: 503 });
    assert!(matches!(action, ClientAction::Sleep { wait_ms: 200 }));
}

#[test]
fn test_client_step_delivers_first_non_retryable() {
    let config = create_test_config();
    let action = client_step(&config, 0, AttemptOutcome::Response { status: 200 });
    assert!(matches!(action, ClientAction::Deliver { status: 200 }));

    let action = client_step(&config, 0, AttemptOutcome::Response { status: 400 });
    assert!(matches!(action, ClientAction::Deliver { status: 400 }));

    let action = client_step(&config, 3, AttemptOutcome::Response { status: 503 });
    assert!(matches!(action, ClientAction::Deliver { status: 503 }));
}

#[test]
fn test_client_step_transport_errors() {
    let config = create_test_config();
    let action = client_step(
        &config,
        0,
        AttemptOutcome::TransportError {
            kind: TransportErrorKind::Connect,
            detail: "connection refused".to_string(),
        },
    );
    assert!(matches!(action, ClientAction::Sleep { wait_ms: 100 }));

    let action = client_step(
        &config,
        0,
        AttemptOutcome::TransportError {
            kind: TransportErrorKind::Other,
            detail: "broken".to_string(),
        },
    );
    match action {
        ClientAction::GiveUp { error } => {
            assert_eq!(error.status_code(), 502);
            assert!(error.message().contains("broken"));
        }
        other => panic!("unexpected action: {:?}", other),
    }

    let action = client_step(
        &config,
        3,
        AttemptOutcome::TransportError {
            kind: TransportErrorKind::TimedOut,
            detail: "deadline".to_string(),
        },
    );
    match action {
        ClientAction::GiveUp { error } => assert_eq!(error.status_code(), 504),
        other => panic!("unexpected action: {:?}", other),
    }
}

#[test]
fn test_client_step_deadline() {
    let config = create_test_config();
    let action = client_step(&config, 2, AttemptOutcome::DeadlineExceeded);
    assert!(matches!(action, ClientAction::Sleep { wait_ms: 400 }));

    let action = client_step(&config, 3, AttemptOutcome::DeadlineExceeded);
    assert!(matches!(
        action,
        ClientAction::GiveUp {
            error: ProxyError::Timeout
        }
    ));
}

#[test]
fn test_run_client_first_non_retryable_wins() {
    let config = create_test_config();
    let outcomes = vec![
        AttemptOutcome::Response { status: 503 },
        AttemptOutcome::DeadlineExceeded,
        AttemptOutcome::Response { status: 200 },
        AttemptOutcome::Response { status: 200 },
    ];
    let (attempts, result) = run_client(&config, outcomes);
    assert_eq!(attempts, 3);
    assert_eq!(result.unwrap(), 200);
}

#[test]
fn test_run_client_non_retryable_client_error() {
    let config = create_test_config();
    let outcomes = vec![
        AttemptOutcome::Response { status: 401 },
        AttemptOutcome::Response { status: 200 },
        AttemptOutcome::Response { status: 200 },
        AttemptOutcome::Response { status: 200 },
    ];
    let (attempts, result) = run_client(&config, outcomes);
    assert_eq!(attempts, 1);
    assert_eq!(result.unwrap(), 401);
}

#[test]
fn test_run_client_all_timeouts() {
    let config = create_test_config();
    let outcomes = vec![
        AttemptOutcome::DeadlineExceeded,
        AttemptOutcome::DeadlineExceeded,
        AttemptOutcome::DeadlineExceeded,
        AttemptOutcome::DeadlineExceeded,
    ];
    let (attempts, result) = run_client(&config, outcomes);
    assert_eq!(attempts, 4);
    assert!(matches!(result, Err(ProxyError::Timeout)));
}

#[test]
fn test_run_client_exhausted_transport_error() {
    let config = create_test_config();
    let outcomes = vec![
        AttemptOutcome::TransportError {
            kind: TransportErrorKind::Connect,
            detail: "refused".to_string(),
        },
        AttemptOutcome::TransportError {
            kind: TransportErrorKind::Connect,
            detail: "refused".to_string(),
        },
        AttemptOutcome::TransportError {
            kind: TransportErrorKind::Connect,
            detail: "refused".to_string(),
        },
        AttemptOutcome::TransportError {
            kind: TransportErrorKind::Connect,
            detail: "refused again".to_string(),
        },
    ];
    let (attempts, result) = run_client(&config, outcomes);
    assert_eq!(attempts, 4);
    match result {
        Err(ProxyError::UpstreamFailed { kind, detail }) => {
            assert!(matches!(kind, TransportErrorKind::Connect));
            assert_eq!(detail, "refused again");
        }
        other => panic!("unexpected result: {:?}", other),
    }
}
