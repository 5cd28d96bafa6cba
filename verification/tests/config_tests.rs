use key_cycle_proxy::config::{
    keys_from_env, keys_from_legacy, trim_ws, ApiKeyInfo, Config, LegacyApiKeyInfo, UpstreamConfig,
};

#[test]
fn test_api_key_model_support() {
    let key_info = ApiKeyInfo {
        key: "test-key".to_string(),
        url: "https://api.test.com".to_string(),
        models: vec!["gpt-3.5-turbo".to_string(), "gpt-4".to_string()],
    };

    assert!(key_info.supports_model("gpt-3.5-turbo"));
    assert!(key_info.supports_model("gpt-4"));
    assert!(!key_info.supports_model("llama-2"));

    let fallback_key = ApiKeyInfo {
        key: "fallback-key".to_string(),
        url: "https://api.fallback.com".to_string(),
        models: vec!["others".to_string()],
    };

    assert!(fallback_key.supports_model("any-model"));
    assert!(fallback_key.supports_model("llama-2"));
    assert!(fallback_key.supports_model("custom-model"));
}

#[test]
fn test_upstream_config_duration_conversion() {
    let config = UpstreamConfig {
        base_url: "https://api.test.com".to_string(),
        connect_timeout_ms: 1000,
        request_timeout_ms: 5000,
        retry_initial_backoff_ms: 100,
        retry_max_backoff_ms: 2000,
        max_retries: 3,
    };

    assert_eq!(config.connect_timeout(), 1000);
    assert_eq!(config.request_timeout(), 5000);
    assert_eq!(config.retry_max_backoff(), 2000);
    assert_eq!(config.retry_initial_backoff(), 100);
}

#[test]
fn test_config_defaults() {
    let config = Config::default();
    assert_eq!(config.server.bind_addr, "0.0.0.0:8080");
    assert_eq!(config.server.request_body_limit_bytes, 262_144);
    assert_eq!(config.upstream.max_retries, 3);
    assert_eq!(config.keys.rotation_strategy, "round_robin_health_weighted");
    assert_eq!(config.rate_limit.global_rps, 50);
    assert_eq!(config.observability.tracing_level, "info");
}

#[test]
fn test_graceful_shutdown_duration() {
    let config = Config::default();
    assert_eq!(config.server.graceful_shutdown_seconds, 10);
    assert_eq!(config.server.graceful_shutdown_duration(), 10_000);
}

#[test]
fn test_keys_from_environment_list() {
    let keys = keys_from_env("sk-key1,sk-key2,sk-key3");
    assert_eq!(keys.len(), 3);
    assert_eq!(keys[0].key, "sk-key1");
    assert_eq!(keys[1].key, "sk-key2");
    assert_eq!(keys[2].key, "sk-key3");
    assert_eq!(keys[0].models, vec!["others"]);
    assert_eq!(keys[0].url, "https://api.openai.com/v1");
}

#[test]
fn test_keys_from_environment_trimming() {
    let keys = keys_from_env("  sk-a  ,\tsk-b\n, sk-c");
    assert_eq!(keys.len(), 3);
    assert_eq!(keys[0].key, "sk-a");
    assert_eq!(keys[1].key, "sk-b");
    assert_eq!(keys[2].key, "sk-c");
}

#[test]
fn test_keys_from_environment_edges() {
    let empty = keys_from_env("");
    assert_eq!(empty.len(), 1);
    assert_eq!(empty[0].key, "");

    let trailing = keys_from_env("a,,b,");
    assert_eq!(trailing.len(), 4);
    assert_eq!(trailing[0].key, "a");
    assert_eq!(trailing[1].key, "");
    assert_eq!(trailing[2].key, "b");
    assert_eq!(trailing[3].key, "");
}

#[test]
fn test_keys_from_legacy_entries() {
    let entries = vec![
        LegacyApiKeyInfo {
            key: "sk-test-key-1".to_string(),
            url: "https://api.openai.com/v1".to_string(),
            models: vec!["gpt-3.5-turbo".to_string(), "gpt-4".to_string()],
        },
        LegacyApiKeyInfo {
            key: "sk-test-key-2".to_string(),
            url: "https://api.other-vendor.example/v1".to_string(),
            models: vec!["llama-2".to_string(), "others".to_string()],
        },
    ];
    let keys = keys_from_legacy(entries);
    assert_eq!(keys.len(), 2);
    assert_eq!(keys[0].models, vec!["gpt-3.5-turbo", "gpt-4"]);
    assert_eq!(keys[1].models, vec!["llama-2", "others"]);
    assert_eq!(keys[0].key, "sk-test-key-1");
    assert_eq!(keys[1].url, "https://api.other-vendor.example/v1");
}

#[test]
fn test_trim_ws_behaviour() {
    assert_eq!(trim_ws("  hi\t"), "hi");
    assert_eq!(trim_ws(""), "");
    assert_eq!(trim_ws("   "), "");
    assert_eq!(trim_ws("a b"), "a b");
}
