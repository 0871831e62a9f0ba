use agent_collaboration::llm::fallback::{FallbackAction, FallbackPhase, FallbackRun, ProviderHealth};
use agent_collaboration::llm::wire::{
    anthropic_request_body, api_key, bearer, endpoint_url, map_http_error, map_transport_error, openai_request_body,
    parse_anthropic_response, parse_openai_response,
};
use agent_collaboration::{CompletionResponse, FallbackConfig, Json, LLMConfig, LLMError, LLMMessage, Provider, Usage};
use std::time::Duration;

fn obj(entries: Vec<(&str, Json)>) -> Json {
    Json::Object(entries.into_iter().map(|(k, v)| (k.to_string(), v)).collect())
}

fn s(t: &str) -> Json {
    Json::Str(t.to_string())
}

#[test]
fn config_defaults_and_builders() {
    let c = LLMConfig::new();
    assert_eq!(c.default_provider, Provider::OpenAI);
    assert_eq!(c.default_model, "gpt-4o");
    assert_eq!(c.timeout_seconds, 30);
    assert_eq!(c.max_retries, 3);
    assert!(c.fallback_provider.is_none());
    let c = c
        .with_default_provider(Provider::Anthropic)
        .with_openai_key("sk-1")
        .with_anthropic_key("ak-2")
        .with_default_model("large-model")
        .with_timeout(5)
        .with_max_retries(1)
        .with_fallback_provider(Provider::OpenAI)
        .with_openai_base_url("http://local");
    assert_eq!(c.default_provider, Provider::Anthropic);
    assert_eq!(c.openai_api_key.as_deref(), Some("sk-1"));
    assert_eq!(c.anthropic_api_key.as_deref(), Some("ak-2"));
    assert_eq!(c.default_model, "large-model");
    assert_eq!(c.timeout_seconds, 5);
    assert_eq!(c.max_retries, 1);
    assert_eq!(c.fallback_provider, Some(Provider::OpenAI));
    assert_eq!(endpoint_url(&c, Provider::OpenAI, "/v1/chat/completions"), "http://local/v1/chat/completions");
    assert_eq!(endpoint_url(&c, Provider::Anthropic, "/v1/messages"), "https://api.anthropic.com/v1/messages");
    assert_eq!(Provider::default(), Provider::OpenAI);
}

#[test]
fn missing_keys_are_configuration_errors() {
    let c = LLMConfig::new();
    match api_key(&c, Provider::OpenAI) {
        Err(LLMError::ConfigurationError { message }) => assert_eq!(message, "OpenAI API key not configured"),
        other => panic!("unexpected {:?}", other),
    }
    match api_key(&c, Provider::Anthropic) {
        Err(LLMError::ConfigurationError { message }) => assert_eq!(message, "Anthropic API key not configured"),
        other => panic!("unexpected {:?}", other),
    }
    assert_eq!(api_key(&c.with_openai_key("k"), Provider::OpenAI).unwrap(), "k");
    assert_eq!(bearer("abc"), "Bearer abc");
}

#[test]
fn error_classification() {
    assert!(LLMError::RateLimited { retry_after: None }.is_retryable());
    assert!(LLMError::RateLimited { retry_after: None }.should_use_fallback());
    assert!(!LLMError::AuthenticationFailed { reason: "r".to_string() }.is_retryable());
    assert!(LLMError::ProviderUnavailable { provider: "p".to_string() }.should_use_fallback());
    assert!(!LLMError::ProviderUnavailable { provider: "p".to_string() }.is_retryable());
    assert_eq!(LLMError::Timeout { seconds: 30 }.retry_after(), Some(Duration::from_secs(30)));
    assert_eq!(
        LLMError::RateLimited { retry_after: Some(Duration::from_millis(1500)) }.retry_after(),
        Some(Duration::from_millis(1500))
    );
    assert_eq!(LLMError::ServiceUnavailable.retry_after(), None);
    assert_eq!(LLMError::ContextTooLong { actual: 5000, max: 4096 }.user_message(), "Context too long: 5000 > 4096");
    assert_eq!(LLMError::NetworkError { message: "x".to_string() }.user_message(), "An error occurred");
    assert_eq!(LLMError::InvalidRequest { details: "bad".to_string() }.user_message(), "bad");
}

#[test]
fn http_statuses_map_to_errors() {
    assert!(matches!(map_http_error(401, "no"), LLMError::AuthenticationFailed { reason } if reason == "no"));
    assert!(matches!(map_http_error(429, "slow"), LLMError::RateLimited { retry_after: None }));
    for code in [500, 502, 503, 504] {
        assert!(matches!(map_http_error(code, ""), LLMError::ServiceUnavailable));
    }
    assert!(matches!(map_http_error(400, "bad"), LLMError::InvalidRequest { details } if details == "bad"));
    match map_http_error(404, "missing") {
        LLMError::ApiError { message, code } => {
            assert_eq!(message, "missing");
            assert_eq!(code.as_deref(), Some("404 Not Found"));
        }
        other => panic!("unexpected {:?}", other),
    }
    assert!(matches!(map_transport_error(true, true, "t", 9), LLMError::Timeout { seconds: 9 }));
    assert!(matches!(map_transport_error(false, true, "c", 9), LLMError::NetworkError { message } if message == "c"));
    assert!(matches!(map_transport_error(false, false, "o", 9), LLMError::ApiError { code: None, .. }));
}

#[test]
fn openai_body_holds_model_messages_and_options() {
    let msgs = vec![LLMMessage::system("be brief"), LLMMessage::user("hi")];
    let body = openai_request_body(&msgs, None, "gpt-4o", Some(64), true);
    assert_eq!(body.get("model").unwrap().as_str(), Some("gpt-4o"));
    let m = body.get("messages").unwrap().as_array().unwrap();
    assert_eq!(m.len(), 2);
    assert_eq!(m[0].get("role").unwrap().as_str(), Some("system"));
    assert_eq!(m[1].get("content").unwrap().as_str(), Some("hi"));
    assert_eq!(body.get("max_tokens").unwrap().as_u64(), Some(64));
    assert_eq!(body.get("stream").unwrap().as_bool(), Some(true));
    let body = openai_request_body(&msgs, Some("gpt-x"), "gpt-4o", None, false);
    assert_eq!(body.get("model").unwrap().as_str(), Some("gpt-x"));
    assert!(body.get("max_tokens").is_none());
    assert!(body.get("stream").is_none());
}

#[test]
fn anthropic_body_moves_the_system_message() {
    let msgs = vec![LLMMessage::user("hi"), LLMMessage::system("first"), LLMMessage::assistant("ok"), LLMMessage::system("second")];
    let body = anthropic_request_body(&msgs, None, "large-model", None);
    assert_eq!(body.get("system").unwrap().as_str(), Some("first"));
    assert_eq!(body.get("max_tokens").unwrap().as_u64(), Some(4096));
    let m = body.get("messages").unwrap().as_array().unwrap();
    let roles: Vec<&str> = m.iter().map(|x| x.get("role").unwrap().as_str().unwrap()).collect();
    assert_eq!(roles, vec!["user", "assistant"]);
    let body = anthropic_request_body(&vec![LLMMessage::user("x")], Some("m"), "large-model", Some(10));
    assert!(body.get("system").is_none());
    assert_eq!(body.get("max_tokens").unwrap().as_u64(), Some(10));
}

#[test]
fn responses_are_parsed() {
    let json = obj(vec![
        ("choices", Json::Array(vec![obj(vec![("message", obj(vec![("content", s("hello"))]))])])),
        ("model", s("gpt-4o-mini")),
        ("usage", obj(vec![("prompt_tokens", Json::UInt(3)), ("completion_tokens", Json::UInt(4)), ("total_tokens", Json::UInt(7))])),
    ]);
    let r: CompletionResponse = parse_openai_response(&json, "gpt-4o").unwrap();
    assert_eq!(r.content, "hello");
    assert_eq!(r.model, "gpt-4o-mini");
    assert_eq!(r.usage, Some(Usage { prompt_tokens: 3, completion_tokens: 4, total_tokens: 7 }));
    assert_eq!(r.provider, Provider::OpenAI);

    let json = obj(vec![
        ("content", Json::Array(vec![obj(vec![("text", s("bonjour"))])])),
        ("usage", obj(vec![("input_tokens", Json::UInt(10)), ("output_tokens", Json::UInt(5))])),
    ]);
    let r = parse_anthropic_response(&json, "large-model").unwrap();
    assert_eq!(r.content, "bonjour");
    assert_eq!(r.model, "large-model");
    assert_eq!(r.usage, Some(Usage { prompt_tokens: 10, completion_tokens: 5, total_tokens: 15 }));

    match parse_openai_response(&obj(vec![("choices", Json::Array(vec![]))]), "m") {
        Err(LLMError::InvalidResponse { details }) => assert_eq!(details, "No content in response"),
        other => panic!("unexpected {:?}", other),
    }
}

fn response() -> CompletionResponse {
    CompletionResponse { content: "ok".to_string(), model: "m".to_string(), usage: None, provider: Provider::Anthropic }
}

#[test]
fn fallback_retries_then_falls_back() {
    let config = FallbackConfig::default();
    assert_eq!(config.calculate_delay_ms(0), 1000);
    assert_eq!(config.calculate_delay_ms(1), 2000);
    assert_eq!(config.calculate_delay(2), Duration::from_millis(4000));
    let (mut run, action) = FallbackRun::start(config, true);
    assert!(matches!(action, FallbackAction::CallPrimary));
    let a = run.on_primary(Err(LLMError::RateLimited { retry_after: None }));
    assert!(matches!(a, FallbackAction::RetryPrimaryAfter { delay_ms: 1000 }));
    let a = run.on_primary(Err(LLMError::RateLimited { retry_after: None }));
    assert!(matches!(a, FallbackAction::RetryPrimaryAfter { delay_ms: 2000 }));
    let a = run.on_primary(Err(LLMError::RateLimited { retry_after: None }));
    assert!(matches!(a, FallbackAction::CallSecondary));
    assert_eq!(run.phase(), FallbackPhase::Secondary);
    let a = run.on_secondary(Ok(response()));
    match a {
        FallbackAction::Finish(Ok(r)) => assert_eq!(r.content, "ok"),
        other => panic!("unexpected {:?}", other),
    }
    assert_eq!(run.phase(), FallbackPhase::Done);
}

#[test]
fn fallback_returns_non_fallback_errors() {
    let config = FallbackConfig { fallback_on_content_filter: false, ..FallbackConfig::default() };
    assert!(!config.should_fallback(&LLMError::ContentFiltered { reason: "r".to_string() }));
    assert!(config.should_fallback(&LLMError::ServiceUnavailable));
    let (mut run, _) = FallbackRun::start(config, true);
    let a = run.on_primary(Err(LLMError::AuthenticationFailed { reason: "bad key".to_string() }));
    assert!(matches!(a, FallbackAction::Finish(Err(LLMError::AuthenticationFailed { .. }))));
    let (mut run, _) = FallbackRun::start(FallbackConfig::default(), false);
    let a = run.on_primary(Err(LLMError::ProviderUnavailable { provider: "x".to_string() }));
    assert!(matches!(a, FallbackAction::Finish(Err(LLMError::ProviderUnavailable { .. }))));
    let (_, a) = FallbackRun::start(FallbackConfig { max_retries: 0, ..FallbackConfig::default() }, false);
    assert!(matches!(a, FallbackAction::Finish(Err(LLMError::ServiceUnavailable))));
}

#[test]
fn provider_health_defaults_to_healthy() {
    let mut h = ProviderHealth::new();
    assert!(h.is_healthy(Provider::OpenAI));
    h.mark(Provider::OpenAI, false);
    assert!(!h.is_healthy(Provider::OpenAI));
    assert!(h.is_healthy(Provider::Anthropic));
}
