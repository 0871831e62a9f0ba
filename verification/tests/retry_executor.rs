use agent_collaboration::retry::executor::{RetryDecision, RetryProgress};
use agent_collaboration::{
    AgentError, BackoffStrategy, CircuitBreaker, RetryConfig, RetryExecutor, RetryExecutorBuilder, RetryResult,
    RetryableError,
};

#[test]
fn test_retry_result_map() {
    let result: RetryResult<i32, AgentError> = RetryResult::Success(42);
    let mapped = result.map(|x| x * 2);
    assert_eq!(mapped.unwrap(), 84);
}

#[test]
fn retry_result_kinds() {
    let failed: RetryResult<i32, AgentError> =
        RetryResult::Failed { error: AgentError::internal("x"), attempts: 3, last_delay_ms: Some(400) };
    assert!(failed.is_failed());
    assert!(!failed.is_success());
    assert_eq!(failed.unwrap_or(7), 7);
    let open: RetryResult<i32, AgentError> = RetryResult::CircuitOpen { error: None };
    assert!(open.is_circuit_open());
    let cancelled: RetryResult<i32, AgentError> = RetryResult::Cancelled;
    assert!(cancelled.is_cancelled());
}

#[test]
fn executor_retries_until_the_limit() {
    let executor = RetryExecutorBuilder::new().max_retries(3).fixed_backoff().base_delay(10).build();
    let mut progress = RetryProgress::new();
    let error = AgentError::timeout("op", 100);
    let mut delays = Vec::new();
    loop {
        progress.begin_attempt();
        let retry = executor.should_retry(&error);
        match executor.after_failure(&mut progress, retry) {
            RetryDecision::RetryAfter { delay_ms } => delays.push(delay_ms),
            RetryDecision::GiveUp => break,
        }
    }
    assert_eq!(progress.attempts, 3);
    assert_eq!(delays, vec![10, 10]);
    assert_eq!(progress.last_delay_ms, Some(10));
}

#[test]
fn executor_gives_up_on_non_retryable_errors() {
    let executor = RetryExecutor::new(RetryConfig::new().with_backoff(BackoffStrategy::Linear));
    let mut progress = RetryProgress::new();
    progress.begin_attempt();
    let error = AgentError::capability_not_found("tool");
    let retry = executor.should_retry(&error);
    assert!(!retry);
    assert_eq!(executor.after_failure(&mut progress, retry), RetryDecision::GiveUp);
    assert_eq!(progress.last_delay_ms, None);
}

#[test]
fn timeouts_follow_the_configuration() {
    let executor = RetryExecutorBuilder::new().retry_on_timeout(false).attempt_timeout(50).build();
    assert!(executor.has_attempt_timeout());
    let mut progress = RetryProgress::new();
    progress.begin_attempt();
    assert_eq!(executor.after_timeout(&mut progress), RetryDecision::GiveUp);
    assert!(!executor.should_retry(&AgentError::timeout("op", 50)));
    assert!(executor.should_retry(&AgentError::channel_error("down")));
    let executor = RetryExecutorBuilder::new().linear_backoff().base_delay(5).build();
    assert!(!executor.has_attempt_timeout());
    let mut progress = RetryProgress::new();
    progress.begin_attempt();
    assert_eq!(executor.after_timeout(&mut progress), RetryDecision::RetryAfter { delay_ms: 5 });
}

#[test]
fn agent_errors_as_retryable_errors() {
    let t = <AgentError as RetryableError>::create_timeout_error("fetch", 250);
    assert!(matches!(&t, AgentError::Timeout { operation, duration_ms: 250 } if operation == "fetch"));
    assert!(t.is_timeout());
    assert_eq!(t.to_error_message(), "Operation 'fetch' timed out after 250ms");
    assert_eq!(AgentError::internal("boom").to_error_message(), "Internal error: boom");
    assert_eq!(RetryableError::retry_after(&AgentError::internal("boom")), None);
}

#[test]
fn default_circuit_breaker_starts_closed() {
    let cb = CircuitBreaker::with_defaults();
    assert_eq!(cb.failure_count(), 0);
    assert_eq!(cb.state(), agent_collaboration::CircuitState::Closed);
}
