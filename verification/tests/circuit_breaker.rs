use agent_collaboration::{CircuitBreaker, CircuitBreakerConfig, CircuitState};

#[test]
fn test_circuit_breaker_closed() {
    let mut cb = CircuitBreaker::with_defaults();
    assert!(cb.is_call_allowed());
}

#[test]
fn test_circuit_breaker_transitions() {
    let mut cb = CircuitBreaker::with_defaults();

    assert!(cb.is_call_allowed());

    for _ in 0..5 {
        cb.record_failure();
    }

    assert!(!cb.is_call_allowed());
}

#[test]
fn test_circuit_breaker_recovery() {
    let mut cb = CircuitBreaker::with_defaults();

    for _ in 0..5 {
        cb.record_failure();
    }

    cb.reset();

    assert!(cb.is_call_allowed());
}

fn small_config() -> CircuitBreakerConfig {
    CircuitBreakerConfig {
        failure_threshold: 2,
        failure_window_secs: 60,
        reset_timeout_secs: 1,
        half_open_max_calls: 1,
        half_open_timeout_secs: 10,
    }
}

#[test]
fn open_breaker_turns_half_open_after_timeout() {
    let mut cb = CircuitBreaker::new(small_config());
    cb.record_failure_at(10_000);
    assert_eq!(cb.state(), CircuitState::Closed);
    cb.record_failure_at(10_100);
    assert_eq!(cb.state(), CircuitState::Open);
    assert_eq!(cb.failure_count(), 2);
    // Before the reset timeout: blocked and still open.
    assert!(!cb.is_call_allowed_at(10_500));
    assert_eq!(cb.state(), CircuitState::Open);
    // After it: this call is still refused, but the breaker turns half-open.
    assert!(!cb.is_call_allowed_at(12_000));
    assert_eq!(cb.state(), CircuitState::HalfOpen);
    // One trial call is allowed, the next is not.
    assert!(cb.is_call_allowed_at(12_001));
    assert!(!cb.is_call_allowed_at(12_002));
    // A success after the trials closes the breaker.
    cb.record_success();
    assert_eq!(cb.state(), CircuitState::Closed);
    assert_eq!(cb.failure_count(), 0);
}

#[test]
fn failures_outside_the_window_start_over() {
    let mut cb = CircuitBreaker::new(small_config());
    cb.record_failure_at(1_000);
    cb.record_failure_at(1_000 + 61_000);
    assert_eq!(cb.failure_count(), 1);
    assert_eq!(cb.state(), CircuitState::Closed);
}

#[test]
fn failures_count_within_the_window() {
    let config = CircuitBreakerConfig { failure_threshold: 3, failure_window_secs: 1, ..CircuitBreakerConfig::default() };
    let mut cb = CircuitBreaker::new(config);
    cb.record_failure_at(1_000);
    cb.record_failure_at(1_500);
    assert_eq!(cb.failure_count(), 2);
    assert_eq!(cb.last_failure_time(), 1_500);
    assert_eq!(cb.state(), CircuitState::Closed);
    // More than the window after the last failure: the count starts over.
    cb.record_failure_at(3_000);
    assert_eq!(cb.failure_count(), 1);
    cb.record_failure_at(3_100);
    cb.record_failure_at(3_200);
    assert_eq!(cb.failure_count(), 3);
    assert_eq!(cb.state(), CircuitState::Open);
    assert!(!cb.is_call_allowed_at(3_300));
    assert_eq!(cb.config().failure_threshold, 3);
}

#[test]
fn any_settings_build_a_breaker() {
    let config = CircuitBreakerConfig { failure_window_secs: u64::MAX, reset_timeout_secs: u64::MAX, ..CircuitBreakerConfig::default() };
    let mut cb = CircuitBreaker::new(config);
    assert!(cb.is_call_allowed_at(10));
    cb.record_success();
    assert_eq!(cb.state(), CircuitState::Closed);
}

#[test]
fn half_open_breaker_recovers_after_enough_successes() {
    let config = CircuitBreakerConfig { failure_threshold: 1, reset_timeout_secs: 1, half_open_max_calls: 2, ..CircuitBreakerConfig::default() };
    let mut cb = CircuitBreaker::new(config);
    cb.record_failure_at(1_000);
    assert_eq!(cb.state(), CircuitState::Open);
    assert!(!cb.is_call_allowed_at(2_500));
    assert_eq!(cb.state(), CircuitState::HalfOpen);
    cb.record_success();
    cb.record_success();
    assert_eq!(cb.state(), CircuitState::HalfOpen);
    cb.record_success();
    assert_eq!(cb.state(), CircuitState::Closed);
    assert_eq!(cb.failure_count(), 0);
    assert!(cb.is_call_allowed_at(2_600));
}
