use agent_collaboration::{AgentError, BackoffStrategy, RetryConfig, RetryPolicy};
use std::time::Duration;

#[test]
fn test_fixed_backoff() {
    let config = RetryConfig::new()
        .with_backoff(BackoffStrategy::Fixed)
        .with_base_delay(100);

    assert_eq!(config.calculate_delay(1), Duration::from_millis(100));
    assert_eq!(config.calculate_delay(2), Duration::from_millis(100));
    assert_eq!(config.calculate_delay(3), Duration::from_millis(100));
}

#[test]
fn test_linear_backoff() {
    let config = RetryConfig::new()
        .with_backoff(BackoffStrategy::Linear)
        .with_base_delay(100);

    assert_eq!(config.calculate_delay(1), Duration::from_millis(100));
    assert_eq!(config.calculate_delay(2), Duration::from_millis(200));
    assert_eq!(config.calculate_delay(3), Duration::from_millis(300));
}

#[test]
fn test_exponential_backoff() {
    let config = RetryConfig::new()
        .with_backoff(BackoffStrategy::Exponential)
        .with_base_delay(100);

    assert_eq!(config.calculate_delay(1), Duration::from_millis(200));
    assert_eq!(config.calculate_delay(2), Duration::from_millis(400));
    assert_eq!(config.calculate_delay(3), Duration::from_millis(800));
}

#[test]
fn test_max_delay_cap() {
    let config = RetryConfig::new()
        .with_backoff(BackoffStrategy::Exponential)
        .with_base_delay(1000)
        .with_max_delay(5000);

    assert_eq!(config.calculate_delay(1), Duration::from_millis(2000));
    assert_eq!(config.calculate_delay(2), Duration::from_millis(4000));
    assert_eq!(config.calculate_delay(3), Duration::from_millis(5000));
    assert_eq!(config.calculate_delay(4), Duration::from_millis(5000));
}

#[test]
fn test_retry_policy() {
    let mut policy = RetryPolicy::with_defaults();

    let error = AgentError::timeout("test", 1000);

    assert!(policy.should_retry(&error));
    assert_eq!(policy.current_attempt(), 0);

    let delay = policy.record_attempt(&error);
    assert!(delay.is_some());
    assert_eq!(policy.current_attempt(), 1);
}

#[test]
fn test_max_retries_exceeded() {
    let config = RetryConfig::new().with_max_retries(2);
    let mut policy = RetryPolicy::new(config);

    let error = AgentError::timeout("test", 1000);

    assert!(policy.record_attempt(&error).is_some());
    assert!(policy.record_attempt(&error).is_some());
    assert!(!policy.should_retry(&error));
    assert!(policy.record_attempt(&error).is_none());
}

#[test]
fn no_delay_before_the_first_attempt() {
    for strategy in [BackoffStrategy::Fixed, BackoffStrategy::Linear, BackoffStrategy::Exponential,
        BackoffStrategy::ExponentialWithJitter] {
        let config = RetryConfig::new().with_backoff(strategy);
        assert_eq!(config.calculate_delay_ms(0), 0);
    }
}

#[test]
fn delays_never_exceed_the_cap_and_grow() {
    let config = RetryConfig::new().with_backoff(BackoffStrategy::Exponential).with_base_delay(700).with_max_delay(9000);
    let mut previous = 0;
    for attempt in 1..70 {
        let d = config.calculate_delay_ms(attempt);
        assert!(d <= 9000);
        assert!(d >= previous);
        previous = d;
    }
    assert_eq!(config.calculate_delay_ms(64), 9000);
}

#[test]
fn jitter_stays_within_a_fifth() {
    let config = RetryConfig::new().with_backoff(BackoffStrategy::ExponentialWithJitter).with_base_delay(100)
        .with_max_delay(u64::MAX);
    for attempt in 1..10u32 {
        let base = 100u64 * (1u64 << attempt);
        let d = config.calculate_delay_ms(attempt);
        assert!(d + base / 5 >= base && d <= base + base / 5 + 1, "attempt {attempt}: {d} vs {base}");
    }
    // attempt 1: base 200, jitter 40, offset 17 % 80 = 17 -> 200 - 23
    assert_eq!(config.calculate_delay_ms(1), 177);
}

#[test]
fn policy_keeps_last_error_and_total() {
    let mut policy = RetryPolicy::new(RetryConfig::new().with_max_retries(1));
    let error = AgentError::channel_error("down");
    assert_eq!(policy.record_attempt(&error), Some(Duration::from_millis(config_delay(1))));
    assert_eq!(policy.last_error(), Some("Channel error: down"));
    assert_eq!(policy.total_retries(), 1);
    policy.reset();
    assert_eq!(policy.current_attempt(), 0);
    assert_eq!(policy.last_error(), None);
    assert_eq!(policy.total_retries(), 1);
}

fn config_delay(attempt: u32) -> u64 {
    RetryConfig::new().calculate_delay_ms(attempt)
}

#[test]
fn non_retryable_errors_are_not_retried() {
    let policy = RetryPolicy::with_defaults();
    assert!(!policy.should_retry(&AgentError::internal("bug")));
    let no_timeouts = RetryConfig::new().with_retry_on_timeout(false);
    // The flag alone decides for timeouts.
    assert!(!no_timeouts.should_retry(&AgentError::timeout("op", 5)));
    assert!(no_timeouts.should_retry(&AgentError::channel_error("down")));
    assert!(!no_timeouts.should_retry(&AgentError::invalid_input("x")));
    let mut strict = RetryConfig::new().with_retry_on_timeout(false);
    strict.retry_on_transient = false;
    assert!(!strict.should_retry(&AgentError::timeout("op", 1000)));
    assert!(!strict.should_retry(&AgentError::internal("x")));
    assert!(!strict.should_retry(&AgentError::cancelled("t")));
    assert!(RetryConfig::new().should_retry(&AgentError::cancelled("t")));
    assert!(RetryConfig::new().should_retry(&AgentError::timeout("op", 1000)));
}

#[test]
fn total_retries_accumulate_across_resets() {
    let mut policy = RetryPolicy::new(RetryConfig::new().with_max_retries(5));
    let error = AgentError::channel_error("down");
    for _ in 0..3 {
        assert!(policy.record_attempt(&error).is_some());
    }
    assert_eq!(policy.last_error(), Some("Channel error: down"));
    policy.reset();
    assert_eq!(policy.last_error(), None);
    for _ in 0..2 {
        assert!(policy.record_attempt(&error).is_some());
    }
    assert_eq!(policy.total_retries(), 5);
    assert_eq!(policy.current_attempt(), 2);
    // An error that is not retried leaves the last error as it was.
    assert!(policy.record_attempt(&AgentError::internal("bug")).is_none());
    assert_eq!(policy.last_error(), Some("Channel error: down"));
}

#[test]
fn delays_hold_their_milliseconds() {
    let config = RetryConfig::new().with_backoff(BackoffStrategy::Fixed).with_base_delay(250);
    assert_eq!(config.calculate_delay(2).as_millis(), 250);
    let mut policy = RetryPolicy::new(config);
    assert_eq!(policy.record_attempt(&AgentError::timeout("op", 1)).map(|d| d.as_millis()), Some(250));
}
