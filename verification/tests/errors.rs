use agent_collaboration::{AgentError, ErrorCategory};

#[test]
fn test_error_category() {
    let err = AgentError::timeout("test", 1000);
    assert_eq!(err.category(), ErrorCategory::Timeout);
    assert!(err.is_recoverable());
}

#[test]
fn test_error_constructors() {
    let err = AgentError::understanding_failed("agent-1", "Failed to parse");
    assert!(err.message().contains("agent-1"));
    assert!(err.message().contains("Failed to parse"));
}

#[test]
fn test_recoverable_error() {
    let err = AgentError::recoverable("Connection lost", "Retry in 5 seconds");
    assert!(err.is_recoverable());
    assert!(err.message().contains("Retry in 5 seconds"));
}

#[test]
fn test_should_retry() {
    let err = AgentError::timeout("test", 1000);
    assert!(err.should_retry());

    let err = AgentError::capability_not_found("test");
    assert!(!err.should_retry());
}

#[test]
fn test_recovery_suggestion() {
    let err = AgentError::timeout("test", 1000);
    assert!(err.recovery_suggestion().is_some());

    let err = AgentError::internal("test");
    assert!(err.recovery_suggestion().is_none());
}

#[test]
fn test_retry_delay() {
    let err = AgentError::timeout("test", 1000);
    assert_eq!(err.retry_delay_ms(), Some(500));

    let err = AgentError::recoverable("test", "test");
    assert_eq!(err.retry_delay_ms(), Some(1000));

    let err = AgentError::internal("test");
    assert!(err.retry_delay_ms().is_none());
}

#[test]
fn error_messages_are_exact() {
    assert_eq!(AgentError::timeout("fetch", 1500).message(), "Operation 'fetch' timed out after 1500ms");
    assert_eq!(
        AgentError::understanding_failed("agent-1", "Failed to parse").message(),
        "[agent-1] Task understanding failed: Failed to parse"
    );
    assert_eq!(AgentError::recoverable("Lost", "Retry").message(), "Lost. Suggestion: Retry");
    assert_eq!(AgentError::capability_not_found("x").message(), "Capability 'x' not found");
    assert_eq!(AgentError::cancelled("t1").message(), "Task 't1' was cancelled");
}

#[test]
fn error_categories_cover_every_kind() {
    assert_eq!(AgentError::channel_error("c").category(), ErrorCategory::Transient);
    assert_eq!(AgentError::capability_not_found("c").category(), ErrorCategory::Configuration);
    assert_eq!(AgentError::invalid_input("c").category(), ErrorCategory::Validation);
    assert_eq!(AgentError::internal("c").category(), ErrorCategory::Permanent);
    assert_eq!(ErrorCategory::Validation.label(), "Validation");
}

#[test]
fn retried_and_delayed_errors_are_recoverable() {
    let all = vec![
        AgentError::timeout("a", 10),
        AgentError::channel_error("b"),
        AgentError::communication_error("a", "b"),
        AgentError::recoverable("a", "b"),
        AgentError::internal("c"),
        AgentError::capability_not_found("d"),
    ];
    for e in &all {
        if e.should_retry() || e.retry_delay_ms().is_some() {
            assert!(e.is_recoverable());
        }
    }
}
