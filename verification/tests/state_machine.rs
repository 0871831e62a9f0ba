use agent_collaboration::{AgentCore, AgentError, AgentState, StateMachine};

#[test]
fn test_initial_state() {
    let sm = StateMachine::new();
    assert_eq!(sm.current(), &AgentState::Idle);
    assert!(sm.error_message().is_none());
}

#[test]
fn test_valid_transition() {
    let mut sm = StateMachine::new();
    sm.transition(AgentState::Running).unwrap();
    assert_eq!(sm.current(), &AgentState::Running);
}

#[test]
fn test_invalid_transition() {
    let mut sm = StateMachine::new();
    assert!(sm.transition(AgentState::Completed).is_err());
}

#[test]
fn test_full_lifecycle() {
    let mut sm = StateMachine::new();
    sm.transition(AgentState::Running).unwrap();
    sm.transition(AgentState::Completed).unwrap();
    assert!(sm.is_terminal());
}

#[test]
fn test_fail_with_message() {
    let mut sm = StateMachine::new();
    sm.transition(AgentState::Running).unwrap();
    sm.fail("Something went wrong");

    assert_eq!(sm.current(), &AgentState::Failed);
    assert_eq!(sm.error_message(), Some("Something went wrong"));
}

#[test]
fn test_transition_with_reason() {
    let mut sm = StateMachine::new();
    sm.transition(AgentState::Running).unwrap();
    sm.transition_with_reason(AgentState::Paused, "User requested pause").unwrap();

    assert_eq!(sm.current(), &AgentState::Paused);
    assert!(sm.history().len() >= 3);
}

#[test]
fn test_reset() {
    let mut sm = StateMachine::new();
    sm.transition(AgentState::Running).unwrap();
    sm.fail("Error");
    sm.reset();

    assert_eq!(sm.current(), &AgentState::Idle);
    assert!(sm.error_message().is_none());
}

#[test]
fn test_history() {
    let mut sm = StateMachine::new();
    sm.transition(AgentState::Running).unwrap();
    sm.transition(AgentState::Completed).unwrap();

    assert!(sm.history().len() >= 3);
    assert!(sm.last_state_duration().is_some());
}

#[test]
fn refused_transition_reports_states_and_keeps_machine() {
    let mut sm = StateMachine::new();
    let err = sm.transition(AgentState::Paused).unwrap_err();
    match &err {
        AgentError::InvalidStateTransition { from, to } => {
            assert_eq!(from, "Idle");
            assert_eq!(to, "Paused");
        }
        other => panic!("unexpected error {:?}", other),
    }
    assert_eq!(err.message(), "State transition from 'Idle' to 'Paused' is not allowed");
    assert_eq!(sm.current(), &AgentState::Idle);
    assert_eq!(sm.history().len(), 1);
}

#[test]
fn history_records_every_state_with_reason() {
    let mut sm = StateMachine::new();
    sm.transition(AgentState::Running).unwrap();
    sm.transition_with_reason(AgentState::Failed, "boom").unwrap();
    assert_eq!(sm.error_message(), Some("boom"));
    sm.force_set(AgentState::Waiting);
    assert_eq!(sm.error_message(), None);
    let states: Vec<AgentState> = sm.history().iter().map(|r| r.state).collect();
    assert_eq!(states, vec![AgentState::Idle, AgentState::Running, AgentState::Failed, AgentState::Waiting]);
    assert_eq!(sm.history()[2].reason.as_deref(), Some("boom"));
    assert_eq!(sm.history()[3].reason.as_deref(), Some("forced"));
}

#[test]
fn terminal_states_only_go_back_to_idle() {
    let mut sm = StateMachine::new();
    sm.transition(AgentState::Running).unwrap();
    sm.transition(AgentState::Completed).unwrap();
    for s in [AgentState::Running, AgentState::Paused, AgentState::Waiting, AgentState::Cancelling, AgentState::Failed] {
        assert!(!sm.is_valid_transition(s));
    }
    assert!(sm.is_valid_transition(AgentState::Idle));
    assert!(sm.can_accept_task());
}

#[test]
fn agent_core_refuses_task_while_running() {
    let mut core = AgentCore::new("agent-1", "Test Agent");
    assert_eq!(core.id(), "agent-1");
    assert_eq!(core.name(), "Test Agent");
    core.begin_task().unwrap();
    assert_eq!(core.state(), AgentState::Running);
    let err = core.begin_task().unwrap_err();
    assert_eq!(err.message(), "Internal error: Agent agent-1 cannot accept tasks in state Running");
    core.finish_task().unwrap();
    assert_eq!(core.state(), AgentState::Completed);
    // A completed agent accepts a task but cannot enter Running directly.
    assert!(matches!(core.begin_task(), Err(AgentError::InvalidStateTransition { .. })));
}

#[test]
fn agent_core_failure_keeps_error_text() {
    let mut core = AgentCore::new("agent-1", "Test Agent");
    core.begin_task().unwrap();
    core.fail_task(&AgentError::internal("Something went wrong"));
    assert_eq!(core.state(), AgentState::Failed);
    assert_eq!(core.error_message(), Some("Internal error: Something went wrong"));
    core.reset();
    assert_eq!(core.state(), AgentState::Idle);
    assert_eq!(core.error_message(), None);
}
