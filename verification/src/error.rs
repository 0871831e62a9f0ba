//! Error types of the framework, their classification and recovery hints.

use vstd::prelude::*;
use crate::text::{decimal, u64_to_string};

verus! {

/// Broad class of an error, deciding how callers react to it.
#[derive(Debug, Clone, Copy, PartialEq, Eq, Structural)]
pub enum ErrorCategory {
    Transient,
    Permanent,
    Configuration,
    Validation,
    Timeout,
}

impl ErrorCategory {
    pub open spec fn spec_label(self) -> Seq<char> {
        match self {
            ErrorCategory::Transient => "Transient"@,
            ErrorCategory::Permanent => "Permanent"@,
            ErrorCategory::Configuration => "Configuration"@,
            ErrorCategory::Validation => "Validation"@,
            ErrorCategory::Timeout => "Timeout"@,
        }
    }

    /// The category's name, as it is displayed.
    pub fn label(&self) -> (s: &'static str)
        ensures
            s@ == self.spec_label(),
    {
        match self {
            ErrorCategory::Transient => "Transient",
            ErrorCategory::Permanent => "Permanent",
            ErrorCategory::Configuration => "Configuration",
            ErrorCategory::Validation => "Validation",
            ErrorCategory::Timeout => "Timeout",
        }
    }
}

/// Errors raised by agents and the machinery around them.
///
/// Where an error wraps an underlying cause, the cause is kept by its message.
#[derive(Debug, Clone)]
pub enum AgentError {
    UnderstandingFailed { agent_id: String, message: String, source: Option<String> },
    DecompositionFailed { agent_id: String, message: String, source: Option<String> },
    ExecutionFailed { agent_id: String, message: String, source: Option<String> },
    CommunicationError { agent_id: String, message: String },
    InvalidStateTransition { from: String, to: String },
    CapabilityNotFound { name: String },
    CapabilityExecutionFailed { name: String, message: String, source: Option<String> },
    ChannelError { message: String },
    Cancelled { task_id: String },
    Timeout { operation: String, duration_ms: u64 },
    AgentNotFound { agent_id: String },
    InvalidInput { message: String },
    Recoverable { message: String, suggestion: String },
    Internal { message: String },
}

pub type Result<T> = core::result::Result<T, AgentError>;

impl AgentError {
    pub open spec fn spec_category(&self) -> ErrorCategory {
        match self {
            AgentError::Timeout { .. } => ErrorCategory::Timeout,
            AgentError::Cancelled { .. } => ErrorCategory::Transient,
            AgentError::ChannelError { .. } => ErrorCategory::Transient,
            AgentError::CommunicationError { .. } => ErrorCategory::Transient,
            AgentError::CapabilityNotFound { .. } => ErrorCategory::Configuration,
            AgentError::InvalidStateTransition { .. } => ErrorCategory::Validation,
            AgentError::InvalidInput { .. } => ErrorCategory::Validation,
            AgentError::AgentNotFound { .. } => ErrorCategory::Configuration,
            AgentError::Recoverable { .. } => ErrorCategory::Transient,
            AgentError::UnderstandingFailed { .. } => ErrorCategory::Permanent,
            AgentError::DecompositionFailed { .. } => ErrorCategory::Permanent,
            AgentError::ExecutionFailed { .. } => ErrorCategory::Permanent,
            AgentError::CapabilityExecutionFailed { .. } => ErrorCategory::Permanent,
            AgentError::Internal { .. } => ErrorCategory::Permanent,
        }
    }

    pub open spec fn spec_is_recoverable(&self) -> bool {
        self.spec_category() == ErrorCategory::Transient || self.spec_category() == ErrorCategory::Timeout
    }

    pub open spec fn spec_should_retry(&self) -> bool {
        self is Timeout || self is ChannelError || self is CommunicationError
    }

    pub fn category(&self) -> (c: ErrorCategory)
        ensures
            c == self.spec_category(),
    {
        match self {
            AgentError::Timeout { .. } => ErrorCategory::Timeout,
            AgentError::Cancelled { .. } => ErrorCategory::Transient,
            AgentError::ChannelError { .. } => ErrorCategory::Transient,
            AgentError::CommunicationError { .. } => ErrorCategory::Transient,
            AgentError::CapabilityNotFound { .. } => ErrorCategory::Configuration,
            AgentError::InvalidStateTransition { .. } => ErrorCategory::Validation,
            AgentError::InvalidInput { .. } => ErrorCategory::Validation,
            AgentError::AgentNotFound { .. } => ErrorCategory::Configuration,
            AgentError::Recoverable { .. } => ErrorCategory::Transient,
            AgentError::UnderstandingFailed { .. }
            | AgentError::DecompositionFailed { .. }
            | AgentError::ExecutionFailed { .. }
            | AgentError::CapabilityExecutionFailed { .. } => ErrorCategory::Permanent,
            AgentError::Internal { .. } => ErrorCategory::Permanent,
        }
    }

    /// Transient and timeout errors are recoverable.
    pub fn is_recoverable(&self) -> (b: bool)
        ensures
            b == self.spec_is_recoverable(),
    {
        let c = self.category();
        c == ErrorCategory::Transient || c == ErrorCategory::Timeout
    }

    /// Timeouts, channel errors and communication errors warrant a retry.
    pub fn should_retry(&self) -> (b: bool)
        ensures
            b == self.spec_should_retry(),
    {
        match self {
            AgentError::Timeout { .. } | AgentError::ChannelError { .. } | AgentError::CommunicationError { .. } => true,
            _ => false,
        }
    }

    pub fn understanding_failed(agent_id: &str, message: &str) -> (e: Self)
        ensures
            e matches AgentError::UnderstandingFailed { agent_id: a, message: m, source: None }
                && a@ == agent_id@ && m@ == message@,
    {
        AgentError::UnderstandingFailed {
            agent_id: String::from_str(agent_id),
            message: String::from_str(message),
            source: None,
        }
    }

    /// Like `understanding_failed`, keeping the message of the underlying cause.
    pub fn understanding_failed_with_source(agent_id: &str, message: &str, source: &str) -> (e: Self)
        ensures
            e matches AgentError::UnderstandingFailed { agent_id: a, message: m, source: Some(s) }
                && a@ == agent_id@ && m@ == message@ && s@ == source@,
    {
        AgentError::UnderstandingFailed {
            agent_id: String::from_str(agent_id),
            message: String::from_str(message),
            source: Some(String::from_str(source)),
        }
    }

    pub fn decomposition_failed(agent_id: &str, message: &str) -> (e: Self)
        ensures
            e matches AgentError::DecompositionFailed { agent_id: a, message: m, source: None }
                && a@ == agent_id@ && m@ == message@,
    {
        AgentError::DecompositionFailed {
            agent_id: String::from_str(agent_id),
            message: String::from_str(message),
            source: None,
        }
    }

    pub fn execution_failed(agent_id: &str, message: &str) -> (e: Self)
        ensures
            e matches AgentError::ExecutionFailed { agent_id: a, message: m, source: None }
                && a@ == agent_id@ && m@ == message@,
    {
        AgentError::ExecutionFailed {
            agent_id: String::from_str(agent_id),
            message: String::from_str(message),
            source: None,
        }
    }

    /// Like `execution_failed`, keeping the message of the underlying cause.
    pub fn execution_failed_with_source(agent_id: &str, message: &str, source: &str) -> (e: Self)
        ensures
            e matches AgentError::ExecutionFailed { agent_id: a, message: m, source: Some(s) }
                && a@ == agent_id@ && m@ == message@ && s@ == source@,
    {
        AgentError::ExecutionFailed {
            agent_id: String::from_str(agent_id),
            message: String::from_str(message),
            source: Some(String::from_str(source)),
        }
    }

    pub fn communication_error(agent_id: &str, message: &str) -> (e: Self)
        ensures
            e matches AgentError::CommunicationError { agent_id: a, message: m }
                && a@ == agent_id@ && m@ == message@,
    {
        AgentError::CommunicationError {
            agent_id: String::from_str(agent_id),
            message: String::from_str(message),
        }
    }

    pub fn capability_not_found(name: &str) -> (e: Self)
        ensures
            e matches AgentError::CapabilityNotFound { name: n } && n@ == name@,
    {
        AgentError::CapabilityNotFound { name: String::from_str(name) }
    }

    pub fn capability_failed(name: &str, message: &str) -> (e: Self)
        ensures
            e matches AgentError::CapabilityExecutionFailed { name: n, message: m, source: None }
                && n@ == name@ && m@ == message@,
    {
        AgentError::CapabilityExecutionFailed {
            name: String::from_str(name),
            message: String::from_str(message),
            source: None,
        }
    }

    pub fn channel_error(message: &str) -> (e: Self)
        ensures
            e matches AgentError::ChannelError { message: m } && m@ == message@,
    {
        AgentError::ChannelError { message: String::from_str(message) }
    }

    pub fn timeout(operation: &str, duration_ms: u64) -> (e: Self)
        ensures
            e matches AgentError::Timeout { operation: o, duration_ms: d }
                && o@ == operation@ && d == duration_ms,
    {
        AgentError::Timeout { operation: String::from_str(operation), duration_ms }
    }

    pub fn cancelled(task_id: &str) -> (e: Self)
        ensures
            e matches AgentError::Cancelled { task_id: t } && t@ == task_id@,
    {
        AgentError::Cancelled { task_id: String::from_str(task_id) }
    }

    pub fn recoverable(message: &str, suggestion: &str) -> (e: Self)
        ensures
            e matches AgentError::Recoverable { message: m, suggestion: s }
                && m@ == message@ && s@ == suggestion@,
    {
        AgentError::Recoverable {
            message: String::from_str(message),
            suggestion: String::from_str(suggestion),
        }
    }

    pub fn internal(message: &str) -> (e: Self)
        ensures
            e matches AgentError::Internal { message: m } && m@ == message@,
    {
        AgentError::Internal { message: String::from_str(message) }
    }

    pub fn agent_not_found(agent_id: &str) -> (e: Self)
        ensures
            e matches AgentError::AgentNotFound { agent_id: a } && a@ == agent_id@,
    {
        AgentError::AgentNotFound { agent_id: String::from_str(agent_id) }
    }

    pub fn invalid_input(message: &str) -> (e: Self)
        ensures
            e matches AgentError::InvalidInput { message: m } && m@ == message@,
    {
        AgentError::InvalidInput { message: String::from_str(message) }
    }

    pub open spec fn spec_recovery_suggestion(&self) -> Option<Seq<char>> {
        match self {
            AgentError::Timeout { .. } => Some("Consider increasing timeout or checking system load"@),
            AgentError::Cancelled { .. } => Some("Check if task was intentionally cancelled"@),
            AgentError::ChannelError { .. } => Some("Check communication channel status"@),
            AgentError::CommunicationError { .. } => Some("Verify agent connectivity and retry"@),
            AgentError::CapabilityNotFound { .. } => Some("Ensure capability is registered"@),
            AgentError::AgentNotFound { .. } => Some("Verify agent ID is correct"@),
            AgentError::InvalidStateTransition { .. } => Some("Check state machine configuration"@),
            AgentError::InvalidInput { .. } => Some("Validate input parameters"@),
            AgentError::Recoverable { suggestion, .. } => Some(suggestion@),
            _ => None,
        }
    }

    /// A suggested recovery action, where one is known.
    pub fn recovery_suggestion(&self) -> (r: Option<String>)
        ensures
            r matches Some(s) ==> self.spec_recovery_suggestion() == Some(s@),
            r is None <==> self.spec_recovery_suggestion() is None,
    {
        match self {
            AgentError::Timeout { .. } => Some(String::from_str("Consider increasing timeout or checking system load")),
            AgentError::Cancelled { .. } => Some(String::from_str("Check if task was intentionally cancelled")),
            AgentError::ChannelError { .. } => Some(String::from_str("Check communication channel status")),
            AgentError::CommunicationError { .. } => Some(String::from_str("Verify agent connectivity and retry")),
            AgentError::CapabilityNotFound { .. } => Some(String::from_str("Ensure capability is registered")),
            AgentError::AgentNotFound { .. } => Some(String::from_str("Verify agent ID is correct")),
            AgentError::InvalidStateTransition { .. } => Some(String::from_str("Check state machine configuration")),
            AgentError::InvalidInput { .. } => Some(String::from_str("Validate input parameters")),
            AgentError::Recoverable { suggestion, .. } => Some(suggestion.clone()),
            _ => None,
        }
    }

    pub open spec fn spec_retry_delay_ms(&self) -> Option<u64> {
        match self {
            AgentError::Timeout { duration_ms, .. } => Some((*duration_ms / 2) as u64),
            AgentError::Recoverable { .. } => Some(1000),
            _ => None,
        }
    }

    /// The delay before a retry: half the timed-out duration, or one second
    /// for a recoverable error.
    pub fn retry_delay_ms(&self) -> (r: Option<u64>)
        ensures
            r == self.spec_retry_delay_ms(),
    {
        match self {
            AgentError::Timeout { duration_ms, .. } => Some(*duration_ms / 2),
            AgentError::Recoverable { .. } => Some(1000),
            _ => None,
        }
    }

    /// The text by which the error is displayed.
    pub open spec fn spec_message(&self) -> Seq<char> {
        match self {
            AgentError::UnderstandingFailed { agent_id, message, .. } =>
                "["@ + agent_id@ + "] Task understanding failed: "@ + message@,
            AgentError::DecompositionFailed { agent_id, message, .. } =>
                "["@ + agent_id@ + "] Task decomposition failed: "@ + message@,
            AgentError::ExecutionFailed { agent_id, message, .. } =>
                "["@ + agent_id@ + "] Task execution failed: "@ + message@,
            AgentError::CommunicationError { agent_id, message } =>
                "["@ + agent_id@ + "] Communication error: "@ + message@,
            AgentError::InvalidStateTransition { from, to } =>
                "State transition from '"@ + from@ + "' to '"@ + to@ + "' is not allowed"@,
            AgentError::CapabilityNotFound { name } => "Capability '"@ + name@ + "' not found"@,
            AgentError::CapabilityExecutionFailed { name, message, .. } =>
                "Capability '"@ + name@ + "' execution failed: "@ + message@,
            AgentError::ChannelError { message } => "Channel error: "@ + message@,
            AgentError::Cancelled { task_id } => "Task '"@ + task_id@ + "' was cancelled"@,
            AgentError::Timeout { operation, duration_ms } =>
                "Operation '"@ + operation@ + "' timed out after "@ + decimal(*duration_ms as nat) + "ms"@,
            AgentError::AgentNotFound { agent_id } => "Agent '"@ + agent_id@ + "' not found"@,
            AgentError::InvalidInput { message } => "Invalid input: "@ + message@,
            AgentError::Recoverable { message, suggestion } =>
                message@ + ". Suggestion: "@ + suggestion@,
            AgentError::Internal { message } => "Internal error: "@ + message@,
        }
    }

    /// The error's display text.
    pub fn message(&self) -> (s: String)
        ensures
            s@ == self.spec_message(),
    {
        match self {
            AgentError::UnderstandingFailed { agent_id, message, .. } =>
                String::from_str("[").concat(agent_id.as_str()).concat("] Task understanding failed: ").concat(message.as_str()),
            AgentError::DecompositionFailed { agent_id, message, .. } =>
                String::from_str("[").concat(agent_id.as_str()).concat("] Task decomposition failed: ").concat(message.as_str()),
            AgentError::ExecutionFailed { agent_id, message, .. } =>
                String::from_str("[").concat(agent_id.as_str()).concat("] Task execution failed: ").concat(message.as_str()),
            AgentError::CommunicationError { agent_id, message } =>
                String::from_str("[").concat(agent_id.as_str()).concat("] Communication error: ").concat(message.as_str()),
            AgentError::InvalidStateTransition { from, to } =>
                String::from_str("State transition from '").concat(from.as_str()).concat("' to '").concat(to.as_str()).concat("' is not allowed"),
            AgentError::CapabilityNotFound { name } =>
                String::from_str("Capability '").concat(name.as_str()).concat("' not found"),
            AgentError::CapabilityExecutionFailed { name, message, .. } =>
                String::from_str("Capability '").concat(name.as_str()).concat("' execution failed: ").concat(message.as_str()),
            AgentError::ChannelError { message } =>
                String::from_str("Channel error: ").concat(message.as_str()),
            AgentError::Cancelled { task_id } =>
                String::from_str("Task '").concat(task_id.as_str()).concat("' was cancelled"),
            AgentError::Timeout { operation, duration_ms } => {
                let d = u64_to_string(*duration_ms);
                String::from_str("Operation '").concat(operation.as_str()).concat("' timed out after ").concat(d.as_str()).concat("ms")
            }
            AgentError::AgentNotFound { agent_id } =>
                String::from_str("Agent '").concat(agent_id.as_str()).concat("' not found"),
            AgentError::InvalidInput { message } =>
                String::from_str("Invalid input: ").concat(message.as_str()),
            AgentError::Recoverable { message, suggestion } =>
                message.clone().concat(". Suggestion: ").concat(suggestion.as_str()),
            AgentError::Internal { message } =>
                String::from_str("Internal error: ").concat(message.as_str()),
        }
    }
}


/// Every error that asks for a retry is recoverable.
pub proof fn law_retried_errors_are_recoverable(e: AgentError)
    ensures
        e.spec_should_retry() ==> e.spec_is_recoverable(),
{
}

/// Every error that carries a retry delay is recoverable.
pub proof fn law_delayed_errors_are_recoverable(e: AgentError)
    ensures
        e.spec_retry_delay_ms() is Some ==> e.spec_is_recoverable(),
{
}

/// A timed-out operation is retried after half its time limit, a
/// recoverable error after one second; no other error names a delay.
pub proof fn law_retry_delays_by_error(e: AgentError)
    ensures
        e matches AgentError::Timeout { duration_ms, .. } ==> e.spec_retry_delay_ms() == Some((duration_ms / 2) as u64)
            && 2 * e.spec_retry_delay_ms()->0 <= duration_ms && duration_ms <= 2 * e.spec_retry_delay_ms()->0 + 1,
        e is Recoverable ==> e.spec_retry_delay_ms() == Some(1000u64),
        !(e is Timeout || e is Recoverable) ==> e.spec_retry_delay_ms() is None,
{
}

/// Errors caused by the task itself (failed understanding, decomposition or
/// execution, a failing capability, internal errors) are permanent: they are
/// neither recoverable nor retried, and come with no suggestion; timeouts,
/// channel and communication errors are retried.
pub proof fn law_permanent_errors_are_final(e: AgentError)
    ensures
        (e is UnderstandingFailed || e is DecompositionFailed || e is ExecutionFailed
            || e is CapabilityExecutionFailed || e is Internal) ==> e.spec_category() == ErrorCategory::Permanent
            && !e.spec_is_recoverable() && !e.spec_should_retry() && e.spec_recovery_suggestion() is None,
        e.spec_should_retry() <==> (e is Timeout || e is ChannelError || e is CommunicationError),
        (e is InvalidInput || e is InvalidStateTransition) ==> e.spec_category() == ErrorCategory::Validation,
        (e is CapabilityNotFound || e is AgentNotFound) ==> e.spec_category() == ErrorCategory::Configuration,
{
}

} // verus!
