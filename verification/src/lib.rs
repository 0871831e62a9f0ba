//! Verified core of a multi-agent collaboration framework: agent life-cycle
//! state machines, retry policies and circuit breaking, task analysis and
//! decomposition into execution plans, agent assignment, heuristic code
//! analysis, result aggregation, and the decision logic that drives LLM
//! provider fallback.

pub mod text;
pub mod scan;
pub mod json;
pub mod ids;
pub mod time;
pub mod error;
pub mod agent;
pub mod capability;
pub mod communication;
pub mod retry;
pub mod decomposer;
pub mod analysis;
pub mod coordinator;
pub mod llm;
pub mod logging;

pub use agent::lifecycle::AgentCore;
pub use agent::state::{AgentState, StateMachine, StateRecord, TransitionRule};
pub use agent::task::{Output, SubTask, Task};
pub use capability::CapabilityInfo;
pub use communication::message::{EventPayload, Message, QueryPayload, ResponsePayload, TaskPayload};
pub use coordinator::result::{ParallelExecutionResult, SubtaskResult};
pub use coordinator::setup::{CoordinatorConfig, SpecialistKind, SpecializedAgent};
pub use decomposer::analyzer::{Complexity, Dependency, DependencyType, TaskAnalysis, TaskAnalyzer};
pub use decomposer::assigner::{AgentAssigner, AgentInfo, AssignmentStrategy};
pub use decomposer::hybrid::HybridStrategy;
pub use decomposer::parallel::ParallelStrategy;
pub use decomposer::plan::{ExecutionPlan, ExecutionStage};
pub use decomposer::sequential::SequentialStrategy;
pub use decomposer::strategy::{DecompositionResult, StrategyType};
pub use error::{AgentError, ErrorCategory};
pub use json::Json;
pub use llm::client::{CompletionResponse, Message as LLMMessage, Usage};
pub use llm::config::{LLMConfig, Provider};
pub use llm::error::{LLMError, LLMResult};
pub use llm::fallback::FallbackConfig;
pub use logging::LoggingConfig;
pub use retry::circuit_breaker::{CircuitBreaker, CircuitBreakerConfig, CircuitState};
pub use retry::executor::{RetryExecutor, RetryExecutorBuilder, RetryResult, RetryableError};
pub use retry::policy::{BackoffStrategy, RetryConfig, RetryPolicy};
