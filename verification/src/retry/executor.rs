//! The decisions of the retry loop: what an attempt's outcome leads to, and
//! the results a retried operation ends with. The loop itself, which awaits
//! the operation and sleeps between attempts, is driven by the caller.

use vstd::prelude::*;
use std::time::Duration;
use crate::error::AgentError;
use crate::retry::policy::{BackoffStrategy, RetryConfig, RetryPolicy, delay_ms};

verus! {

/// Errors that tell the retry machinery whether to try again.
pub trait RetryableError: Sized {
    spec fn spec_is_retryable(&self) -> bool;

    spec fn spec_is_timeout(&self) -> bool;

    spec fn spec_is_transient(&self) -> bool;

    /// Whether this error should trigger another attempt.
    fn is_retryable(&self) -> (b: bool)
        ensures
            b == self.spec_is_retryable(),
    ;

    /// Whether this error is a timeout.
    fn is_timeout(&self) -> (b: bool)
        ensures
            b == self.spec_is_timeout(),
    ;

    /// Whether this error is transient, caused by a passing condition.
    fn is_transient(&self) -> (b: bool)
        ensures
            b == self.spec_is_transient(),
    ;

    /// A suggested delay before retrying, if the error knows one; by
    /// default none is suggested.
    fn retry_after(&self) -> (d: Option<Duration>)
        default_ensures
            d is None,
    {
        None
    }

    /// A message describing the error.
    fn to_error_message(&self) -> String;

    /// The error reported when an attempt at `operation` timed out after
    /// `duration_ms` milliseconds; it is a timeout.
    fn create_timeout_error(operation: &str, duration_ms: u64) -> (e: Self)
        ensures
            e.spec_is_timeout(),
    ;
}

impl RetryableError for AgentError {
    open spec fn spec_is_retryable(&self) -> bool {
        self.spec_should_retry()
    }

    open spec fn spec_is_timeout(&self) -> bool {
        self is Timeout
    }

    open spec fn spec_is_transient(&self) -> bool {
        self.spec_is_recoverable()
    }

    fn is_retryable(&self) -> (b: bool) {
        self.should_retry()
    }

    fn is_timeout(&self) -> (b: bool) {
        match self {
            AgentError::Timeout { .. } => true,
            _ => false,
        }
    }

    fn is_transient(&self) -> (b: bool) {
        self.is_recoverable()
    }

    /// The error's display text.
    fn to_error_message(&self) -> (s: String)
        ensures
            s@ == self.spec_message(),
    {
        self.message()
    }

    /// `Timeout` naming the operation and the time limit.
    fn create_timeout_error(operation: &str, duration_ms: u64) -> (e: Self)
        ensures
            e matches AgentError::Timeout { operation: o, duration_ms: d }
                && o@ == operation@ && d == duration_ms,
    {
        AgentError::timeout(operation, duration_ms)
    }
}

/// How a retried operation ended.
#[derive(Debug)]
pub enum RetryResult<T, E: RetryableError> {
    /// The operation succeeded.
    Success(T),
    /// The operation failed and no retry was left or due.
    Failed { error: E, attempts: u32, last_delay_ms: Option<u64> },
    /// The circuit breaker blocked the operation.
    CircuitOpen { error: Option<E> },
    /// The operation was cancelled.
    Cancelled,
}

impl<T, E: RetryableError> RetryResult<T, E> {
    pub fn is_success(&self) -> (b: bool)
        ensures
            b == self is Success,
    {
        match self {
            RetryResult::Success(_) => true,
            _ => false,
        }
    }

    pub fn is_failed(&self) -> (b: bool)
        ensures
            b == self is Failed,
    {
        match self {
            RetryResult::Failed { .. } => true,
            _ => false,
        }
    }

    pub fn is_circuit_open(&self) -> (b: bool)
        ensures
            b == self is CircuitOpen,
    {
        match self {
            RetryResult::CircuitOpen { .. } => true,
            _ => false,
        }
    }

    pub fn is_cancelled(&self) -> (b: bool)
        ensures
            b == self is Cancelled,
    {
        match self {
            RetryResult::Cancelled => true,
            _ => false,
        }
    }

    /// The success value; only for a successful result.
    pub fn unwrap(self) -> (v: T)
        requires
            self is Success,
        ensures
            self == RetryResult::<T, E>::Success(v),
    {
        match self {
            RetryResult::Success(value) => value,
            _ => vstd::pervasive::unreached(),
        }
    }

    /// The success value, or `default` for any other result.
    pub fn unwrap_or(self, default: T) -> (v: T)
        ensures
            self matches RetryResult::Success(x) ==> v == x,
            !(self is Success) ==> v == default,
    {
        match self {
            RetryResult::Success(value) => value,
            _ => default,
        }
    }

    /// Applies `f` to a success value; any other result is kept.
    pub fn map<U, F: FnOnce(T) -> U>(self, f: F) -> (r: RetryResult<U, E>)
        requires
            self matches RetryResult::Success(x) ==> f.requires((x,)),
        ensures
            self matches RetryResult::Success(x) ==> (r matches RetryResult::Success(y) && f.ensures((x,), y)),
            self matches RetryResult::Failed { error, attempts, last_delay_ms } ==> r == (RetryResult::<U, E>::Failed { error, attempts, last_delay_ms }),
            self matches RetryResult::CircuitOpen { error } ==> r == (RetryResult::<U, E>::CircuitOpen { error }),
            self is Cancelled ==> r is Cancelled,
    {
        match self {
            RetryResult::Success(value) => RetryResult::Success(f(value)),
            RetryResult::Failed { error, attempts, last_delay_ms } => RetryResult::Failed { error, attempts, last_delay_ms },
            RetryResult::CircuitOpen { error } => RetryResult::CircuitOpen { error },
            RetryResult::Cancelled => RetryResult::Cancelled,
        }
    }
}

/// Where a retried operation stands: attempts made and the last delay waited.
#[derive(Debug, Clone, Copy, PartialEq, Eq, Structural)]
pub struct RetryProgress {
    pub attempts: u32,
    pub last_delay_ms: Option<u64>,
}

impl RetryProgress {
    /// No attempt made yet.
    pub fn new() -> (p: Self)
        ensures
            p.attempts == 0,
            p.last_delay_ms is None,
    {
        RetryProgress { attempts: 0, last_delay_ms: None }
    }

    /// Counts the attempt about to be made.
    pub fn begin_attempt(&mut self)
        requires
            old(self).attempts < u32::MAX,
        ensures
            final(self).attempts == old(self).attempts + 1,
            final(self).last_delay_ms == old(self).last_delay_ms,
    {
        self.attempts = self.attempts + 1;
    }
}

/// What follows a failed attempt.
#[derive(Debug, Clone, Copy, PartialEq, Eq, Structural)]
pub enum RetryDecision {
    /// Report the failure.
    GiveUp,
    /// Wait this long, then attempt again.
    RetryAfter { delay_ms: u64 },
}

/// The decision after a failed attempt: give up when the error is not
/// retried or the attempts have reached `max_retries`; otherwise retry after
/// the delay that `backoff` gives for the attempt number.
pub open spec fn decide_after_failure(
    max_retries: u32,
    backoff: RetryConfig,
    p: RetryProgress,
    retry: bool,
) -> (RetryProgress, RetryDecision) {
    if !retry || p.attempts >= max_retries {
        (p, RetryDecision::GiveUp)
    } else {
        let d = delay_ms(backoff, p.attempts);
        (RetryProgress { last_delay_ms: Some(d), ..p }, RetryDecision::RetryAfter { delay_ms: d })
    }
}

/// Runs an operation with retries: decides after each attempt whether to
/// retry and how long to wait.
pub struct RetryExecutor {
    policy: RetryPolicy,
    config: RetryConfig,
}

impl RetryExecutor {
    /// The configuration that bounds attempts and decides what is retried.
    pub closed spec fn spec_config(&self) -> RetryConfig {
        self.config
    }

    /// The configuration whose backoff gives the delays.
    pub closed spec fn spec_backoff(&self) -> RetryConfig {
        self.policy.spec_config()
    }

    /// An executor whose limits and delays both follow `config`.
    pub fn new(config: RetryConfig) -> (e: Self)
        ensures
            e.spec_config() == config,
            e.spec_backoff().max_retries == config.max_retries,
            e.spec_backoff().base_delay_ms == config.base_delay_ms,
            e.spec_backoff().max_delay_ms == config.max_delay_ms,
            e.spec_backoff().backoff_strategy == config.backoff_strategy,
            e.spec_backoff().custom_delays_ms@ == config.custom_delays_ms@,
    {
        let policy = RetryPolicy::new(config.copy());
        RetryExecutor { policy, config }
    }

    /// An executor whose delays follow `policy`, with the default limits.
    pub fn with_policy(policy: RetryPolicy) -> (e: Self)
        ensures
            e.spec_config().is_default(),
            e.spec_backoff() == policy.spec_config(),
    {
        RetryExecutor { policy, config: RetryConfig::default() }
    }

    pub fn config(&self) -> (c: &RetryConfig)
        ensures
            *c == self.spec_config(),
    {
        &self.config
    }

    pub fn policy(&self) -> (p: &RetryPolicy)
        ensures
            p.spec_config() == self.spec_backoff(),
    {
        &self.policy
    }

    /// Whether `error` is retried: a timeout exactly when timeouts are
    /// retried; any other error when it asks for a retry, or when it is
    /// transient and transient errors are retried.
    pub fn should_retry<E: RetryableError>(&self, error: &E) -> (b: bool)
        ensures
            b == (if error.spec_is_timeout() {
                self.spec_config().retry_on_timeout
            } else {
                error.spec_is_retryable() || (self.spec_config().retry_on_transient && error.spec_is_transient())
            }),
    {
        if error.is_timeout() {
            self.config.retry_on_timeout
        } else {
            error.is_retryable() || (self.config.retry_on_transient && error.is_transient())
        }
    }

    /// Decides what follows an attempt that returned an error; `retry` says
    /// whether the error is retried.
    pub fn after_failure(&self, progress: &mut RetryProgress, retry: bool) -> (d: RetryDecision)
        ensures
            (*final(progress), d) == decide_after_failure(self.spec_config().max_retries, self.spec_backoff(), *old(progress), retry),
    {
        if !retry || progress.attempts >= self.config.max_retries {
            return RetryDecision::GiveUp;
        }
        let delay = self.policy.config().calculate_delay_ms(progress.attempts);
        progress.last_delay_ms = Some(delay);
        RetryDecision::RetryAfter { delay_ms: delay }
    }

    /// Decides what follows an attempt that ran out of time: it is retried
    /// when timeouts are retried.
    pub fn after_timeout(&self, progress: &mut RetryProgress) -> (d: RetryDecision)
        ensures
            (*final(progress), d) == decide_after_failure(self.spec_config().max_retries, self.spec_backoff(), *old(progress), self.spec_config().retry_on_timeout),
    {
        self.after_failure(progress, self.config.retry_on_timeout)
    }

    /// Whether attempts run under a time limit.
    pub fn has_attempt_timeout(&self) -> (b: bool)
        ensures
            b == (self.spec_config().attempt_timeout_ms != 0),
    {
        self.config.attempt_timeout_ms != 0
    }
}

/// Builds a `RetryExecutor` step by step.
pub struct RetryExecutorBuilder {
    pub config: RetryConfig,
}

impl RetryExecutorBuilder {
    pub fn new() -> (b: Self)
        ensures
            b.config.is_default(),
    {
        RetryExecutorBuilder { config: RetryConfig::default() }
    }

    pub fn max_retries(self, max_retries: u32) -> (b: Self)
        ensures
            b.config == (RetryConfig { max_retries, ..self.config }),
    {
        RetryExecutorBuilder { config: RetryConfig { max_retries, ..self.config } }
    }

    pub fn base_delay(self, delay_ms: u64) -> (b: Self)
        ensures
            b.config == (RetryConfig { base_delay_ms: delay_ms, ..self.config }),
    {
        RetryExecutorBuilder { config: RetryConfig { base_delay_ms: delay_ms, ..self.config } }
    }

    pub fn max_delay(self, delay_ms: u64) -> (b: Self)
        ensures
            b.config == (RetryConfig { max_delay_ms: delay_ms, ..self.config }),
    {
        RetryExecutorBuilder { config: RetryConfig { max_delay_ms: delay_ms, ..self.config } }
    }

    pub fn exponential_backoff(self) -> (b: Self)
        ensures
            b.config == (RetryConfig { backoff_strategy: BackoffStrategy::Exponential, ..self.config }),
    {
        RetryExecutorBuilder { config: RetryConfig { backoff_strategy: BackoffStrategy::Exponential, ..self.config } }
    }

    pub fn exponential_with_jitter(self) -> (b: Self)
        ensures
            b.config == (RetryConfig { backoff_strategy: BackoffStrategy::ExponentialWithJitter, ..self.config }),
    {
        RetryExecutorBuilder { config: RetryConfig { backoff_strategy: BackoffStrategy::ExponentialWithJitter, ..self.config } }
    }

    pub fn fixed_backoff(self) -> (b: Self)
        ensures
            b.config == (RetryConfig { backoff_strategy: BackoffStrategy::Fixed, ..self.config }),
    {
        RetryExecutorBuilder { config: RetryConfig { backoff_strategy: BackoffStrategy::Fixed, ..self.config } }
    }

    pub fn linear_backoff(self) -> (b: Self)
        ensures
            b.config == (RetryConfig { backoff_strategy: BackoffStrategy::Linear, ..self.config }),
    {
        RetryExecutorBuilder { config: RetryConfig { backoff_strategy: BackoffStrategy::Linear, ..self.config } }
    }

    pub fn retry_on_timeout(self, retry: bool) -> (b: Self)
        ensures
            b.config == (RetryConfig { retry_on_timeout: retry, ..self.config }),
    {
        RetryExecutorBuilder { config: RetryConfig { retry_on_timeout: retry, ..self.config } }
    }

    pub fn retry_on_transient(self, retry: bool) -> (b: Self)
        ensures
            b.config == (RetryConfig { retry_on_transient: retry, ..self.config }),
    {
        RetryExecutorBuilder { config: RetryConfig { retry_on_transient: retry, ..self.config } }
    }

    pub fn attempt_timeout(self, timeout_ms: u64) -> (b: Self)
        ensures
            b.config == (RetryConfig { attempt_timeout_ms: timeout_ms, ..self.config }),
    {
        RetryExecutorBuilder { config: RetryConfig { attempt_timeout_ms: timeout_ms, ..self.config } }
    }

    pub fn build(self) -> (e: RetryExecutor)
        ensures
            e.spec_config() == self.config,
            e.spec_backoff().max_retries == self.config.max_retries,
            e.spec_backoff().base_delay_ms == self.config.base_delay_ms,
            e.spec_backoff().max_delay_ms == self.config.max_delay_ms,
            e.spec_backoff().backoff_strategy == self.config.backoff_strategy,
            e.spec_backoff().custom_delays_ms@ == self.config.custom_delays_ms@,
    {
        RetryExecutor::new(self.config)
    }
}


/// A retry is scheduled only while fewer attempts than `max_retries` were
/// made, so no operation is attempted more than `max_retries` times (or
/// once, when `max_retries` is 0).
pub proof fn law_retry_only_below_limit(max_retries: u32, backoff: RetryConfig, p: RetryProgress, retry: bool)
    ensures
        decide_after_failure(max_retries, backoff, p, retry).1 is RetryAfter ==> p.attempts < max_retries,
        !retry ==> decide_after_failure(max_retries, backoff, p, retry).1 is GiveUp,
        decide_after_failure(max_retries, backoff, p, retry).0.attempts == p.attempts,
{
}

} // verus!
