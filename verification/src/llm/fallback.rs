//! Retrying a primary provider and falling back to a secondary one.
//!
//! The calls themselves are made by the caller: `FallbackRun` decides, from
//! each provider's answer, what to do next.

use vstd::prelude::*;
use std::time::Duration;
use crate::llm::client::CompletionResponse;
use crate::llm::config::Provider;
use crate::llm::error::LLMError;
use crate::retry::policy::{sat, saturating_mul, saturating_pow2, two_pow};
use crate::time::{duration_from_millis, duration_of_millis, millis_of};

verus! {

/// How the fallback client retries and when it falls back.
#[derive(Debug, Clone, Copy, PartialEq, Eq)]
pub struct FallbackConfig {
    pub max_retries: u32,
    pub retry_delay_ms: u64,
    pub exponential_backoff: bool,
    pub fallback_on_rate_limit: bool,
    pub fallback_on_content_filter: bool,
}

impl Default for FallbackConfig {
    /// Three attempts, one second apart and doubling, falling back on rate
    /// limits and content filters.
    fn default() -> (c: Self)
        ensures
            c == (FallbackConfig {
                max_retries: 3,
                retry_delay_ms: 1000,
                exponential_backoff: true,
                fallback_on_rate_limit: true,
                fallback_on_content_filter: true,
            }),
    {
        FallbackConfig {
            max_retries: 3,
            retry_delay_ms: 1000,
            exponential_backoff: true,
            fallback_on_rate_limit: true,
            fallback_on_content_filter: true,
        }
    }
}

impl FallbackConfig {
    /// The wait before the retry that follows attempt `attempt` (from 0):
    /// the base delay, times `2^attempt` with exponential backoff, saturating.
    pub open spec fn spec_delay_ms(&self, attempt: u32) -> u64 {
        if self.exponential_backoff {
            sat(self.retry_delay_ms * sat(two_pow(attempt as nat) as int))
        } else {
            self.retry_delay_ms
        }
    }

    /// Whether an error of the primary provider sends the request to the
    /// secondary one: rate limits and content filters as configured;
    /// unavailable providers and services and overloaded models always.
    pub open spec fn spec_should_fallback(&self, e: LLMError) -> bool {
        match e {
            LLMError::RateLimited { .. } => self.fallback_on_rate_limit,
            LLMError::ContentFiltered { .. } => self.fallback_on_content_filter,
            LLMError::ProviderUnavailable { .. } => true,
            LLMError::ModelOverloaded { .. } => true,
            LLMError::ServiceUnavailable => true,
            _ => false,
        }
    }

    pub fn calculate_delay_ms(&self, attempt: u32) -> (d: u64)
        ensures
            d == self.spec_delay_ms(attempt),
    {
        if self.exponential_backoff {
            let multiplier = saturating_pow2(attempt);
            saturating_mul(self.retry_delay_ms, multiplier)
        } else {
            self.retry_delay_ms
        }
    }

    pub fn calculate_delay(&self, attempt: u32) -> (d: Duration)
        ensures
            d == duration_of_millis(self.spec_delay_ms(attempt)),
            millis_of(d) == self.spec_delay_ms(attempt),
    {
        duration_from_millis(self.calculate_delay_ms(attempt))
    }

    pub fn should_fallback(&self, error: &LLMError) -> (b: bool)
        ensures
            b == self.spec_should_fallback(*error),
    {
        match error {
            LLMError::RateLimited { .. } => self.fallback_on_rate_limit,
            LLMError::ContentFiltered { .. } => self.fallback_on_content_filter,
            LLMError::ProviderUnavailable { .. } => true,
            LLMError::ModelOverloaded { .. } => true,
            LLMError::ServiceUnavailable => true,
            _ => false,
        }
    }
}

/// Where a fallback run stands.
#[derive(Debug, Clone, Copy, PartialEq, Eq, Structural)]
pub enum FallbackPhase {
    /// Waiting for the primary provider's answer.
    Primary,
    /// Waiting for the secondary provider's answer.
    Secondary,
    /// Finished.
    Done,
}

/// What the caller does next.
#[derive(Debug)]
pub enum FallbackAction {
    /// Send the request to the primary provider.
    CallPrimary,
    /// Wait `delay_ms` milliseconds, then send the request to the primary provider again.
    RetryPrimaryAfter { delay_ms: u64 },
    /// Send the request to the secondary provider.
    CallSecondary,
    /// Stop with this outcome.
    Finish(Result<CompletionResponse, LLMError>),
}

/// One request's way through the primary and secondary providers.
pub struct FallbackRun {
    config: FallbackConfig,
    has_secondary: bool,
    attempt: u32,
    phase: FallbackPhase,
}

impl FallbackRun {
    pub closed spec fn spec_config(&self) -> FallbackConfig {
        self.config
    }

    pub closed spec fn spec_has_secondary(&self) -> bool {
        self.has_secondary
    }

    /// The number of the primary attempt awaited or last made, from 0.
    pub closed spec fn spec_attempt(&self) -> u32 {
        self.attempt
    }

    pub closed spec fn spec_phase(&self) -> FallbackPhase {
        self.phase
    }

    /// While the primary provider's answer is awaited, fewer attempts than
    /// `max_retries` have been made before this one.
    pub open spec fn wf(&self) -> bool {
        self.spec_phase() == FallbackPhase::Primary ==> self.spec_attempt() < self.spec_config().max_retries
    }

    /// Starts a run: the primary provider first, if any attempt is allowed;
    /// else the secondary one; else the run ends with `ServiceUnavailable`.
    pub fn start(config: FallbackConfig, has_secondary: bool) -> (res: (FallbackRun, FallbackAction))
        ensures
            res.0.wf(),
            res.0.spec_config() == config,
            res.0.spec_has_secondary() == has_secondary,
            res.0.spec_attempt() == 0,
            config.max_retries > 0 ==> res.0.spec_phase() == FallbackPhase::Primary && res.1 is CallPrimary,
            config.max_retries == 0 && has_secondary ==>
                res.0.spec_phase() == FallbackPhase::Secondary && res.1 is CallSecondary,
            config.max_retries == 0 && !has_secondary ==> res.0.spec_phase() == FallbackPhase::Done
                && res.1 matches FallbackAction::Finish(Err(LLMError::ServiceUnavailable)),
    {
        if config.max_retries > 0 {
            (FallbackRun { config, has_secondary, attempt: 0, phase: FallbackPhase::Primary }, FallbackAction::CallPrimary)
        } else if has_secondary {
            (FallbackRun { config, has_secondary, attempt: 0, phase: FallbackPhase::Secondary }, FallbackAction::CallSecondary)
        } else {
            (
                FallbackRun { config, has_secondary, attempt: 0, phase: FallbackPhase::Done },
                FallbackAction::Finish(Err(LLMError::ServiceUnavailable)),
            )
        }
    }

    /// Takes the primary provider's answer. A response ends the run. An
    /// error that is retryable, with attempts left, is retried after the
    /// backoff delay of this attempt; one that calls for fallback goes to the
    /// secondary provider when there is one; any other error ends the run.
    pub fn on_primary(&mut self, result: Result<CompletionResponse, LLMError>) -> (action: FallbackAction)
        requires
            old(self).wf(),
            old(self).spec_phase() == FallbackPhase::Primary,
        ensures
            final(self).wf(),
            final(self).spec_config() == old(self).spec_config(),
            final(self).spec_has_secondary() == old(self).spec_has_secondary(),
            ({
                let c = old(self).spec_config();
                let a = old(self).spec_attempt();
                match result {
                    Ok(r) => final(self).spec_phase() == FallbackPhase::Done && action == FallbackAction::Finish(Ok(r))
                        && final(self).spec_attempt() == a,
                    Err(e) => if e.spec_is_retryable() && a + 1 < c.max_retries {
                        &&& final(self).spec_phase() == FallbackPhase::Primary
                        &&& final(self).spec_attempt() == a + 1
                        &&& action == (FallbackAction::RetryPrimaryAfter { delay_ms: c.spec_delay_ms(a) })
                    } else if c.spec_should_fallback(e) && old(self).spec_has_secondary() {
                        &&& final(self).spec_phase() == FallbackPhase::Secondary
                        &&& final(self).spec_attempt() == a
                        &&& action is CallSecondary
                    } else {
                        &&& final(self).spec_phase() == FallbackPhase::Done
                        &&& final(self).spec_attempt() == a
                        &&& action == FallbackAction::Finish(Err(e))
                    },
                }
            }),
    {
        match result {
            Ok(r) => {
                self.phase = FallbackPhase::Done;
                FallbackAction::Finish(Ok(r))
            },
            Err(e) => {
                if e.is_retryable() && self.attempt + 1 < self.config.max_retries {
                    let delay_ms = self.config.calculate_delay_ms(self.attempt);
                    self.attempt = self.attempt + 1;
                    FallbackAction::RetryPrimaryAfter { delay_ms }
                } else if self.config.should_fallback(&e) && self.has_secondary {
                    self.phase = FallbackPhase::Secondary;
                    FallbackAction::CallSecondary
                } else {
                    self.phase = FallbackPhase::Done;
                    FallbackAction::Finish(Err(e))
                }
            },
        }
    }

    /// Takes the secondary provider's answer, which ends the run as it is.
    pub fn on_secondary(&mut self, result: Result<CompletionResponse, LLMError>) -> (action: FallbackAction)
        requires
            old(self).spec_phase() == FallbackPhase::Secondary,
        ensures
            final(self).wf(),
            final(self).spec_phase() == FallbackPhase::Done,
            final(self).spec_config() == old(self).spec_config(),
            final(self).spec_has_secondary() == old(self).spec_has_secondary(),
            final(self).spec_attempt() == old(self).spec_attempt(),
            action == FallbackAction::Finish(result),
    {
        self.phase = FallbackPhase::Done;
        FallbackAction::Finish(result)
    }

    pub fn phase(&self) -> (p: FallbackPhase)
        ensures
            p == self.spec_phase(),
    {
        self.phase
    }
}

/// Providers' health as last recorded; a provider never recorded counts as healthy.
pub struct ProviderHealth {
    openai: Option<bool>,
    anthropic: Option<bool>,
}

impl ProviderHealth {
    pub closed spec fn spec_recorded(&self, p: Provider) -> Option<bool> {
        match p {
            Provider::OpenAI => self.openai,
            Provider::Anthropic => self.anthropic,
        }
    }

    /// Whether `p` counts as healthy.
    pub open spec fn spec_is_healthy(&self, p: Provider) -> bool {
        match self.spec_recorded(p) {
            Some(h) => h,
            None => true,
        }
    }

    pub fn new() -> (h: Self)
        ensures
            forall|p: Provider| #[trigger] h.spec_recorded(p) is None,
    {
        ProviderHealth { openai: None, anthropic: None }
    }

    /// Records the health of `provider`.
    pub fn mark(&mut self, provider: Provider, healthy: bool)
        ensures
            final(self).spec_recorded(provider) == Some(healthy),
            forall|p: Provider| p != provider ==> #[trigger] final(self).spec_recorded(p) == old(self).spec_recorded(p),
    {
        match provider {
            Provider::OpenAI => self.openai = Some(healthy),
            Provider::Anthropic => self.anthropic = Some(healthy),
        }
    }

    /// The recorded health of `provider`, healthy when none was recorded.
    pub fn is_healthy(&self, provider: Provider) -> (b: bool)
        ensures
            b == self.spec_is_healthy(provider),
    {
        let recorded = match provider {
            Provider::OpenAI => self.openai,
            Provider::Anthropic => self.anthropic,
        };
        match recorded {
            Some(h) => h,
            None => true,
        }
    }
}

/// Which errors of the primary provider send a request to the secondary
/// one: an unavailable provider or service and an overloaded model under
/// every configuration; a rate limit or a content filter as configured;
/// nothing else.
pub proof fn law_fallback_errors(c: FallbackConfig, e: LLMError)
    ensures
        (e is ProviderUnavailable || e is ModelOverloaded || e is ServiceUnavailable) ==> c.spec_should_fallback(e),
        e is RateLimited ==> (c.spec_should_fallback(e) <==> c.fallback_on_rate_limit),
        e is ContentFiltered ==> (c.spec_should_fallback(e) <==> c.fallback_on_content_filter),
        !(e is ProviderUnavailable || e is ModelOverloaded || e is ServiceUnavailable || e is RateLimited
            || e is ContentFiltered) ==> !c.spec_should_fallback(e),
{
}

/// Which errors are worth retrying: rate limits, timeouts, unavailable
/// services, network errors and overloaded models, and no others.
pub proof fn law_retryable_llm_errors(e: LLMError)
    ensures
        e.spec_is_retryable() <==> (e is RateLimited || e is Timeout || e is ServiceUnavailable
            || e is NetworkError || e is ModelOverloaded),
        (e is AuthenticationFailed || e is InvalidRequest || e is ContentFiltered || e is ConfigurationError)
            ==> !e.spec_is_retryable(),
{
}

/// Without exponential backoff every retry waits the configured delay; with
/// it, the wait after attempt `a` is the delay times `2^a` while that fits.
pub proof fn law_fallback_delays(c: FallbackConfig, a: u32)
    ensures
        !c.exponential_backoff ==> c.spec_delay_ms(a) == c.retry_delay_ms,
        c.exponential_backoff && c.retry_delay_ms * vstd::arithmetic::power2::pow2(a as nat) <= u64::MAX
            ==> c.spec_delay_ms(a) == c.retry_delay_ms * vstd::arithmetic::power2::pow2(a as nat),
{
    if c.exponential_backoff {
        crate::retry::policy::lemma_two_pow_is_pow2(a as nat);
        let p = two_pow(a as nat);
        let b = c.retry_delay_ms;
        if b > 0 {
            assert(p <= b * p) by (nonlinear_arith)
                requires b >= 1, p >= 0;
        } else {
            let q = sat(p as int);
            assert(b * q == 0 && b * p == 0) by (nonlinear_arith)
                requires b == 0;
        }
    }
}

} // verus!
