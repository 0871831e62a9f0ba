//! Errors of LLM calls and how callers react to them.

use vstd::prelude::*;
use std::time::Duration;
use crate::text::{decimal, u64_to_string};
use crate::time::{duration_from_secs, duration_of_secs};

verus! {

/// What can go wrong when calling an LLM provider.
#[derive(Debug, Clone)]
pub enum LLMError {
    ApiError { message: String, code: Option<String> },
    RateLimited { retry_after: Option<Duration> },
    AuthenticationFailed { reason: String },
    InvalidRequest { details: String },
    InvalidResponse { details: String },
    Timeout { seconds: u64 },
    ProviderUnavailable { provider: String },
    ContentFiltered { reason: String },
    ContextTooLong { actual: usize, max: usize },
    ModelOverloaded { model: String },
    ServiceUnavailable,
    NetworkError { message: String },
    ConfigurationError { message: String },
    InternalError { message: String },
}

pub type LLMResult<T> = core::result::Result<T, LLMError>;

impl LLMError {
    pub open spec fn spec_is_retryable(&self) -> bool {
        self is RateLimited || self is Timeout || self is ServiceUnavailable || self is NetworkError
            || self is ModelOverloaded
    }

    pub open spec fn spec_should_use_fallback(&self) -> bool {
        self is RateLimited || self is ProviderUnavailable || self is ModelOverloaded
    }

    pub open spec fn spec_user_message(&self) -> Seq<char> {
        match self {
            LLMError::ApiError { message, .. } => message@,
            LLMError::AuthenticationFailed { reason } => reason@,
            LLMError::InvalidRequest { details } => details@,
            LLMError::InvalidResponse { details } => details@,
            LLMError::ContentFiltered { reason } => reason@,
            LLMError::ContextTooLong { actual, max } =>
                "Context too long: "@ + decimal(*actual as nat) + " > "@ + decimal(*max as nat),
            LLMError::ConfigurationError { message } => message@,
            LLMError::InternalError { message } => message@,
            _ => "An error occurred"@,
        }
    }

    pub open spec fn spec_retry_after(&self) -> Option<Duration> {
        match self {
            LLMError::RateLimited { retry_after } => *retry_after,
            LLMError::Timeout { seconds } => Some(duration_of_secs(*seconds)),
            _ => None,
        }
    }

    /// Rate limits, timeouts, unavailable services, network errors and
    /// overloaded models are worth retrying.
    pub fn is_retryable(&self) -> (b: bool)
        ensures
            b == self.spec_is_retryable(),
    {
        match self {
            LLMError::RateLimited { .. } | LLMError::Timeout { .. } | LLMError::ServiceUnavailable
            | LLMError::NetworkError { .. } | LLMError::ModelOverloaded { .. } => true,
            _ => false,
        }
    }

    /// The text to show a user: the error's own text where it has one.
    pub fn user_message(&self) -> (s: String)
        ensures
            s@ == self.spec_user_message(),
    {
        match self {
            LLMError::ApiError { message, .. } => message.clone(),
            LLMError::AuthenticationFailed { reason } => reason.clone(),
            LLMError::InvalidRequest { details } => details.clone(),
            LLMError::InvalidResponse { details } => details.clone(),
            LLMError::ContentFiltered { reason } => reason.clone(),
            LLMError::ContextTooLong { actual, max } => {
                let a = u64_to_string(*actual as u64);
                let m = u64_to_string(*max as u64);
                String::from_str("Context too long: ").concat(a.as_str()).concat(" > ").concat(m.as_str())
            },
            LLMError::ConfigurationError { message } => message.clone(),
            LLMError::InternalError { message } => message.clone(),
            _ => String::from_str("An error occurred"),
        }
    }

    /// Rate limits, unavailable providers and overloaded models call for
    /// another provider.
    pub fn should_use_fallback(&self) -> (b: bool)
        ensures
            b == self.spec_should_use_fallback(),
    {
        match self {
            LLMError::RateLimited { .. } | LLMError::ProviderUnavailable { .. }
            | LLMError::ModelOverloaded { .. } => true,
            _ => false,
        }
    }

    /// How long to wait before retrying: the rate limit's hint, or the
    /// timeout's length.
    pub fn retry_after(&self) -> (d: Option<Duration>)
        ensures
            d == self.spec_retry_after(),
    {
        match self {
            LLMError::RateLimited { retry_after } => *retry_after,
            LLMError::Timeout { seconds } => Some(duration_from_secs(*seconds)),
            _ => None,
        }
    }
}

} // verus!
