//! Retrying: backoff policies, a circuit breaker, and the decisions of the
//! retry loop.

pub mod policy;
pub mod circuit_breaker;
pub mod executor;
