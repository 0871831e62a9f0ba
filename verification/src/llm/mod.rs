//! The LLM interface layer: provider settings, errors, the wire formats of
//! the providers, and the fallback between providers.

pub mod config;
pub mod error;
pub mod client;
pub mod wire;
pub mod fallback;
