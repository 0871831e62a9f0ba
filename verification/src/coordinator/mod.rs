//! Coordinating specialised agents: subtask results, summaries, and the
//! coordinator's setup.

pub mod result;
pub mod summary;
pub mod setup;
