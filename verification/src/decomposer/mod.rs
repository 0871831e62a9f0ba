//! Task decomposition: analysing a task, splitting it into subtasks, and
//! assigning the subtasks to agents.

pub mod strategy;
pub mod analyzer;
pub mod assigner;
pub mod plan;
pub mod sequential;
pub mod parallel;
pub mod hybrid;
