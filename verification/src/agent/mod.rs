//! Agents: their life-cycle state machine and the tasks they work on.

pub mod state;
pub mod task;
pub mod lifecycle;
