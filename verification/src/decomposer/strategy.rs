//! Decomposition strategies and their results.

use vstd::prelude::*;
use std::time::Duration;
use crate::agent::task::SubTask;

verus! {

/// How the subtasks of a task are run.
#[derive(Debug, Clone, Copy, PartialEq, Eq, Structural)]
pub enum StrategyType {
    Sequential,
    Parallel,
    Hybrid,
}

impl StrategyType {
    pub open spec fn spec_name(self) -> Seq<char> {
        match self {
            StrategyType::Sequential => "Sequential"@,
            StrategyType::Parallel => "Parallel"@,
            StrategyType::Hybrid => "Hybrid"@,
        }
    }

    /// The strategy's name, as it is displayed.
    pub fn name(&self) -> (s: &'static str)
        ensures
            s@ == self.spec_name(),
    {
        match self {
            StrategyType::Sequential => "Sequential",
            StrategyType::Parallel => "Parallel",
            StrategyType::Hybrid => "Hybrid",
        }
    }
}

/// The subtasks a task was split into, with the strategy that split it.
#[derive(Debug)]
pub struct DecompositionResult {
    pub subtasks: Vec<SubTask>,
    pub strategy_used: StrategyType,
    pub estimated_duration: Option<Duration>,
}

} // verus!
