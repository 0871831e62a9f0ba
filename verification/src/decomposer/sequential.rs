//! The sequential strategy: subtasks run one after another.

use vstd::prelude::*;
use crate::agent::task::{SubTask, Task};
use crate::decomposer::analyzer::{TaskAnalysis, TaskAnalyzer, analysis_of};
use crate::decomposer::assigner::{AgentAssigner, AgentInfo, AssignmentStrategy, round_robin_assigned,
    capability_assigned, load_balanced_assigned, lb_run};
use crate::decomposer::strategy::{DecompositionResult, StrategyType};
use crate::error::AgentError;
use crate::ids::{is_hyphenated_uuid, new_uuid_string};
use crate::json::Json;
use crate::text::{concat3, decimal, u64_to_string};

verus! {

/// `id` is `prefix`, then `tag`, then a fresh hyphenated UUID.
pub open spec fn generated_id(prefix: Seq<char>, tag: Seq<char>, id: Seq<char>) -> bool {
    exists|u: Seq<char>| #[trigger] is_hyphenated_uuid(u) && id == prefix + tag + u
}

/// A fresh subtask id for a subtask of `task_id`: the task id, `tag` and a random UUID.
pub fn fresh_subtask_id(task_id: &str, tag: &str) -> (id: String)
    ensures
        generated_id(task_id@, tag@, id@),
{
    let u = new_uuid_string();
    let id = concat3(task_id, tag, u.as_str());
    proof {
        assert(is_hyphenated_uuid(u@));
    }
    id
}

/// Subtask `i` of the `n` that the sequential strategy makes for task `task_id`.
pub open spec fn sequential_subtask(task_id: Seq<char>, n: usize, i: int, st: SubTask) -> bool {
    &&& generated_id(task_id, "_seq_"@, st.id@)
    &&& st.parent_id@ == task_id
    &&& st.description@ == "Step "@ + decimal((i + 1) as nat) + " of "@ + decimal(n as nat)
    &&& st.parameters is Object
    &&& st.parameters.spec_get("step_index"@) == Some(Json::UInt(i as u64))
    &&& st.parameters.spec_get("total_steps"@) == Some(Json::UInt(n as u64))
    &&& st.parameters.spec_get("execution_order"@) == Some(Json::UInt(i as u64))
    &&& st.assigned_to is None
}

/// What an assigner does to subtasks, by its strategy.
pub open spec fn assigner_result(
    strategy: AssignmentStrategy,
    before: Seq<SubTask>,
    agents: Seq<AgentInfo>,
    after: Seq<SubTask>,
    ok: bool,
) -> bool {
    &&& agents.len() == 0 ==> (!ok && after == before)
    &&& agents.len() > 0 && strategy == AssignmentStrategy::RoundRobin ==>
        ok && round_robin_assigned(before, agents, after)
    &&& agents.len() > 0 && strategy == AssignmentStrategy::CapabilityBased ==>
        ok && capability_assigned(before, agents, after)
    &&& agents.len() > 0 && strategy == AssignmentStrategy::LoadBalanced ==>
        (ok <==> lb_run(agents, before.len()).2) && load_balanced_assigned(before, agents, after)
}

/// Splits a task into steps run one after another.
pub struct SequentialStrategy {
    assigner: AgentAssigner,
}

impl SequentialStrategy {
    pub closed spec fn spec_assignment(&self) -> AssignmentStrategy {
        self.assigner.spec_strategy()
    }

    /// A sequential strategy whose assigner balances load.
    pub fn new() -> (s: Self)
        ensures
            s.spec_assignment() == AssignmentStrategy::LoadBalanced,
    {
        SequentialStrategy { assigner: AgentAssigner::new() }
    }

    pub fn with_assignment_strategy(self, strategy: AssignmentStrategy) -> (s: Self)
        ensures
            s.spec_assignment() == strategy,
    {
        SequentialStrategy { assigner: AgentAssigner::new().with_strategy(strategy) }
    }

    pub fn strategy_type(&self) -> (t: StrategyType)
        ensures
            t == StrategyType::Sequential,
    {
        StrategyType::Sequential
    }

    /// Analyses the task and marks it sequential and not parallelizable.
    pub fn analyze(&self, task: &Task) -> (r: Result<TaskAnalysis, AgentError>)
        ensures
            r matches Ok(a) && exists|base: TaskAnalysis| #[trigger] analysis_of(*task, base)
                && a == (TaskAnalysis { suggested_strategy: StrategyType::Sequential, can_parallelize: false, ..base }),
    {
        let r = TaskAnalyzer::analyze(task);
        match r {
            Ok(base) => {
                let ghost b = base;
                let a = TaskAnalysis { suggested_strategy: StrategyType::Sequential, can_parallelize: false, ..base };
                proof {
                    assert(analysis_of(*task, b));
                }
                Ok(a)
            },
            Err(e) => Err(e),
        }
    }

    /// One subtask per estimated step, each numbered with its place in the order.
    pub fn generate(&self, analysis: &TaskAnalysis) -> (r: Result<Vec<SubTask>, AgentError>)
        ensures
            r matches Ok(v) && v@.len() == analysis.estimated_steps
                && forall|i: int| 0 <= i < v@.len() ==>
                    sequential_subtask(analysis.task_id@, analysis.estimated_steps, i, #[trigger] v@[i]),
    {
        let n = analysis.estimated_steps;
        let mut subtasks: Vec<SubTask> = Vec::new();
        let mut i: usize = 0;
        while i < n
            invariant
                n == analysis.estimated_steps,
                i <= n,
                subtasks@.len() == i,
                forall|t: int| 0 <= t < i ==>
                    sequential_subtask(analysis.task_id@, n, t, #[trigger] subtasks@[t]),
            decreases n - i,
        {
            let id = fresh_subtask_id(analysis.task_id.as_str(), "_seq_");
            let step = u64_to_string((i + 1) as u64);
            let total = u64_to_string(n as u64);
            let description = String::from_str("Step ").concat(step.as_str()).concat(" of ").concat(total.as_str());
            proof {
                reveal_strlit("step_index");
                reveal_strlit("total_steps");
                reveal_strlit("execution_order");
                assert("step_index"@.len() != "total_steps"@.len());
                assert("step_index"@.len() != "execution_order"@.len());
                assert("total_steps"@.len() != "execution_order"@.len());
            }
            let parameters = Json::object3(
                "step_index", Json::UInt(i as u64),
                "total_steps", Json::UInt(n as u64),
                "execution_order", Json::UInt(i as u64),
            );
            let st = SubTask {
                id,
                parent_id: analysis.task_id.clone(),
                description,
                parameters,
                assigned_to: None,
            };
            subtasks.push(st);
            i = i + 1;
        }
        Ok(subtasks)
    }

    /// Assigns the subtasks with the strategy's assigner.
    pub fn assign(&self, subtasks: &mut Vec<SubTask>, agents: &[AgentInfo]) -> (r: Result<(), AgentError>)
        ensures
            assigner_result(self.spec_assignment(), old(subtasks)@, agents@, final(subtasks)@, r is Ok),
    {
        self.assigner.assign(subtasks, agents)
    }

    /// Analyses, generates and assigns in turn, stopping at the first failure.
    pub fn decompose(&self, task: &Task, agents: &[AgentInfo]) -> (r: Result<DecompositionResult, AgentError>)
        ensures
            r matches Ok(d) ==> d.strategy_used == StrategyType::Sequential
                && d.estimated_duration is None
                && exists|before: Seq<SubTask>| {
                    &&& #[trigger] before.len() == d.subtasks@.len()
                    &&& before.len() == (match crate::decomposer::analyzer::context_steps(task.context) {
                            Some(s) => s.len(), None => 1nat })
                    &&& (forall|i: int| 0 <= i < before.len() ==>
                        sequential_subtask(task.id@, before.len() as usize, i, #[trigger] before[i]))
                    &&& assigner_result(self.spec_assignment(), before, agents@, d.subtasks@, true)
                },
            r is Err <==> agents@.len() == 0 || (self.spec_assignment() == AssignmentStrategy::LoadBalanced
                && !lb_run(agents@, match crate::decomposer::analyzer::context_steps(task.context) {
                    Some(s) => s.len(), None => 1nat }).2),
    {
        let analysis = match self.analyze(task) {
            Ok(a) => a,
            Err(e) => return Err(e),
        };
        let mut subtasks = match self.generate(&analysis) {
            Ok(v) => v,
            Err(e) => return Err(e),
        };
        let ghost before = subtasks@;
        match self.assign(&mut subtasks, agents) {
            Ok(()) => {},
            Err(e) => return Err(e),
        }
        proof {
            assert(before.len() == subtasks@.len());
        }
        Ok(DecompositionResult {
            subtasks,
            strategy_used: StrategyType::Sequential,
            estimated_duration: analysis.estimated_duration,
        })
    }
}

impl Default for SequentialStrategy {
    fn default() -> (s: Self)
        ensures
            s.spec_assignment() == AssignmentStrategy::LoadBalanced,
    {
        SequentialStrategy::new()
    }
}

} // verus!
