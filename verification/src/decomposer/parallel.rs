//! The parallel strategy: subtasks run side by side, in groups of bounded size.

use vstd::prelude::*;
use std::time::Duration;
use crate::agent::task::{SubTask, Task};
use crate::decomposer::analyzer::{TaskAnalysis, TaskAnalyzer, analysis_of, context_steps};
use crate::decomposer::assigner::{AgentAssigner, AgentInfo, AssignmentStrategy, lb_run};
use crate::decomposer::sequential::{assigner_result, fresh_subtask_id, generated_id};
use crate::decomposer::strategy::{DecompositionResult, StrategyType};
use crate::error::AgentError;
use crate::json::Json;
use crate::text::{decimal, u64_to_string};
use crate::time::{duration_from_secs, duration_of_secs};

verus! {

/// The number of steps the task's context announces (one without a `steps` array).
pub open spec fn announced_steps(task: Task) -> nat {
    match context_steps(task.context) {
        Some(s) => s.len(),
        None => 1,
    }
}

/// How many rounds of at most `max_parallel` subtasks run `steps` subtasks.
pub open spec fn parallel_groups(steps: nat, max_parallel: nat) -> nat
    recommends
        max_parallel > 0,
{
    ((steps + max_parallel - 1) / (max_parallel as int)) as nat
}

/// Subtask `i` of the `n` that the parallel strategy makes for task `task_id`.
pub open spec fn parallel_subtask(task_id: Seq<char>, n: usize, i: int, st: SubTask) -> bool {
    &&& generated_id(task_id, "_par_"@, st.id@)
    &&& st.parent_id@ == task_id
    &&& st.description@ == "Parallel task "@ + decimal((i + 1) as nat)
    &&& st.parameters is Object
    &&& st.parameters.spec_get("parallel_index"@) == Some(Json::UInt(i as u64))
    &&& st.parameters.spec_get("total_parallel"@) == Some(Json::UInt(n as u64))
    &&& st.parameters.spec_get("can_run_in_parallel"@) == Some(Json::Bool(true))
    &&& st.assigned_to is None
}

/// Splits a task into steps that all run at once, at most `max_parallel` at a time.
pub struct ParallelStrategy {
    assigner: AgentAssigner,
    max_parallel: usize,
}

impl ParallelStrategy {
    pub closed spec fn spec_assignment(&self) -> AssignmentStrategy {
        self.assigner.spec_strategy()
    }

    pub closed spec fn spec_max_parallel(&self) -> usize {
        self.max_parallel
    }

    /// A parallel strategy that balances load, ten subtasks at a time.
    pub fn new() -> (s: Self)
        ensures
            s.spec_assignment() == AssignmentStrategy::LoadBalanced,
            s.spec_max_parallel() == 10,
    {
        ParallelStrategy {
            assigner: AgentAssigner::new().with_strategy(AssignmentStrategy::LoadBalanced),
            max_parallel: 10,
        }
    }

    pub fn with_max_parallel(self, max: usize) -> (s: Self)
        ensures
            s.spec_assignment() == self.spec_assignment(),
            s.spec_max_parallel() == max,
    {
        ParallelStrategy { max_parallel: max, ..self }
    }

    /// The most subtasks that run at once.
    pub fn max_parallel(&self) -> (m: usize)
        ensures
            m == self.spec_max_parallel(),
    {
        self.max_parallel
    }

    pub fn strategy_type(&self) -> (t: StrategyType)
        ensures
            t == StrategyType::Parallel,
    {
        StrategyType::Parallel
    }

    /// Analyses the task, marks it parallel, drops its dependencies, and
    /// estimates one second per round of `max_parallel` subtasks.
    pub fn analyze(&self, task: &Task) -> (r: Result<TaskAnalysis, AgentError>)
        requires
            self.spec_max_parallel() > 0,
            announced_steps(*task) + self.spec_max_parallel() - 1 <= usize::MAX,
        ensures
            r matches Ok(a) && exists|base: TaskAnalysis| #[trigger] analysis_of(*task, base)
                && a.task_id == base.task_id
                && a.complexity == base.complexity
                && a.required_capabilities == base.required_capabilities
                && a.estimated_steps == base.estimated_steps
                && a.dependencies@.len() == 0
                && a.can_parallelize
                && a.suggested_strategy == StrategyType::Parallel
                && a.estimated_duration == (if base.estimated_steps > 0 {
                    Some(duration_of_secs(parallel_groups(base.estimated_steps as nat, self.spec_max_parallel() as nat) as u64))
                } else {
                    None::<Duration>
                }),
    {
        let r = TaskAnalyzer::analyze(task);
        match r {
            Ok(base) => {
                let ghost b = base;
                proof {
                    assert(analysis_of(*task, b));
                    assert(b.estimated_steps == announced_steps(*task));
                }
                let mut a = base;
                a.suggested_strategy = StrategyType::Parallel;
                a.can_parallelize = true;
                a.dependencies.clear();
                if a.estimated_steps > 0 {
                    let groups = (a.estimated_steps + (self.max_parallel - 1)) / self.max_parallel;
                    a.estimated_duration = Some(duration_from_secs(groups as u64));
                }
                Ok(a)
            },
            Err(e) => Err(e),
        }
    }

    /// One subtask per estimated step, each marked as able to run in parallel.
    pub fn generate(&self, analysis: &TaskAnalysis) -> (r: Result<Vec<SubTask>, AgentError>)
        ensures
            r matches Ok(v) && v@.len() == analysis.estimated_steps
                && forall|i: int| 0 <= i < v@.len() ==>
                    parallel_subtask(analysis.task_id@, analysis.estimated_steps, i, #[trigger] v@[i]),
    {
        let n = analysis.estimated_steps;
        let mut subtasks: Vec<SubTask> = Vec::new();
        let mut i: usize = 0;
        while i < n
            invariant
                n == analysis.estimated_steps,
                i <= n,
                subtasks@.len() == i,
                forall|t: int| 0 <= t < i ==>
                    parallel_subtask(analysis.task_id@, n, t, #[trigger] subtasks@[t]),
            decreases n - i,
        {
            let id = fresh_subtask_id(analysis.task_id.as_str(), "_par_");
            let number = u64_to_string((i + 1) as u64);
            let description = String::from_str("Parallel task ").concat(number.as_str());
            proof {
                reveal_strlit("parallel_index");
                reveal_strlit("total_parallel");
                reveal_strlit("can_run_in_parallel");
                assert("parallel_index"@.len() != "can_run_in_parallel"@.len());
                assert("total_parallel"@.len() != "can_run_in_parallel"@.len());
                assert("parallel_index"@[0] != "total_parallel"@[0]);
            }
            let parameters = Json::object3(
                "parallel_index", Json::UInt(i as u64),
                "total_parallel", Json::UInt(n as u64),
                "can_run_in_parallel", Json::Bool(true),
            );
            let st = SubTask {
                id,
                parent_id: analysis.task_id.clone(),
                description,
                parameters,
                assigned_to: None,
            };
            subtasks.push(st);
            i = i + 1;
        }
        Ok(subtasks)
    }

    /// Assigns the subtasks by load.
    pub fn assign(&self, subtasks: &mut Vec<SubTask>, agents: &[AgentInfo]) -> (r: Result<(), AgentError>)
        ensures
            assigner_result(self.spec_assignment(), old(subtasks)@, agents@, final(subtasks)@, r is Ok),
    {
        self.assigner.assign(subtasks, agents)
    }

    /// Analyses, generates and assigns in turn, stopping at the first failure.
    pub fn decompose(&self, task: &Task, agents: &[AgentInfo]) -> (r: Result<DecompositionResult, AgentError>)
        requires
            self.spec_max_parallel() > 0,
            announced_steps(*task) + self.spec_max_parallel() - 1 <= usize::MAX,
        ensures
            r matches Ok(d) ==> d.strategy_used == StrategyType::Parallel
                && d.estimated_duration == (if announced_steps(*task) > 0 {
                    Some(duration_of_secs(parallel_groups(announced_steps(*task), self.spec_max_parallel() as nat) as u64))
                } else {
                    None::<Duration>
                })
                && exists|before: Seq<SubTask>| {
                    &&& #[trigger] before.len() == d.subtasks@.len()
                    &&& before.len() == announced_steps(*task)
                    &&& (forall|i: int| 0 <= i < before.len() ==>
                        parallel_subtask(task.id@, before.len() as usize, i, #[trigger] before[i]))
                    &&& assigner_result(self.spec_assignment(), before, agents@, d.subtasks@, true)
                },
            r is Err <==> agents@.len() == 0 || (self.spec_assignment() == AssignmentStrategy::LoadBalanced
                && !lb_run(agents@, announced_steps(*task)).2),
    {
        let analysis = match self.analyze(task) {
            Ok(a) => a,
            Err(e) => return Err(e),
        };
        let mut subtasks = match self.generate(&analysis) {
            Ok(v) => v,
            Err(e) => return Err(e),
        };
        let ghost before = subtasks@;
        match self.assign(&mut subtasks, agents) {
            Ok(()) => {},
            Err(e) => return Err(e),
        }
        proof {
            assert(before.len() == subtasks@.len());
        }
        Ok(DecompositionResult {
            subtasks,
            strategy_used: StrategyType::Parallel,
            estimated_duration: analysis.estimated_duration,
        })
    }
}

impl Default for ParallelStrategy {
    fn default() -> (s: Self)
        ensures
            s.spec_assignment() == AssignmentStrategy::LoadBalanced,
            s.spec_max_parallel() == 10,
    {
        ParallelStrategy::new()
    }
}

/// The parallel estimate counts the fewest rounds of at most `max_parallel`
/// subtasks that run every step: that many rounds hold all the steps, and
/// one fewer would not.
pub proof fn law_parallel_rounds_are_fewest(steps: nat, max_parallel: nat)
    requires
        max_parallel > 0,
    ensures
        parallel_groups(steps, max_parallel) * max_parallel >= steps,
        steps > 0 ==> (parallel_groups(steps, max_parallel) - 1) * max_parallel < steps,
        steps <= max_parallel && steps > 0 ==> parallel_groups(steps, max_parallel) == 1,
{
    let g = parallel_groups(steps, max_parallel);
    let m = max_parallel as int;
    let t = steps + m - 1;
    assert(g * m <= t && t < (g + 1) * m) by (nonlinear_arith)
        requires
            g == t / m,
            m > 0,
            t >= 0,
    ;
    if steps <= max_parallel && steps > 0 {
        assert(t / m == 1) by (nonlinear_arith)
            requires
                m <= t < 2 * m,
        ;
    }
    assert((g - 1) * m == g * m - m && (g + 1) * m == g * m + m) by (nonlinear_arith);
}

} // verus!
