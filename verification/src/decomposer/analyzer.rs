//! Task analysis: counting steps, collecting dependencies between them, and
//! judging complexity and the strategy that suits the task.

use vstd::prelude::*;
use std::time::Duration;
use crate::agent::task::{Task, opt_str};
use crate::decomposer::strategy::StrategyType;
use crate::error::AgentError;
use crate::json::Json;

verus! {

/// How involved a task is.
#[derive(Debug, Clone, Copy, PartialEq, Eq, Structural)]
pub enum Complexity {
    /// One step, nothing to split.
    Simple,
    /// Two to five steps with simple dependencies.
    Medium,
    /// Many steps with involved dependencies.
    Complex,
}

impl Default for Complexity {
    fn default() -> (c: Self)
        ensures
            c == Complexity::Simple,
    {
        Complexity::Simple
    }
}

/// What one step needs from another.
#[derive(Debug, Clone, Copy, PartialEq, Eq, Hash, Structural)]
pub enum DependencyType {
    /// Needs the other step's output.
    Data,
    /// Shares a resource with the other step.
    Resource,
    /// Must come after the other step in time.
    Temporal,
    /// Depends on a condition the other step decides.
    Conditional,
}

/// Step `to_step` depends on step `from_step`.
#[derive(Debug)]
pub struct Dependency {
    pub from_step: usize,
    pub to_step: usize,
    pub dep_type: DependencyType,
    pub description: Option<String>,
}

impl Dependency {
    pub fn new(from: usize, to: usize, dep_type: DependencyType) -> (d: Self)
        ensures
            d.from_step == from,
            d.to_step == to,
            d.dep_type == dep_type,
            d.description is None,
    {
        Dependency { from_step: from, to_step: to, dep_type, description: None }
    }

    pub fn with_description(self, desc: &str) -> (d: Self)
        ensures
            d.from_step == self.from_step,
            d.to_step == self.to_step,
            d.dep_type == self.dep_type,
            opt_str(d.description) == Some(desc@),
    {
        Dependency { description: Some(String::from_str(desc)), ..self }
    }
}

/// The (from, to) step pairs of a list of dependencies.
pub open spec fn dep_pairs(deps: Seq<Dependency>) -> Seq<(usize, usize)> {
    deps.map_values(|d: Dependency| (d.from_step, d.to_step))
}

/// What an analysis found out about a task.
#[derive(Debug)]
pub struct TaskAnalysis {
    pub task_id: String,
    pub complexity: Complexity,
    pub dependencies: Vec<Dependency>,
    pub required_capabilities: Vec<String>,
    pub estimated_steps: usize,
    pub estimated_duration: Option<Duration>,
    pub can_parallelize: bool,
    pub suggested_strategy: StrategyType,
}

impl TaskAnalysis {
    /// A blank analysis: one simple step, no dependencies, sequential.
    pub fn new(task_id: &str) -> (a: Self)
        ensures
            a.task_id@ == task_id@,
            a.complexity == Complexity::Simple,
            a.dependencies@.len() == 0,
            a.required_capabilities@.len() == 0,
            a.estimated_steps == 1,
            a.estimated_duration is None,
            !a.can_parallelize,
            a.suggested_strategy == StrategyType::Sequential,
    {
        TaskAnalysis {
            task_id: String::from_str(task_id),
            complexity: Complexity::Simple,
            dependencies: Vec::new(),
            required_capabilities: Vec::new(),
            estimated_steps: 1,
            estimated_duration: None,
            can_parallelize: false,
            suggested_strategy: StrategyType::Sequential,
        }
    }

    pub fn with_complexity(self, complexity: Complexity) -> (a: Self)
        ensures
            a == (TaskAnalysis { complexity, ..self }),
    {
        TaskAnalysis { complexity, ..self }
    }

    pub fn with_dependency(self, dep: Dependency) -> (a: Self)
        ensures
            a.dependencies@ == self.dependencies@.push(dep),
            a.task_id == self.task_id,
            a.complexity == self.complexity,
            a.required_capabilities == self.required_capabilities,
            a.estimated_steps == self.estimated_steps,
            a.estimated_duration == self.estimated_duration,
            a.can_parallelize == self.can_parallelize,
            a.suggested_strategy == self.suggested_strategy,
    {
        let mut a = self;
        a.dependencies.push(dep);
        a
    }

    pub fn with_capability(self, cap: &str) -> (a: Self)
        ensures
            a.required_capabilities@.len() == self.required_capabilities@.len() + 1,
            a.required_capabilities@.drop_last() == self.required_capabilities@,
            a.required_capabilities@.last()@ == cap@,
            a.task_id == self.task_id,
            a.complexity == self.complexity,
            a.dependencies == self.dependencies,
            a.estimated_steps == self.estimated_steps,
            a.estimated_duration == self.estimated_duration,
            a.can_parallelize == self.can_parallelize,
            a.suggested_strategy == self.suggested_strategy,
    {
        let mut a = self;
        a.required_capabilities.push(String::from_str(cap));
        proof {
            assert(a.required_capabilities@.drop_last() =~= self.required_capabilities@);
        }
        a
    }

    pub fn with_estimated_steps(self, steps: usize) -> (a: Self)
        ensures
            a == (TaskAnalysis { estimated_steps: steps, ..self }),
    {
        TaskAnalysis { estimated_steps: steps, ..self }
    }

    pub fn with_duration(self, duration: Duration) -> (a: Self)
        ensures
            a == (TaskAnalysis { estimated_duration: Some(duration), ..self }),
    {
        TaskAnalysis { estimated_duration: Some(duration), ..self }
    }

    pub fn can_parallelize(self, yes: bool) -> (a: Self)
        ensures
            a == (TaskAnalysis { can_parallelize: yes, ..self }),
    {
        TaskAnalysis { can_parallelize: yes, ..self }
    }

    pub fn suggest_strategy(self, strategy: StrategyType) -> (a: Self)
        ensures
            a == (TaskAnalysis { suggested_strategy: strategy, ..self }),
    {
        TaskAnalysis { suggested_strategy: strategy, ..self }
    }
}

/// The dependencies that the `depends_on` values `vals` give step `i`: each
/// non-negative integer below `i`, in order.
pub open spec fn deps_from_values(vals: Seq<Json>, i: usize) -> Seq<(usize, usize)>
    decreases vals.len(),
{
    if vals.len() == 0 {
        Seq::empty()
    } else {
        let rest = deps_from_values(vals.drop_last(), i);
        match vals.last().spec_as_u64() {
            Some(d) => if (d as usize) < i { rest.push((d as usize, i)) } else { rest },
            None => rest,
        }
    }
}

/// The dependencies that step `step`, at index `i`, declares in its
/// `depends_on` array.
pub open spec fn step_dependencies(step: Json, i: usize) -> Seq<(usize, usize)> {
    match step.spec_get("depends_on"@) {
        Some(d) => match d.spec_as_array() {
            Some(vals) => deps_from_values(vals, i),
            None => Seq::empty(),
        },
        None => Seq::empty(),
    }
}

/// The dependencies of all steps, step by step.
pub open spec fn steps_dependencies(steps: Seq<Json>) -> Seq<(usize, usize)>
    decreases steps.len(),
{
    if steps.len() == 0 {
        Seq::empty()
    } else {
        steps_dependencies(steps.drop_last()) + step_dependencies(steps.last(), (steps.len() - 1) as usize)
    }
}

/// The strings among `vals`, in order.
pub open spec fn strings_of(vals: Seq<Json>) -> Seq<Seq<char>>
    decreases vals.len(),
{
    if vals.len() == 0 {
        Seq::empty()
    } else {
        let rest = strings_of(vals.drop_last());
        match vals.last().spec_as_str() {
            Some(s) => rest.push(s),
            None => rest,
        }
    }
}

/// The `steps` array of a task's context.
pub open spec fn context_steps(context: Json) -> Option<Seq<Json>> {
    match context.spec_get("steps"@) {
        Some(s) => s.spec_as_array(),
        None => None,
    }
}

/// The capabilities listed in a task's context.
pub open spec fn context_capabilities(context: Json) -> Seq<Seq<char>> {
    match context.spec_get("required_capabilities"@) {
        Some(c) => match c.spec_as_array() {
            Some(vals) => strings_of(vals),
            None => Seq::empty(),
        },
        None => Seq::empty(),
    }
}

/// The complexity, parallelizability and suggested strategy for a task of
/// `steps` steps and `deps` dependencies: up to one step is simple and
/// sequential; two to five steps are medium, parallel without dependencies
/// and sequential with them; more are complex, and hybrid when there are
/// fewer dependencies than half the steps, sequential otherwise.
pub open spec fn judge(steps: nat, deps: nat) -> (Complexity, bool, StrategyType) {
    if steps <= 1 {
        (Complexity::Simple, false, StrategyType::Sequential)
    } else if steps <= 5 {
        if deps == 0 {
            (Complexity::Medium, true, StrategyType::Parallel)
        } else {
            (Complexity::Medium, false, StrategyType::Sequential)
        }
    } else {
        let par = deps < steps / 2;
        (Complexity::Complex, par, if par { StrategyType::Hybrid } else { StrategyType::Sequential })
    }
}

/// What `TaskAnalyzer::analyze` finds in a task.
pub open spec fn analysis_of(task: Task, a: TaskAnalysis) -> bool {
    let steps = context_steps(task.context);
    let n: nat = match steps { Some(s) => s.len(), None => 1 };
    let deps = match steps { Some(s) => steps_dependencies(s), None => Seq::empty() };
    let j = judge(n, deps.len());
    &&& a.task_id@ == task.id@
    &&& a.estimated_steps == n
    &&& dep_pairs(a.dependencies@) == deps
    &&& forall|k: int| 0 <= k < a.dependencies@.len() ==>
        (#[trigger] a.dependencies@[k]).dep_type == DependencyType::Data && a.dependencies@[k].description is None
    &&& a.required_capabilities@.map_values(|s: String| s@) == context_capabilities(task.context)
    &&& a.estimated_duration is None
    &&& a.complexity == j.0
    &&& a.can_parallelize == j.1
    &&& a.suggested_strategy == j.2
}

/// Reads the structure of a task from its context.
pub struct TaskAnalyzer;

impl TaskAnalyzer {
    /// Analyses `task`: its context's `steps` array gives the number of
    /// steps (one without it) and, through each step's `depends_on` array,
    /// the data dependencies on earlier steps; its `required_capabilities`
    /// array lists the capabilities needed. Complexity and strategy follow
    /// from the counts. It never fails.
    pub fn analyze(task: &Task) -> (r: Result<TaskAnalysis, AgentError>)
        ensures
            r matches Ok(a) && analysis_of(*task, a),
    {
        let mut analysis = TaskAnalysis::new(task.id.as_str());
        let ghost steps_opt = context_steps(task.context);
        if let Some(steps_json) = task.context.get("steps") {
            if let Some(steps) = steps_json.as_array() {
                analysis.estimated_steps = steps.len();
                Self::collect_dependencies(steps, &mut analysis.dependencies);
            }
        }
        if let Some(caps_json) = task.context.get("required_capabilities") {
            if let Some(caps) = caps_json.as_array() {
                Self::collect_capabilities(caps, &mut analysis.required_capabilities);
            }
        }
        proof {
            if steps_opt is None {
                assert(dep_pairs(analysis.dependencies@) =~= Seq::<(usize, usize)>::empty());
            }
            if context_capabilities(task.context).len() == 0 {
                assert(analysis.required_capabilities@.map_values(|s: String| s@) =~= Seq::<Seq<char>>::empty());
            }
        }
        let analysis = Self::determine_complexity(analysis);
        Ok(analysis)
    }

    fn collect_dependencies(steps: &Vec<Json>, deps: &mut Vec<Dependency>)
        requires
            old(deps)@.len() == 0,
        ensures
            dep_pairs(final(deps)@) == steps_dependencies(steps@),
            forall|k: int| 0 <= k < final(deps)@.len() ==>
                (#[trigger] final(deps)@[k]).dep_type == DependencyType::Data && final(deps)@[k].description is None,
    {
        let n = steps.len();
        let mut i: usize = 0;
        while i < n
            invariant
                n == steps@.len(),
                i <= n,
                dep_pairs(deps@) == steps_dependencies(steps@.take(i as int)),
                forall|k: int| 0 <= k < deps@.len() ==>
                    (#[trigger] deps@[k]).dep_type == DependencyType::Data && deps@[k].description is None,
            decreases n - i,
        {
            let ghost before = deps@;
            proof {
                assert(steps@.take(i as int + 1).drop_last() =~= steps@.take(i as int));
                assert(steps@.take(i as int + 1).last() == steps@[i as int]);
            }
            if let Some(d) = steps[i].get("depends_on") {
                if let Some(vals) = d.as_array() {
                    let m = vals.len();
                    let mut j: usize = 0;
                    while j < m
                        invariant
                            m == vals@.len(),
                            j <= m,
                            i < n,
                            n == steps@.len(),
                            deps@.len() >= before.len(),
                            deps@.subrange(0, before.len() as int) == before,
                            dep_pairs(deps@) == dep_pairs(before) + deps_from_values(vals@.take(j as int), i),
                            forall|k: int| 0 <= k < deps@.len() ==>
                                (#[trigger] deps@[k]).dep_type == DependencyType::Data && deps@[k].description is None,
                        decreases m - j,
                    {
                        proof {
                            assert(vals@.take(j as int + 1).drop_last() =~= vals@.take(j as int));
                            assert(vals@.take(j as int + 1).last() == vals@[j as int]);
                        }
                        if let Some(x) = vals[j].as_u64() {
                            if (x as usize) < i {
                                let ghost prev = deps@;
                                deps.push(Dependency::new(x as usize, i, DependencyType::Data));
                                proof {
                                    assert(dep_pairs(deps@) =~= dep_pairs(prev).push((x as usize, i)));
                                    assert(deps@.subrange(0, before.len() as int) =~= prev.subrange(0, before.len() as int));
                                }
                            }
                        }
                        j = j + 1;
                    }
                    proof {
                        assert(vals@.take(m as int) =~= vals@);
                    }
                } else {
                    proof {
                        assert(dep_pairs(deps@) =~= dep_pairs(before) + Seq::<(usize, usize)>::empty());
                    }
                }
            } else {
                proof {
                    assert(dep_pairs(deps@) =~= dep_pairs(before) + Seq::<(usize, usize)>::empty());
                }
            }
            i = i + 1;
        }
        proof {
            assert(steps@.take(n as int) =~= steps@);
        }
    }

    fn collect_capabilities(caps: &Vec<Json>, out: &mut Vec<String>)
        requires
            old(out)@.len() == 0,
        ensures
            final(out)@.map_values(|s: String| s@) == strings_of(caps@),
    {
        let n = caps.len();
        let mut i: usize = 0;
        while i < n
            invariant
                n == caps@.len(),
                i <= n,
                out@.map_values(|s: String| s@) == strings_of(caps@.take(i as int)),
            decreases n - i,
        {
            proof {
                assert(caps@.take(i as int + 1).drop_last() =~= caps@.take(i as int));
                assert(caps@.take(i as int + 1).last() == caps@[i as int]);
            }
            if let Some(s) = caps[i].as_str() {
                let ghost prev = out@;
                out.push(String::from_str(s));
                proof {
                    assert(out@.map_values(|s: String| s@) =~= prev.map_values(|s: String| s@).push(s@));
                }
            }
            i = i + 1;
        }
        proof {
            assert(caps@.take(n as int) =~= caps@);
        }
    }

    /// Sets complexity, parallelizability and suggested strategy from the
    /// number of steps and of dependencies.
    pub fn determine_complexity(analysis: TaskAnalysis) -> (a: TaskAnalysis)
        ensures
            ({
                let j = judge(analysis.estimated_steps as nat, analysis.dependencies@.len());
                a == (TaskAnalysis { complexity: j.0, can_parallelize: j.1, suggested_strategy: j.2, ..analysis })
            }),
    {
        let mut a = analysis;
        if a.estimated_steps <= 1 {
            a.complexity = Complexity::Simple;
            a.can_parallelize = false;
            a.suggested_strategy = StrategyType::Sequential;
        } else if a.estimated_steps <= 5 {
            if a.dependencies.len() == 0 {
                a.complexity = Complexity::Medium;
                a.can_parallelize = true;
                a.suggested_strategy = StrategyType::Parallel;
            } else {
                a.complexity = Complexity::Medium;
                a.can_parallelize = false;
                a.suggested_strategy = StrategyType::Sequential;
            }
        } else {
            a.complexity = Complexity::Complex;
            a.can_parallelize = a.dependencies.len() < a.estimated_steps / 2;
            a.suggested_strategy = if a.can_parallelize { StrategyType::Hybrid } else { StrategyType::Sequential };
        }
        a
    }
}

/// A task of more than five steps is complex. It is parallelizable, and
/// then handled by the hybrid strategy (otherwise sequentially), exactly
/// when its dependencies number fewer than half its steps, rounded down; in
/// particular, one without dependencies is always parallelizable and hybrid.
pub proof fn law_large_tasks_parallel_with_few_dependencies(steps: nat, deps: nat)
    requires
        steps > 5,
    ensures
        judge(steps, deps).0 == Complexity::Complex,
        judge(steps, deps).1 <==> 2 * (deps + 1) <= steps,
        judge(steps, deps).2 == (if 2 * (deps + 1) <= steps { StrategyType::Hybrid } else { StrategyType::Sequential }),
        deps == 0 ==> judge(steps, deps).1 && judge(steps, deps).2 == StrategyType::Hybrid,
{
}

/// A task of at most one step is simple and sequential; a task of two to
/// five steps is medium, and parallel exactly when it has no dependencies.
pub proof fn law_small_tasks(steps: nat, deps: nat)
    requires
        steps <= 5,
    ensures
        steps <= 1 ==> judge(steps, deps) == (Complexity::Simple, false, StrategyType::Sequential),
        steps > 1 ==> judge(steps, deps).0 == Complexity::Medium
            && (judge(steps, deps).1 <==> deps == 0)
            && judge(steps, deps).2 == (if deps == 0 { StrategyType::Parallel } else { StrategyType::Sequential }),
{
}

/// A task is judged parallelizable exactly when a strategy other than the
/// sequential one is suggested.
pub proof fn law_parallel_iff_not_sequential(steps: nat, deps: nat)
    ensures
        judge(steps, deps).1 <==> judge(steps, deps).2 != StrategyType::Sequential,
{
}

/// Fewer dependencies never make a task less parallelizable.
pub proof fn law_fewer_dependencies_never_hurt(steps: nat, fewer: nat, more: nat)
    requires
        fewer <= more,
        judge(steps, more).1,
    ensures
        judge(steps, fewer).1,
{
}

/// What the analysis of a task of more than five steps says: complex, and
/// parallelizable and hybrid exactly when the dependencies it found number
/// fewer than half the steps.
pub proof fn law_analysis_of_large_task(task: Task, a: TaskAnalysis)
    requires
        analysis_of(task, a),
        a.estimated_steps > 5,
    ensures
        a.complexity == Complexity::Complex,
        a.can_parallelize <==> 2 * (a.dependencies@.len() + 1) <= a.estimated_steps,
        a.can_parallelize <==> a.suggested_strategy == StrategyType::Hybrid,
        a.dependencies@.len() == 0 ==> a.can_parallelize && a.suggested_strategy == StrategyType::Hybrid,
{
    assert(dep_pairs(a.dependencies@).len() == a.dependencies@.len());
}

} // verus!
