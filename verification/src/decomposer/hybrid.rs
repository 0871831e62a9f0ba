//! The hybrid strategy: subtasks are layered into stages by their
//! dependencies; a stage runs in parallel, stages run in order.

use vstd::prelude::*;
use std::time::Duration;
use crate::agent::task::{SubTask, Task};
use crate::decomposer::analyzer::{
    Complexity, Dependency, DependencyType, TaskAnalysis, TaskAnalyzer, analysis_of, context_steps,
    dep_pairs, deps_from_values, step_dependencies, steps_dependencies,
};
use crate::decomposer::assigner::{AgentAssigner, AgentInfo, AssignmentStrategy, lb_run};
use crate::decomposer::parallel::announced_steps;
use crate::decomposer::plan::{ExecutionPlan, ExecutionStage, build_execution_plan, deps_in_range, holds_id,
    holds_id_exec, ids_of, plan_ok};
use crate::decomposer::sequential::{assigner_result, fresh_subtask_id, generated_id};
use crate::decomposer::strategy::{DecompositionResult, StrategyType};
use crate::error::AgentError;
use crate::json::Json;
use crate::text::{decimal, u64_to_string};
use crate::time::{duration_from_secs, duration_of_secs};

verus! {

/// The steps that step `i` depends on, in the order of `deps`.
pub open spec fn sources_of(deps: Seq<(usize, usize)>, i: usize) -> Seq<usize>
    decreases deps.len(),
{
    if deps.len() == 0 {
        Seq::empty()
    } else {
        let rest = sources_of(deps.drop_last(), i);
        if deps.last().1 == i { rest.push(deps.last().0) } else { rest }
    }
}

/// Step numbers as JSON numbers.
pub open spec fn u64_values(xs: Seq<usize>) -> Seq<Json> {
    xs.map_values(|x: usize| Json::UInt(x as u64))
}

/// `j` is a JSON array holding exactly `items`.
pub open spec fn array_of(j: Option<Json>, items: Seq<Json>) -> bool {
    j matches Some(a) && a.spec_as_array() == Some(items)
}

/// Subtask `i` of the `n` that the hybrid strategy makes for task `task_id`
/// whose step dependencies are `deps`.
pub open spec fn hybrid_subtask(task_id: Seq<char>, n: usize, deps: Seq<(usize, usize)>, i: int, st: SubTask) -> bool {
    let srcs = sources_of(deps, i as usize);
    &&& generated_id(task_id, "_hyb_"@, st.id@)
    &&& st.parent_id@ == task_id
    &&& st.description@ == "Hybrid task "@ + decimal((i + 1) as nat)
    &&& st.parameters is Object
    &&& st.parameters.spec_get("step_index"@) == Some(Json::UInt(i as u64))
    &&& st.parameters.spec_get("total_steps"@) == Some(Json::UInt(n as u64))
    &&& array_of(st.parameters.spec_get("dependencies"@), u64_values(srcs))
    &&& st.parameters.spec_get("dependency_count"@) == Some(Json::UInt(srcs.len() as u64))
    &&& st.assigned_to is None
}

/// The step dependencies the analyzer reads from a task's context.
pub open spec fn task_dependencies(task: Task) -> Seq<(usize, usize)> {
    match context_steps(task.context) {
        Some(s) => steps_dependencies(s),
        None => Seq::empty(),
    }
}

/// Seconds the hybrid strategy estimates for `steps` steps (at least one)
/// with `deps` dependencies: the steps spread over one more stage than there
/// are dependencies, or a single second without dependencies.
pub open spec fn hybrid_secs(steps: nat, deps: nat) -> nat {
    if deps == 0 {
        steps / steps
    } else {
        steps / (deps + 1)
    }
}

/// The dependencies that the `dependencies` values `vals` of subtask `i`
/// name: each non-negative integer, in order.
pub open spec fn param_edges(vals: Seq<Json>, i: usize) -> Seq<(usize, usize)>
    decreases vals.len(),
{
    if vals.len() == 0 {
        Seq::empty()
    } else {
        let rest = param_edges(vals.drop_last(), i);
        match vals.last().spec_as_u64() {
            Some(d) => rest.push((d as usize, i)),
            None => rest,
        }
    }
}

/// The dependencies that the parameters of subtask `i` name.
pub open spec fn subtask_edges(parameters: Json, i: usize) -> Seq<(usize, usize)> {
    match parameters.spec_get("dependencies"@) {
        Some(d) => match d.spec_as_array() {
            Some(vals) => param_edges(vals, i),
            None => Seq::empty(),
        },
        None => Seq::empty(),
    }
}

/// The dependencies that the subtasks' parameters name, subtask by subtask.
pub open spec fn rebuilt_deps(subtasks: Seq<SubTask>) -> Seq<(usize, usize)>
    decreases subtasks.len(),
{
    if subtasks.len() == 0 {
        Seq::empty()
    } else {
        rebuilt_deps(subtasks.drop_last())
            + subtask_edges(subtasks.last().parameters, (subtasks.len() - 1) as usize)
    }
}

/// The last of `stages` that holds the id `id`.
pub open spec fn last_stage_of(stages: Seq<ExecutionStage>, id: Seq<char>) -> Option<int>
    decreases stages.len(),
{
    if stages.len() == 0 {
        None
    } else if holds_id(stages.last().subtask_ids@, id) {
        Some(stages.len() - 1)
    } else {
        last_stage_of(stages.drop_last(), id)
    }
}

pub proof fn lemma_last_stage_of(stages: Seq<ExecutionStage>, id: Seq<char>)
    ensures
        last_stage_of(stages, id) matches Some(t) ==> 0 <= t < stages.len(),
    decreases stages.len(),
{
    if stages.len() > 0 {
        lemma_last_stage_of(stages.drop_last(), id);
    }
}

/// `q` is the parameters `p` with the stage facts of `st` set.
pub open spec fn stage_marked(p: Json, st: ExecutionStage, q: Json) -> bool {
    &&& q is Object
    &&& q.spec_get("stage_id"@) == Some(Json::UInt(st.stage_id as u64))
    &&& q.spec_get("can_parallelize"@) == Some(Json::Bool(st.can_parallelize))
    &&& array_of(q.spec_get("depends_on_stages"@), u64_values(st.depends_on_stages@))
    &&& forall|k: Seq<char>| k != "stage_id"@ && k != "can_parallelize"@ && k != "depends_on_stages"@
        ==> #[trigger] q.spec_get(k) == p.spec_get(k)
}

/// `after` is `before` with its parameters marked by the last stage holding its id.
pub open spec fn annotated_one(before: SubTask, stages: Seq<ExecutionStage>, after: SubTask) -> bool {
    match last_stage_of(stages, before.id@) {
        Some(s) => after == (SubTask { parameters: after.parameters, ..before })
            && stage_marked(before.parameters, stages[s], after.parameters),
        None => after == before,
    }
}

/// Every subtask is marked by the last stage holding its id.
pub open spec fn annotated(before: Seq<SubTask>, stages: Seq<ExecutionStage>, after: Seq<SubTask>) -> bool {
    &&& after.len() == before.len()
    &&& forall|j: int| 0 <= j < before.len() ==> annotated_one(before[j], stages, #[trigger] after[j])
}

/// The parameters of each subtask are an object or null.
pub open spec fn parameters_settable(subtasks: Seq<SubTask>) -> bool {
    forall|j: int| 0 <= j < subtasks.len() ==> (#[trigger] subtasks[j]).parameters is Null
        || subtasks[j].parameters is Object
}

/// What the hybrid assignment does: the assigner of `strategy` assigns the
/// subtasks, and, when it succeeds, each subtask is marked with its stage in
/// the plan built from the dependencies its parameters name.
pub open spec fn hybrid_assigned(
    strategy: AssignmentStrategy,
    before: Seq<SubTask>,
    agents: Seq<AgentInfo>,
    after: Seq<SubTask>,
    ok: bool,
) -> bool {
    exists|mid: Seq<SubTask>, plan: ExecutionPlan| {
        &&& #[trigger] plan_ok(ids_of(before), rebuilt_deps(before), plan)
        &&& #[trigger] assigner_result(strategy, before, agents, mid, ok)
        &&& ok ==> annotated(mid, plan.stages@, after)
        &&& !ok ==> after == mid
    }
}

pub proof fn lemma_deps_from_values_below(vals: Seq<Json>, i: usize)
    ensures
        forall|k: int| 0 <= k < deps_from_values(vals, i).len() ==>
            (#[trigger] deps_from_values(vals, i)[k]).0 < i && deps_from_values(vals, i)[k].1 == i,
    decreases vals.len(),
{
    if vals.len() > 0 {
        let rest = deps_from_values(vals.drop_last(), i);
        lemma_deps_from_values_below(vals.drop_last(), i);
        assert forall|k: int| 0 <= k < deps_from_values(vals, i).len() implies
            (#[trigger] deps_from_values(vals, i)[k]).0 < i && deps_from_values(vals, i)[k].1 == i by {
            if k < rest.len() {
                assert(deps_from_values(vals, i)[k] == rest[k]);
            }
        }
    }
}

/// Every dependency the analyzer reads from a task's steps leads from an
/// earlier step to a later one among them.
pub proof fn lemma_steps_dependencies_in_range(steps: Seq<Json>)
    ensures
        forall|k: int| 0 <= k < steps_dependencies(steps).len() ==>
            (#[trigger] steps_dependencies(steps)[k]).0 < steps_dependencies(steps)[k].1
            && steps_dependencies(steps)[k].1 < steps.len(),
    decreases steps.len(),
{
    if steps.len() > 0 {
        let i = (steps.len() - 1) as usize;
        lemma_steps_dependencies_in_range(steps.drop_last());
        lemma_deps_from_values_below(match steps.last().spec_get("depends_on"@) {
            Some(d) => match d.spec_as_array() { Some(v) => v, None => Seq::empty() },
            None => Seq::empty(),
        }, i);
        let a = steps_dependencies(steps.drop_last());
        let b = step_dependencies(steps.last(), i);
        assert forall|k: int| 0 <= k < steps_dependencies(steps).len() implies
            (#[trigger] steps_dependencies(steps)[k]).0 < steps_dependencies(steps)[k].1
            && steps_dependencies(steps)[k].1 < steps.len() by {
            if k >= a.len() {
                assert(steps_dependencies(steps)[k] == b[k - a.len()]);
            }
        }
    }
}

pub proof fn lemma_sources_of_below(deps: Seq<(usize, usize)>, i: usize, n: nat)
    requires
        forall|e: int| 0 <= e < deps.len() ==> (#[trigger] deps[e]).0 < n,
    ensures
        forall|k: int| 0 <= k < sources_of(deps, i).len() ==> #[trigger] sources_of(deps, i)[k] < n,
    decreases deps.len(),
{
    if deps.len() > 0 {
        let d = deps.drop_last();
        assert forall|e: int| 0 <= e < d.len() implies (#[trigger] d[e]).0 < n by {
            assert(d[e] == deps[e]);
        }
        lemma_sources_of_below(d, i, n);
        let rest = sources_of(d, i);
        assert forall|k: int| 0 <= k < sources_of(deps, i).len() implies #[trigger] sources_of(deps, i)[k] < n by {
            if k < rest.len() {
                assert(sources_of(deps, i)[k] == rest[k]);
            }
        }
    }
}

pub proof fn lemma_param_edges_of_values(xs: Seq<usize>, i: usize)
    ensures
        param_edges(u64_values(xs), i).len() == xs.len(),
        forall|k: int| 0 <= k < xs.len() ==> #[trigger] param_edges(u64_values(xs), i)[k] == (xs[k], i),
    decreases xs.len(),
{
    if xs.len() > 0 {
        let d = xs.drop_last();
        lemma_param_edges_of_values(d, i);
        assert(u64_values(xs).drop_last() =~= u64_values(d));
        let x = xs.last();
        assert((x as u64) as usize == x);
    }
}

/// Every dependency in `edges` leads from a step below `n`.
pub open spec fn edges_from_below(edges: Seq<(usize, usize)>, n: nat) -> bool {
    forall|k: int| 0 <= k < edges.len() ==> (#[trigger] edges[k]).0 < n
}

pub proof fn lemma_rebuilt_deps_below(subtasks: Seq<SubTask>, n: nat)
    requires
        forall|j: int| 0 <= j < subtasks.len() ==>
            edges_from_below(subtask_edges((#[trigger] subtasks[j]).parameters, j as usize), n),
    ensures
        edges_from_below(rebuilt_deps(subtasks), n),
    decreases subtasks.len(),
{
    if subtasks.len() > 0 {
        let d = subtasks.drop_last();
        assert forall|j: int| 0 <= j < d.len() implies
            edges_from_below(subtask_edges((#[trigger] d[j]).parameters, j as usize), n) by {
            assert(d[j] == subtasks[j]);
        }
        lemma_rebuilt_deps_below(d, n);
        let a = rebuilt_deps(d);
        let last = (subtasks.len() - 1) as int;
        let b = subtask_edges(subtasks[last].parameters, last as usize);
        assert(edges_from_below(b, n));
        assert forall|k: int| 0 <= k < rebuilt_deps(subtasks).len() implies
            (#[trigger] rebuilt_deps(subtasks)[k]).0 < n by {
            if k >= a.len() {
                assert(rebuilt_deps(subtasks)[k] == b[k - a.len()]);
            }
        }
    }
}

/// The steps that step `i` depends on, as JSON numbers.
fn step_sources(dependencies: &Vec<Dependency>, i: usize) -> (v: Vec<Json>)
    ensures
        v@ == u64_values(sources_of(dep_pairs(dependencies@), i)),
{
    let ghost pairs = dep_pairs(dependencies@);
    let mut v: Vec<Json> = Vec::new();
    let mut e: usize = 0;
    while e < dependencies.len()
        invariant
            pairs == dep_pairs(dependencies@),
            e <= dependencies@.len(),
            v@ == u64_values(sources_of(pairs.take(e as int), i)),
        decreases dependencies@.len() - e,
    {
        let d = &dependencies[e];
        proof {
            assert(pairs.take(e + 1).drop_last() =~= pairs.take(e as int));
            assert(pairs.take(e + 1).last() == (d.from_step, d.to_step));
        }
        if d.to_step == i {
            let ghost before = v@;
            v.push(Json::UInt(d.from_step as u64));
            proof {
                let s = sources_of(pairs.take(e as int), i);
                assert(u64_values(s.push(d.from_step)) =~= u64_values(s).push(Json::UInt(d.from_step as u64)));
            }
        }
        e = e + 1;
    }
    proof {
        assert(pairs.take(dependencies@.len() as int) =~= pairs);
    }
    v
}

/// Stage numbers as JSON numbers.
fn usize_values(xs: &Vec<usize>) -> (v: Vec<Json>)
    ensures
        v@ == u64_values(xs@),
{
    let mut v: Vec<Json> = Vec::new();
    let mut k: usize = 0;
    while k < xs.len()
        invariant
            k <= xs@.len(),
            v@ == u64_values(xs@.take(k as int)),
        decreases xs@.len() - k,
    {
        v.push(Json::UInt(xs[k] as u64));
        proof {
            assert(u64_values(xs@.take(k + 1)) =~= u64_values(xs@.take(k as int)).push(Json::UInt(xs@[k as int] as u64)));
        }
        k = k + 1;
    }
    proof {
        assert(xs@.take(xs@.len() as int) =~= xs@);
    }
    v
}

/// The dependencies the subtasks' `dependencies` parameters name.
fn rebuild_dependencies(subtasks: &Vec<SubTask>) -> (deps: Vec<Dependency>)
    ensures
        dep_pairs(deps@) == rebuilt_deps(subtasks@),
{
    let n = subtasks.len();
    let mut deps: Vec<Dependency> = Vec::new();
    let mut i: usize = 0;
    while i < n
        invariant
            n == subtasks@.len(),
            i <= n,
            dep_pairs(deps@) == rebuilt_deps(subtasks@.take(i as int)),
        decreases n - i,
    {
        proof {
            assert(subtasks@.take(i + 1).drop_last() =~= subtasks@.take(i as int));
            reveal_strlit("dependencies");
        }
        let ghost start = dep_pairs(deps@);
        if let Some(d) = subtasks[i].parameters.get("dependencies") {
            if let Some(vals) = d.as_array() {
                let mut k: usize = 0;
                while k < vals.len()
                    invariant
                        k <= vals@.len(),
                        dep_pairs(deps@) == start + param_edges(vals@.take(k as int), i),
                    decreases vals@.len() - k,
                {
                    proof {
                        assert(vals@.take(k + 1).drop_last() =~= vals@.take(k as int));
                    }
                    if let Some(x) = vals[k].as_u64() {
                        let ghost pre = deps@;
                        deps.push(Dependency::new(x as usize, i, DependencyType::Data));
                        proof {
                            assert(dep_pairs(deps@) =~= dep_pairs(pre).push((x as usize, i)));
                        }
                    }
                    k = k + 1;
                }
                proof {
                    assert(vals@.take(vals@.len() as int) =~= vals@);
                }
            }
        }
        proof {
            assert(start + subtask_edges(subtasks@[i as int].parameters, i) =~= dep_pairs(deps@)
                || start + subtask_edges(subtasks@[i as int].parameters, i) == dep_pairs(deps@));
        }
        i = i + 1;
    }
    proof {
        assert(subtasks@.take(n as int) =~= subtasks@);
    }
    deps
}

/// Sets the stage facts of `stage` in `parameters`.
fn mark_stage(parameters: &mut Json, stage: &ExecutionStage)
    requires
        *old(parameters) is Null || *old(parameters) is Object,
    ensures
        stage_marked(*old(parameters), *stage, *final(parameters)),
{
    proof {
        reveal_strlit("stage_id");
        reveal_strlit("can_parallelize");
        reveal_strlit("depends_on_stages");
        assert("stage_id"@.len() != "can_parallelize"@.len());
        assert("stage_id"@.len() != "depends_on_stages"@.len());
        assert("can_parallelize"@.len() != "depends_on_stages"@.len());
    }
    parameters.set("stage_id", Json::UInt(stage.stage_id as u64));
    parameters.set("can_parallelize", Json::Bool(stage.can_parallelize));
    parameters.set("depends_on_stages", Json::Array(usize_values(&stage.depends_on_stages)));
}

/// Marks subtask `j` with the stage facts of `stage`.
fn mark_subtask(subtasks: &mut Vec<SubTask>, j: usize, stage: &ExecutionStage)
    requires
        j < old(subtasks)@.len(),
        old(subtasks)@[j as int].parameters is Null || old(subtasks)@[j as int].parameters is Object,
    ensures
        final(subtasks)@.len() == old(subtasks)@.len(),
        forall|t: int| 0 <= t < old(subtasks)@.len() && t != j ==> final(subtasks)@[t] == old(subtasks)@[t],
        final(subtasks)@[j as int] == (SubTask { parameters: final(subtasks)@[j as int].parameters, ..old(subtasks)@[j as int] }),
        stage_marked(old(subtasks)@[j as int].parameters, *stage, final(subtasks)@[j as int].parameters),
{
    let mut st = SubTask {
        id: String::new(),
        parent_id: String::new(),
        description: String::new(),
        parameters: Json::Null,
        assigned_to: None,
    };
    subtasks.set_and_swap(j, &mut st);
    mark_stage(&mut st.parameters, stage);
    subtasks.set_and_swap(j, &mut st);
}

/// Marks every subtask with the facts of the last stage that holds its id.
fn annotate_subtasks(subtasks: &mut Vec<SubTask>, stages: &Vec<ExecutionStage>)
    requires
        parameters_settable(old(subtasks)@),
    ensures
        annotated(old(subtasks)@, stages@, final(subtasks)@),
{
    let ghost orig = subtasks@;
    let n = subtasks.len();
    let mut s: usize = 0;
    while s < stages.len()
        invariant
            n == orig.len(),
            s <= stages@.len(),
            parameters_settable(orig),
            annotated(orig, stages@.take(s as int), subtasks@),
        decreases stages@.len() - s,
    {
        let stage = &stages[s];
        let ghost pre = stages@.take(s as int);
        let ghost post = stages@.take(s + 1);
        proof {
            assert(post.drop_last() =~= pre);
            assert(post.last() == *stage);
        }
        let mut j: usize = 0;
        while j < n
            invariant
                n == orig.len(),
                subtasks@.len() == n,
                j <= n,
                s < stages@.len(),
                *stage == stages@[s as int],
                pre == stages@.take(s as int),
                post == stages@.take(s + 1),
                post.drop_last() == pre,
                post.last() == *stage,
                parameters_settable(orig),
                forall|t: int| 0 <= t < j ==> annotated_one(orig[t], post, #[trigger] subtasks@[t]),
                forall|t: int| j <= t < n ==> annotated_one(orig[t], pre, #[trigger] subtasks@[t]),
            decreases n - j,
        {
            let ghost cur = subtasks@[j as int];
            proof {
                assert(annotated_one(orig[j as int], pre, cur));
                assert(cur.id == orig[j as int].id);
            }
            if holds_id_exec(&stage.subtask_ids, &subtasks[j].id) {
                proof {
                    assert(last_stage_of(post, orig[j as int].id@) == Some(s as int));
                    assert(cur.parameters is Null || cur.parameters is Object);
                }
                mark_subtask(subtasks, j, stage);
                proof {
                    let q = subtasks@[j as int].parameters;
                    assert forall|k: Seq<char>| k != "stage_id"@ && k != "can_parallelize"@ && k != "depends_on_stages"@
                        implies #[trigger] q.spec_get(k) == orig[j as int].parameters.spec_get(k) by {
                        assert(q.spec_get(k) == cur.parameters.spec_get(k));
                    }
                    assert(annotated_one(orig[j as int], post, subtasks@[j as int]));
                }
            } else {
                proof {
                    assert(last_stage_of(post, orig[j as int].id@) == last_stage_of(pre, orig[j as int].id@));
                    lemma_last_stage_of(pre, orig[j as int].id@);
                    match last_stage_of(pre, orig[j as int].id@) {
                        Some(t) => { assert(post[t] == pre[t]); },
                        None => {},
                    }
                }
            }
            j = j + 1;
        }
        s = s + 1;
    }
    proof {
        assert(stages@.take(stages@.len() as int) =~= stages@);
    }
}

/// Splits a task into stages by its step dependencies: the subtasks of a
/// stage run in parallel, the stages one after another.
pub struct HybridStrategy {
    assigner: AgentAssigner,
}

impl HybridStrategy {
    pub closed spec fn spec_assignment(&self) -> AssignmentStrategy {
        self.assigner.spec_strategy()
    }

    /// A hybrid strategy whose assigner balances load.
    pub fn new() -> (s: Self)
        ensures
            s.spec_assignment() == AssignmentStrategy::LoadBalanced,
    {
        HybridStrategy { assigner: AgentAssigner::new().with_strategy(AssignmentStrategy::LoadBalanced) }
    }

    pub fn strategy_type(&self) -> (t: StrategyType)
        ensures
            t == StrategyType::Hybrid,
    {
        StrategyType::Hybrid
    }

    /// Layers the subtasks into stages by the dependencies.
    pub fn build_execution_plan(&self, subtasks: &[SubTask], dependencies: &[Dependency]) -> (plan: ExecutionPlan)
        requires
            deps_in_range(dependencies@, subtasks@.len()),
        ensures
            plan_ok(ids_of(subtasks@), dep_pairs(dependencies@), plan),
    {
        build_execution_plan(subtasks, dependencies)
    }

    /// Analyses the task, marks it hybrid, parallelizable when it is not
    /// simple, and estimates its duration from its steps and dependencies.
    pub fn analyze(&self, task: &Task) -> (r: Result<TaskAnalysis, AgentError>)
        ensures
            r matches Ok(a) && exists|base: TaskAnalysis| #[trigger] analysis_of(*task, base)
                && a == (TaskAnalysis {
                    suggested_strategy: StrategyType::Hybrid,
                    can_parallelize: base.complexity == Complexity::Complex || base.complexity == Complexity::Medium,
                    estimated_duration: if base.estimated_steps > 0 {
                        Some(duration_of_secs(hybrid_secs(base.estimated_steps as nat, base.dependencies@.len()) as u64))
                    } else {
                        None::<Duration>
                    },
                    ..base
                }),
    {
        let r = TaskAnalyzer::analyze(task);
        match r {
            Ok(base) => {
                let ghost b = base;
                let mut a = base;
                a.suggested_strategy = StrategyType::Hybrid;
                a.can_parallelize = a.complexity == Complexity::Complex || a.complexity == Complexity::Medium;
                if a.estimated_steps > 0 {
                    let n = a.estimated_steps;
                    let m = a.dependencies.len();
                    let secs = if m == 0 {
                        n / n
                    } else if m >= n {
                        assert((n as int) / ((m + 1) as int) == 0) by (nonlinear_arith)
                            requires
                                0 <= n < m + 1,
                        ;
                        0
                    } else {
                        n / (m + 1)
                    };
                    a.estimated_duration = Some(duration_from_secs(secs as u64));
                }
                proof {
                    assert(analysis_of(*task, b));
                }
                Ok(a)
            },
            Err(e) => Err(e),
        }
    }

    /// One subtask per estimated step, carrying the steps it depends on.
    pub fn generate(&self, analysis: &TaskAnalysis) -> (r: Result<Vec<SubTask>, AgentError>)
        ensures
            r matches Ok(v) && v@.len() == analysis.estimated_steps
                && forall|i: int| 0 <= i < v@.len() ==>
                    hybrid_subtask(analysis.task_id@, analysis.estimated_steps, dep_pairs(analysis.dependencies@),
                        i, #[trigger] v@[i]),
    {
        let n = analysis.estimated_steps;
        let ghost deps = dep_pairs(analysis.dependencies@);
        let mut subtasks: Vec<SubTask> = Vec::new();
        let mut i: usize = 0;
        while i < n
            invariant
                n == analysis.estimated_steps,
                deps == dep_pairs(analysis.dependencies@),
                i <= n,
                subtasks@.len() == i,
                forall|t: int| 0 <= t < i ==>
                    hybrid_subtask(analysis.task_id@, n, deps, t, #[trigger] subtasks@[t]),
            decreases n - i,
        {
            let id = fresh_subtask_id(analysis.task_id.as_str(), "_hyb_");
            let number = u64_to_string((i + 1) as u64);
            let description = String::from_str("Hybrid task ").concat(number.as_str());
            let sources = step_sources(&analysis.dependencies, i);
            let count = sources.len();
            proof {
                reveal_strlit("step_index");
                reveal_strlit("total_steps");
                reveal_strlit("dependencies");
                reveal_strlit("dependency_count");
                assert("step_index"@.len() != "total_steps"@.len());
                assert("step_index"@.len() != "dependencies"@.len());
                assert("step_index"@.len() != "dependency_count"@.len());
                assert("total_steps"@.len() != "dependencies"@.len());
                assert("total_steps"@[0] != "dependency_count"@[0]);
                assert("dependencies"@.len() != "dependency_count"@.len());
            }
            let parameters = Json::object4(
                "step_index", Json::UInt(i as u64),
                "total_steps", Json::UInt(n as u64),
                "dependencies", Json::Array(sources),
                "dependency_count", Json::UInt(count as u64),
            );
            let st = SubTask {
                id,
                parent_id: analysis.task_id.clone(),
                description,
                parameters,
                assigned_to: None,
            };
            subtasks.push(st);
            i = i + 1;
        }
        Ok(subtasks)
    }

    /// Rebuilds the dependencies from the subtasks' parameters, layers the
    /// subtasks into stages, assigns them by load, and marks each with its
    /// stage: `stage_id`, `can_parallelize` and `depends_on_stages`.
    pub fn assign(&self, subtasks: &mut Vec<SubTask>, agents: &[AgentInfo]) -> (r: Result<(), AgentError>)
        requires
            parameters_settable(old(subtasks)@),
            forall|e: int| 0 <= e < rebuilt_deps(old(subtasks)@).len() ==>
                (#[trigger] rebuilt_deps(old(subtasks)@)[e]).0 < old(subtasks)@.len(),
        ensures
            hybrid_assigned(self.spec_assignment(), old(subtasks)@, agents@, final(subtasks)@, r is Ok),
    {
        let ghost before = subtasks@;
        let dependencies = rebuild_dependencies(subtasks);
        proof {
            assert forall|e: int| 0 <= e < dependencies@.len() implies
                (#[trigger] dependencies@[e]).from_step < before.len() && dependencies@[e].to_step < before.len() by {
                assert(dep_pairs(dependencies@)[e] == rebuilt_deps(before)[e]);
                lemma_rebuilt_deps_to_below(before);
            }
        }
        let plan = build_execution_plan(subtasks.as_slice(), dependencies.as_slice());
        let r = self.assigner.assign(subtasks, agents);
        let ghost mid = subtasks@;
        match r {
            Ok(()) => {
                proof {
                    assert forall|j: int| 0 <= j < mid.len() implies
                        (#[trigger] mid[j]).parameters is Null || mid[j].parameters is Object by {
                        assert(mid[j].parameters == before[j].parameters);
                    }
                    assert forall|j: int| 0 <= j < mid.len() implies (#[trigger] mid[j]).id == before[j].id by {}
                    assert(ids_of(mid) =~= ids_of(before));
                }
                annotate_subtasks(subtasks, &plan.stages);
                proof {
                    assert(assigner_result(self.spec_assignment(), before, agents@, mid, true));
                }
                Ok(())
            },
            Err(e) => {
                proof {
                    assert(assigner_result(self.spec_assignment(), before, agents@, mid, false));
                }
                Err(e)
            },
        }
    }

    /// Analyses, generates and assigns in turn, stopping at the first failure.
    pub fn decompose(&self, task: &Task, agents: &[AgentInfo]) -> (r: Result<DecompositionResult, AgentError>)
        ensures
            r matches Ok(d) ==> d.strategy_used == StrategyType::Hybrid
                && d.estimated_duration == (if announced_steps(*task) > 0 {
                    Some(duration_of_secs(hybrid_secs(announced_steps(*task), task_dependencies(*task).len()) as u64))
                } else {
                    None::<Duration>
                })
                && exists|before: Seq<SubTask>| {
                    &&& #[trigger] before.len() == announced_steps(*task)
                    &&& (forall|i: int| 0 <= i < before.len() ==>
                        hybrid_subtask(task.id@, before.len() as usize, task_dependencies(*task), i, #[trigger] before[i]))
                    &&& hybrid_assigned(self.spec_assignment(), before, agents@, d.subtasks@, true)
                },
            r is Err <==> agents@.len() == 0 || (self.spec_assignment() == AssignmentStrategy::LoadBalanced
                && !lb_run(agents@, announced_steps(*task)).2),
    {
        let analysis = match self.analyze(task) {
            Ok(a) => a,
            Err(e) => return Err(e),
        };
        let mut subtasks = match self.generate(&analysis) {
            Ok(v) => v,
            Err(e) => return Err(e),
        };
        let ghost before = subtasks@;
        let ghost deps = dep_pairs(analysis.dependencies@);
        let ghost n = before.len();
        proof {
            match context_steps(task.context) {
                Some(s) => lemma_steps_dependencies_in_range(s),
                None => {},
            }
            assert forall|e: int| 0 <= e < deps.len() implies (#[trigger] deps[e]).0 < n by {}
            assert forall|j: int| 0 <= j < before.len() implies
                edges_from_below(subtask_edges((#[trigger] before[j]).parameters, j as usize), n) by {
                let srcs = sources_of(deps, j as usize);
                assert(hybrid_subtask(task.id@, n as usize, deps, j, before[j]));
                reveal_strlit("dependencies");
                lemma_param_edges_of_values(srcs, j as usize);
                lemma_sources_of_below(deps, j as usize, n);
                assert forall|k: int| 0 <= k < subtask_edges(before[j].parameters, j as usize).len() implies
                    (#[trigger] subtask_edges(before[j].parameters, j as usize)[k]).0 < n by {
                    assert(subtask_edges(before[j].parameters, j as usize) == param_edges(u64_values(srcs), j as usize));
                    assert(srcs[k] < n);
                }
            }
            lemma_rebuilt_deps_below(before, n);
            assert forall|j: int| 0 <= j < before.len() implies
                (#[trigger] before[j]).parameters is Null || before[j].parameters is Object by {
                assert(hybrid_subtask(task.id@, n as usize, deps, j, before[j]));
            }
        }
        match self.assign(&mut subtasks, agents) {
            Ok(()) => {},
            Err(e) => return Err(e),
        }
        Ok(DecompositionResult {
            subtasks,
            strategy_used: StrategyType::Hybrid,
            estimated_duration: analysis.estimated_duration,
        })
    }
}

/// Every dependency rebuilt from subtask parameters leads into one of the subtasks.
pub proof fn lemma_rebuilt_deps_to_below(subtasks: Seq<SubTask>)
    ensures
        forall|k: int| 0 <= k < rebuilt_deps(subtasks).len() ==>
            (#[trigger] rebuilt_deps(subtasks)[k]).1 < subtasks.len(),
    decreases subtasks.len(),
{
    if subtasks.len() > 0 {
        let d = subtasks.drop_last();
        lemma_rebuilt_deps_to_below(d);
        let i = (subtasks.len() - 1) as usize;
        let a = rebuilt_deps(d);
        let b = subtask_edges(subtasks.last().parameters, i);
        let vals = match subtasks.last().parameters.spec_get("dependencies"@) {
            Some(x) => match x.spec_as_array() { Some(v) => v, None => Seq::empty() },
            None => Seq::empty(),
        };
        lemma_param_edges_to(vals, i);
        assert forall|k: int| 0 <= k < rebuilt_deps(subtasks).len() implies
            (#[trigger] rebuilt_deps(subtasks)[k]).1 < subtasks.len() by {
            if k >= a.len() {
                assert(rebuilt_deps(subtasks)[k] == b[k - a.len()]);
            }
        }
    }
}

pub proof fn lemma_param_edges_to(vals: Seq<Json>, i: usize)
    ensures
        forall|k: int| 0 <= k < param_edges(vals, i).len() ==> (#[trigger] param_edges(vals, i)[k]).1 == i,
    decreases vals.len(),
{
    if vals.len() > 0 {
        let rest = param_edges(vals.drop_last(), i);
        lemma_param_edges_to(vals.drop_last(), i);
        assert forall|k: int| 0 <= k < param_edges(vals, i).len() implies
            (#[trigger] param_edges(vals, i)[k]).1 == i by {
            if k < rest.len() {
                assert(param_edges(vals, i)[k] == rest[k]);
            }
        }
    }
}

impl Default for HybridStrategy {
    fn default() -> (s: Self)
        ensures
            s.spec_assignment() == AssignmentStrategy::LoadBalanced,
    {
        HybridStrategy::new()
    }
}

/// The hybrid estimate: one second for steps without dependencies; with
/// dependencies, the steps spread evenly over one more stage than there are
/// dependencies, so never more seconds than steps and fewer with more
/// dependencies.
pub proof fn law_hybrid_estimate(steps: nat, deps: nat, more: nat)
    requires
        steps > 0,
        deps > 0,
        deps <= more,
    ensures
        hybrid_secs(steps, 0) == 1,
        hybrid_secs(steps, deps) * (deps + 1) <= steps,
        steps < (hybrid_secs(steps, deps) + 1) * (deps + 1),
        hybrid_secs(steps, deps) <= steps,
        hybrid_secs(steps, more) <= hybrid_secs(steps, deps),
{
    let h = hybrid_secs(steps, deps);
    let d = deps + 1;
    assert(h * d <= steps && steps < (h + 1) * d) by (nonlinear_arith)
        requires
            h == steps / d,
            d > 0,
    ;
    assert(h <= steps) by (nonlinear_arith)
        requires
            h * d <= steps,
            d >= 1,
            h >= 0,
    ;
    assert(steps / (more + 1) <= steps / d) by (nonlinear_arith)
        requires
            d <= more + 1,
            d >= 1,
    ;
    assert(steps / steps == 1) by (nonlinear_arith)
        requires
            steps > 0,
    ;
}

} // verus!
