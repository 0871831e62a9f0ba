//! Execution plans: layering subtasks into stages by their dependencies.

use vstd::prelude::*;
use crate::agent::task::SubTask;
use crate::decomposer::analyzer::{Dependency, dep_pairs};
use crate::text::str_eq_string;

verus! {

/// A group of subtasks that may start together.
#[derive(Debug)]
pub struct ExecutionStage {
    pub stage_id: usize,
    pub subtask_ids: Vec<String>,
    pub can_parallelize: bool,
    pub depends_on_stages: Vec<usize>,
}

impl ExecutionStage {
    /// An empty stage, parallelizable, depending on nothing.
    pub fn new(stage_id: usize) -> (s: Self)
        ensures
            s.stage_id == stage_id,
            s.subtask_ids@.len() == 0,
            s.can_parallelize,
            s.depends_on_stages@.len() == 0,
    {
        ExecutionStage { stage_id, subtask_ids: Vec::new(), can_parallelize: true, depends_on_stages: Vec::new() }
    }
}

/// Stages in the order they run.
#[derive(Debug)]
pub struct ExecutionPlan {
    pub stages: Vec<ExecutionStage>,
    pub total_stages: usize,
    pub critical_path_length: usize,
}

impl ExecutionPlan {
    /// A plan without stages.
    pub fn new() -> (p: Self)
        ensures
            p.stages@.len() == 0,
            p.total_stages == 0,
            p.critical_path_length == 0,
    {
        ExecutionPlan { stages: Vec::new(), total_stages: 0, critical_path_length: 0 }
    }

    /// Appends a stage and counts it, so that a plan built from `new` by
    /// `add_stage` alone counts exactly the stages it holds.
    pub fn add_stage(&mut self, stage: ExecutionStage)
        requires
            old(self).total_stages < usize::MAX,
        ensures
            final(self).stages@ == old(self).stages@.push(stage),
            final(self).total_stages == old(self).total_stages + 1,
            final(self).critical_path_length == old(self).critical_path_length,
            old(self).total_stages == old(self).stages@.len() ==> final(self).total_stages == final(self).stages@.len(),
    {
        self.total_stages = self.total_stages + 1;
        self.stages.push(stage);
    }
}

impl Default for ExecutionPlan {
    fn default() -> (p: Self)
        ensures
            p.stages@.len() == 0,
            p.total_stages == 0,
            p.critical_path_length == 0,
    {
        ExecutionPlan::new()
    }
}

/// Subtask `i` waits for a subtask still in `rem`.
pub open spec fn blocked(deps: Seq<(usize, usize)>, rem: Seq<bool>, i: int) -> bool {
    exists|e: int| 0 <= e < deps.len() && (#[trigger] deps[e]).1 == i && rem[deps[e].0 as int]
}

/// The subtasks of `rem` that wait for no subtask of `rem`.
pub open spec fn ready(deps: Seq<(usize, usize)>, rem: Seq<bool>) -> Seq<bool> {
    Seq::new(rem.len(), |i: int| rem[i] && !blocked(deps, rem, i))
}

/// The subtasks not yet placed after `k` rounds over `n` subtasks.
pub open spec fn remaining(n: nat, deps: Seq<(usize, usize)>, k: nat) -> Seq<bool>
    decreases k,
{
    if k == 0 {
        Seq::new(n, |i: int| true)
    } else {
        let r = remaining(n, deps, (k - 1) as nat);
        let rd = ready(deps, r);
        Seq::new(n, |i: int| r[i] && !rd[i])
    }
}

/// The members of `xs` where `mask` holds, in order.
pub open spec fn select<T>(xs: Seq<T>, mask: Seq<bool>) -> Seq<T>
    decreases xs.len(),
{
    if xs.len() == 0 {
        Seq::empty()
    } else {
        let r = select(xs.drop_last(), mask);
        if mask[xs.len() - 1] { r.push(xs.last()) } else { r }
    }
}

/// Whether any flag is set.
pub open spec fn any(mask: Seq<bool>) -> bool {
    exists|i: int| 0 <= i < mask.len() && #[trigger] mask[i]
}

/// Some member of `names` has the view `id`.
pub open spec fn holds_id(names: Seq<String>, id: Seq<char>) -> bool {
    exists|j: int| 0 <= j < names.len() && (#[trigger] names[j])@ == id
}

/// Stage `s` of `stages` is one the subtasks marked in `rd` wait for: some
/// dependency leads into a marked subtask from a subtask whose id stage `s` holds.
pub open spec fn waits_for_stage(
    ids: Seq<String>,
    deps: Seq<(usize, usize)>,
    rd: Seq<bool>,
    stages: Seq<ExecutionStage>,
    s: int,
) -> bool {
    exists|e: int| 0 <= e < deps.len() && rd[(#[trigger] deps[e]).1 as int]
        && holds_id(stages[s].subtask_ids@, ids[deps[e].0 as int]@)
}

/// Stage `k` of a plan for subtasks `ids` with dependencies `deps`: the
/// subtasks ready in round `k`, in order, parallelizable when there are
/// several, waiting for exactly the earlier stages that hold a subtask one
/// of them depends on.
pub open spec fn stage_ok(ids: Seq<String>, deps: Seq<(usize, usize)>, stages: Seq<ExecutionStage>, k: int) -> bool {
    let rd = ready(deps, remaining(ids.len(), deps, k as nat));
    let st = stages[k];
    &&& st.stage_id == k
    &&& st.subtask_ids@ == select(ids, rd)
    &&& st.can_parallelize == (select(ids, rd).len() > 1)
    &&& forall|a: int, b: int| 0 <= a < b < st.depends_on_stages@.len() ==>
        st.depends_on_stages@[a] != st.depends_on_stages@[b]
    &&& forall|x: int| 0 <= x < st.depends_on_stages@.len() ==>
        (#[trigger] st.depends_on_stages@[x]) < k && waits_for_stage(ids, deps, rd, stages, st.depends_on_stages@[x] as int)
    &&& forall|s: int| 0 <= s < k && waits_for_stage(ids, deps, rd, stages, s) ==>
        #[trigger] st.depends_on_stages@.contains(s as usize)
}

/// The plan layers the subtasks: stage `k` holds the subtasks whose
/// dependencies all lie in earlier stages, and the plan ends when every
/// subtask is placed or, under a dependency cycle, when none is ready.
pub open spec fn plan_ok(ids: Seq<String>, deps: Seq<(usize, usize)>, plan: ExecutionPlan) -> bool {
    let k = plan.stages@.len();
    let rem = remaining(ids.len(), deps, k);
    &&& forall|s: int| 0 <= s < k ==> stage_ok(ids, deps, plan.stages@, s)
    &&& forall|s: int| 0 <= s < k ==> #[trigger] any(ready(deps, remaining(ids.len(), deps, s as nat)))
    &&& (!any(rem) || !any(ready(deps, rem)))
    &&& plan.total_stages == k
    &&& plan.critical_path_length == k
}


/// The ids of the subtasks, in order.
pub open spec fn ids_of(subtasks: Seq<SubTask>) -> Seq<String> {
    subtasks.map_values(|s: SubTask| s.id)
}

/// How many flags are set.
pub open spec fn count_true(m: Seq<bool>) -> nat
    decreases m.len(),
{
    if m.len() == 0 {
        0
    } else {
        count_true(m.drop_last()) + if m.last() { 1nat } else { 0nat }
    }
}

pub proof fn lemma_count_true_any(m: Seq<bool>)
    ensures
        any(m) <==> count_true(m) > 0,
    decreases m.len(),
{
    if m.len() > 0 {
        lemma_count_true_any(m.drop_last());
        if any(m.drop_last()) {
            let i = choose|i: int| 0 <= i < m.drop_last().len() && #[trigger] m.drop_last()[i];
            assert(m[i]);
        }
        if any(m) && !m.last() {
            let i = choose|i: int| 0 <= i < m.len() && #[trigger] m[i];
            assert(m.drop_last()[i]);
        }
    }
}

/// Clearing set flags of `r` that `rd` marks, when `rd` marks some, lowers the count.
pub proof fn lemma_count_true_clear(r: Seq<bool>, rd: Seq<bool>)
    requires
        r.len() == rd.len(),
        forall|i: int| 0 <= i < r.len() && #[trigger] rd[i] ==> r[i],
    ensures
        count_true(Seq::new(r.len(), |i: int| r[i] && !rd[i])) <= count_true(r),
        any(rd) ==> count_true(Seq::new(r.len(), |i: int| r[i] && !rd[i])) < count_true(r),
    decreases r.len(),
{
    let c = Seq::new(r.len(), |i: int| r[i] && !rd[i]);
    if r.len() > 0 {
        let r2 = r.drop_last();
        let rd2 = rd.drop_last();
        lemma_count_true_clear(r2, rd2);
        assert(c.drop_last() =~= Seq::new(r2.len(), |i: int| r2[i] && !rd2[i]));
        if any(rd) && !rd.last() {
            let i = choose|i: int| 0 <= i < rd.len() && #[trigger] rd[i];
            assert(rd2[i]);
        }
    }
}

fn is_blocked(dependencies: &[Dependency], rem: &Vec<bool>, i: usize) -> (b: bool)
    requires
        forall|e: int| 0 <= e < dependencies@.len() ==> (#[trigger] dependencies@[e]).from_step < rem@.len(),
    ensures
        b == blocked(dep_pairs(dependencies@), rem@, i as int),
{
    let ghost deps = dep_pairs(dependencies@);
    let m = dependencies.len();
    let mut e: usize = 0;
    while e < m
        invariant
            m == dependencies@.len(),
            deps == dep_pairs(dependencies@),
            forall|x: int| 0 <= x < dependencies@.len() ==> (#[trigger] dependencies@[x]).from_step < rem@.len(),
            e <= m,
            forall|x: int| 0 <= x < e ==> !((#[trigger] deps[x]).1 == i && rem@[deps[x].0 as int]),
        decreases m - e,
    {
        let d = &dependencies[e];
        if d.to_step == i && rem[d.from_step] {
            proof {
                assert(deps[e as int] == (d.from_step, d.to_step));
            }
            return true;
        }
        proof {
            assert(deps[e as int] == (d.from_step, d.to_step));
        }
        e = e + 1;
    }
    false
}

fn ready_mask(dependencies: &[Dependency], rem: &Vec<bool>) -> (rd: Vec<bool>)
    requires
        forall|e: int| 0 <= e < dependencies@.len() ==> (#[trigger] dependencies@[e]).from_step < rem@.len(),
    ensures
        rd@ == ready(dep_pairs(dependencies@), rem@),
{
    let n = rem.len();
    let mut rd: Vec<bool> = Vec::new();
    let mut i: usize = 0;
    while i < n
        invariant
            n == rem@.len(),
            forall|e: int| 0 <= e < dependencies@.len() ==> (#[trigger] dependencies@[e]).from_step < rem@.len(),
            i <= n,
            rd@.len() == i,
            forall|t: int| 0 <= t < i ==> #[trigger] rd@[t] == (rem@[t] && !blocked(dep_pairs(dependencies@), rem@, t)),
        decreases n - i,
    {
        let r = rem[i] && !is_blocked(dependencies, rem, i);
        rd.push(r);
        i = i + 1;
    }
    assert(rd@ =~= ready(dep_pairs(dependencies@), rem@));
    rd
}

fn select_ids(subtasks: &[SubTask], mask: &Vec<bool>) -> (out: Vec<String>)
    requires
        mask@.len() == subtasks@.len(),
    ensures
        out@ == select(ids_of(subtasks@), mask@),
{
    let ghost ids = ids_of(subtasks@);
    let n = subtasks.len();
    let mut out: Vec<String> = Vec::new();
    let mut i: usize = 0;
    while i < n
        invariant
            n == subtasks@.len(),
            ids == ids_of(subtasks@),
            mask@.len() == n,
            i <= n,
            out@ == select(ids.take(i as int), mask@),
        decreases n - i,
    {
        proof {
            assert(ids.take(i as int + 1).drop_last() =~= ids.take(i as int));
            assert(ids.take(i as int + 1).last() == subtasks@[i as int].id);
        }
        if mask[i] {
            out.push(subtasks[i].id.clone());
        }
        i = i + 1;
    }
    assert(ids.take(n as int) =~= ids);
    out
}

pub(crate) fn holds_id_exec(names: &Vec<String>, id: &String) -> (b: bool)
    ensures
        b == holds_id(names@, id@),
{
    let n = names.len();
    let mut j: usize = 0;
    while j < n
        invariant
            n == names@.len(),
            j <= n,
            forall|t: int| 0 <= t < j ==> (#[trigger] names@[t])@ != id@,
        decreases n - j,
    {
        if str_eq_string(&names[j], id.as_str()) {
            return true;
        }
        j = j + 1;
    }
    false
}

fn contains_usize(v: &Vec<usize>, x: usize) -> (b: bool)
    ensures
        b == v@.contains(x),
{
    let n = v.len();
    let mut j: usize = 0;
    while j < n
        invariant
            n == v@.len(),
            j <= n,
            forall|t: int| 0 <= t < j ==> v@[t] != x,
        decreases n - j,
    {
        if v[j] == x {
            return true;
        }
        j = j + 1;
    }
    false
}

/// The earlier stages that the subtasks marked in `rd` wait for, each once.
fn waited_stages(
    subtasks: &[SubTask],
    dependencies: &[Dependency],
    rd: &Vec<bool>,
    stages: &Vec<ExecutionStage>,
) -> (out: Vec<usize>)
    requires
        rd@.len() == subtasks@.len(),
        forall|e: int| 0 <= e < dependencies@.len() ==>
            (#[trigger] dependencies@[e]).from_step < subtasks@.len() && dependencies@[e].to_step < subtasks@.len(),
    ensures
        forall|a: int, b: int| 0 <= a < b < out@.len() ==> out@[a] != out@[b],
        forall|x: int| 0 <= x < out@.len() ==>
            (#[trigger] out@[x]) < stages@.len()
            && waits_for_stage(ids_of(subtasks@), dep_pairs(dependencies@), rd@, stages@, out@[x] as int),
        forall|s: int| 0 <= s < stages@.len() && waits_for_stage(ids_of(subtasks@), dep_pairs(dependencies@), rd@, stages@, s) ==>
            #[trigger] out@.contains(s as usize),
{
    let ghost ids = ids_of(subtasks@);
    let ghost deps = dep_pairs(dependencies@);
    let m = dependencies.len();
    let k = stages.len();
    let mut out: Vec<usize> = Vec::new();
    let mut e: usize = 0;
    while e < m
        invariant
            m == dependencies@.len(),
            k == stages@.len(),
            ids == ids_of(subtasks@),
            deps == dep_pairs(dependencies@),
            rd@.len() == subtasks@.len(),
            forall|x: int| 0 <= x < dependencies@.len() ==>
                (#[trigger] dependencies@[x]).from_step < subtasks@.len() && dependencies@[x].to_step < subtasks@.len(),
            e <= m,
            forall|a: int, b: int| 0 <= a < b < out@.len() ==> out@[a] != out@[b],
            forall|x: int| 0 <= x < out@.len() ==>
                (#[trigger] out@[x]) < k && waits_for_stage(ids, deps, rd@, stages@, out@[x] as int),
            forall|x: int, s: int| #![trigger deps[x], stages@[s]] 0 <= x < e && 0 <= s < k && rd@[deps[x].1 as int]
                && holds_id(stages@[s].subtask_ids@, ids[deps[x].0 as int]@) ==> out@.contains(s as usize),
        decreases m - e,
    {
        let d = &dependencies[e];
        proof {
            assert(deps[e as int] == (d.from_step, d.to_step));
        }
        if rd[d.to_step] {
            let mut s: usize = 0;
            while s < k
                invariant
                    m == dependencies@.len(),
                    k == stages@.len(),
                    e < m,
                    ids == ids_of(subtasks@),
                    deps == dep_pairs(dependencies@),
                    deps[e as int] == (d.from_step, d.to_step),
                    d.from_step < subtasks@.len(),
                    rd@.len() == subtasks@.len(),
                    rd@[d.to_step as int],
                    s <= k,
                    forall|a: int, b: int| 0 <= a < b < out@.len() ==> out@[a] != out@[b],
                    forall|x: int| 0 <= x < out@.len() ==>
                        (#[trigger] out@[x]) < k && waits_for_stage(ids, deps, rd@, stages@, out@[x] as int),
                    forall|x: int, t: int| #![trigger deps[x], stages@[t]] 0 <= x < e && 0 <= t < k && rd@[deps[x].1 as int]
                        && holds_id(stages@[t].subtask_ids@, ids[deps[x].0 as int]@) ==> out@.contains(t as usize),
                    forall|t: int| 0 <= t < s && holds_id((#[trigger] stages@[t]).subtask_ids@, ids[d.from_step as int]@) ==>
                        out@.contains(t as usize),
                decreases k - s,
            {
                proof {
                    assert(ids[d.from_step as int] == subtasks@[d.from_step as int].id);
                }
                if holds_id_exec(&stages[s].subtask_ids, &subtasks[d.from_step].id) {
                    if !contains_usize(&out, s) {
                        let ghost before = out@;
                        out.push(s);
                        proof {
                            assert(waits_for_stage(ids, deps, rd@, stages@, s as int));
                            assert forall|a: int, b: int| 0 <= a < b < out@.len() implies out@[a] != out@[b] by {
                                if b == before.len() {
                                    assert(before[a] != s);
                                }
                            }
                            assert forall|y: usize| before.contains(y) implies out@.contains(y) by {
                                let w = choose|w: int| 0 <= w < before.len() && before[w] == y;
                                assert(out@[w] == y);
                            }
                            assert(out@[before.len() as int] == s);
                        }
                    }
                }
                s = s + 1;
            }
        }
        e = e + 1;
    }
    proof {
        assert forall|t: int| 0 <= t < stages@.len() && waits_for_stage(ids, deps, rd@, stages@, t) implies
            #[trigger] out@.contains(t as usize) by {
            let x = choose|x: int| 0 <= x < deps.len() && rd@[(#[trigger] deps[x]).1 as int]
                && holds_id(stages@[t].subtask_ids@, ids[deps[x].0 as int]@);
        }
    }
    out
}


/// Dependencies name only subtasks that exist.
pub open spec fn deps_in_range(dependencies: Seq<Dependency>, n: nat) -> bool {
    forall|e: int| 0 <= e < dependencies.len() ==>
        (#[trigger] dependencies[e]).from_step < n && dependencies[e].to_step < n
}

/// Layers `subtasks` into stages: each round places, as one stage, every
/// remaining subtask whose dependencies are all placed, noting the earlier
/// stages it waits for. Under a dependency cycle the subtasks on it are never
/// placed and the plan ends early.
pub fn build_execution_plan(subtasks: &[SubTask], dependencies: &[Dependency]) -> (plan: ExecutionPlan)
    requires
        deps_in_range(dependencies@, subtasks@.len()),
    ensures
        plan_ok(ids_of(subtasks@), dep_pairs(dependencies@), plan),
{
    let ghost ids = ids_of(subtasks@);
    let ghost deps = dep_pairs(dependencies@);
    let n = subtasks.len();
    let mut plan = ExecutionPlan::new();
    let mut rem: Vec<bool> = Vec::new();
    let mut i: usize = 0;
    while i < n
        invariant
            n == subtasks@.len(),
            i <= n,
            rem@.len() == i,
            forall|t: int| 0 <= t < i ==> #[trigger] rem@[t],
        decreases n - i,
    {
        rem.push(true);
        i = i + 1;
    }
    proof {
        assert(rem@ =~= remaining(n as nat, deps, 0));
        lemma_count_all_true(rem@);
    }
    let mut k: usize = 0;
    loop
        invariant
            n == subtasks@.len(),
            ids == ids_of(subtasks@),
            ids.len() == n,
            deps == dep_pairs(dependencies@),
            deps_in_range(dependencies@, subtasks@.len()),
            rem@ == remaining(n as nat, deps, k as nat),
            rem@.len() == n,
            plan.stages@.len() == k,
            plan.total_stages == k,
            k <= n,
            k + count_true(rem@) <= n,
            forall|s: int| 0 <= s < k ==> stage_ok(ids, deps, plan.stages@, s),
            forall|s: int| 0 <= s < k ==> #[trigger] any(ready(deps, remaining(n as nat, deps, s as nat))),
        ensures
            rem@ == remaining(n as nat, deps, k as nat),
            plan.stages@.len() == k,
            plan.total_stages == k,
            forall|s: int| 0 <= s < k ==> stage_ok(ids, deps, plan.stages@, s),
            forall|s: int| 0 <= s < k ==> #[trigger] any(ready(deps, remaining(n as nat, deps, s as nat))),
            !any(rem@) || !any(ready(deps, rem@)),
        decreases count_true(rem@),
    {
        if !any_set(&rem) {
            break;
        }
        let rd = ready_mask(dependencies, &rem);
        if !any_set(&rd) {
            break;
        }
        let names = select_ids(subtasks, &rd);
        let waited = waited_stages(subtasks, dependencies, &rd, &plan.stages);
        let count = names.len();
        let stage = ExecutionStage {
            stage_id: k,
            subtask_ids: names,
            can_parallelize: count > 1,
            depends_on_stages: waited,
        };
        let ghost old_stages = plan.stages@;
        let ghost old_rem = rem@;
        proof {
            lemma_count_true_clear(old_rem, rd@);
        }
        plan.add_stage(stage);
        let mut j: usize = 0;
        while j < n
            invariant
                n == rem@.len(),
                rd@.len() == n,
                old_rem.len() == n,
                j <= n,
                forall|t: int| 0 <= t < j ==> #[trigger] rem@[t] == (old_rem[t] && !rd@[t]),
                forall|t: int| j <= t < n ==> #[trigger] rem@[t] == old_rem[t],
            decreases n - j,
        {
            if rd[j] {
                rem.set(j, false);
            }
            j = j + 1;
        }
        proof {
            assert(rem@ =~= Seq::new(n as nat, |t: int| old_rem[t] && !rd@[t]));
            assert(rem@ =~= remaining(n as nat, deps, (k + 1) as nat));
            assert forall|s: int| 0 <= s < k + 1 implies stage_ok(ids, deps, plan.stages@, s) by {
                if s < k {
                    lemma_stage_ok_extend(ids, deps, old_stages, plan.stages@, s);
                } else {
                    assert(plan.stages@[s] == stage);
                    assert forall|x: int| 0 <= x < stage.depends_on_stages@.len() implies
                        waits_for_stage(ids, deps, rd@, plan.stages@, #[trigger] stage.depends_on_stages@[x] as int) by {
                        lemma_waits_extend(ids, deps, rd@, old_stages, plan.stages@, stage.depends_on_stages@[x] as int);
                    }
                    assert forall|t: int| 0 <= t < k && waits_for_stage(ids, deps, rd@, plan.stages@, t) implies
                        #[trigger] stage.depends_on_stages@.contains(t as usize) by {
                        lemma_waits_extend(ids, deps, rd@, old_stages, plan.stages@, t);
                    }
                }
            }
        }
        k = k + 1;
    }
    plan.critical_path_length = plan.stages.len();
    plan
}

proof fn lemma_waits_extend(
    ids: Seq<String>,
    deps: Seq<(usize, usize)>,
    rd: Seq<bool>,
    old_stages: Seq<ExecutionStage>,
    new_stages: Seq<ExecutionStage>,
    s: int,
)
    requires
        0 <= s < old_stages.len(),
        new_stages.len() == old_stages.len() + 1,
        forall|t: int| 0 <= t < old_stages.len() ==> new_stages[t] == old_stages[t],
    ensures
        waits_for_stage(ids, deps, rd, new_stages, s) == waits_for_stage(ids, deps, rd, old_stages, s),
{
    assert(new_stages[s] == old_stages[s]);
}

proof fn lemma_stage_ok_extend(
    ids: Seq<String>,
    deps: Seq<(usize, usize)>,
    old_stages: Seq<ExecutionStage>,
    new_stages: Seq<ExecutionStage>,
    s: int,
)
    requires
        0 <= s < old_stages.len(),
        new_stages.len() == old_stages.len() + 1,
        forall|t: int| 0 <= t < old_stages.len() ==> new_stages[t] == old_stages[t],
        stage_ok(ids, deps, old_stages, s),
    ensures
        stage_ok(ids, deps, new_stages, s),
{
    let rd = ready(deps, remaining(ids.len(), deps, s as nat));
    assert(new_stages[s] == old_stages[s]);
    assert forall|t: int| 0 <= t < s implies
        waits_for_stage(ids, deps, rd, new_stages, t) == waits_for_stage(ids, deps, rd, old_stages, t) by {
        lemma_waits_extend(ids, deps, rd, old_stages, new_stages, t);
    }
}

proof fn lemma_count_all_true(m: Seq<bool>)
    requires
        forall|i: int| 0 <= i < m.len() ==> #[trigger] m[i],
    ensures
        count_true(m) == m.len(),
    decreases m.len(),
{
    if m.len() > 0 {
        lemma_count_all_true(m.drop_last());
    }
}

/// Whether any flag is set.
fn any_set(m: &Vec<bool>) -> (b: bool)
    ensures
        b == any(m@),
{
    let n = m.len();
    let mut i: usize = 0;
    while i < n
        invariant
            n == m@.len(),
            i <= n,
            forall|t: int| 0 <= t < i ==> !#[trigger] m@[t],
        decreases n - i,
    {
        if m[i] {
            return true;
        }
        i = i + 1;
    }
    false
}


/// Subtask `i` of `n` is placed in round `s`: it is among those ready then.
pub open spec fn placed_at(n: nat, deps: Seq<(usize, usize)>, i: int, s: nat) -> bool {
    0 <= i < n && ready(deps, remaining(n, deps, s))[i]
}

pub proof fn lemma_remaining_len(n: nat, deps: Seq<(usize, usize)>, k: nat)
    ensures
        remaining(n, deps, k).len() == n,
    decreases k,
{
    if k > 0 {
        lemma_remaining_len(n, deps, (k - 1) as nat);
    }
}

/// A subtask no longer remaining stays placed.
pub proof fn lemma_remaining_monotone(n: nat, deps: Seq<(usize, usize)>, i: int, s: nat, t: nat)
    requires
        0 <= i < n,
        s <= t,
        !remaining(n, deps, s)[i],
    ensures
        !remaining(n, deps, t)[i],
    decreases t - s,
{
    if s < t {
        lemma_remaining_monotone(n, deps, i, s, (t - 1) as nat);
        lemma_remaining_len(n, deps, (t - 1) as nat);
    }
}

/// A subtask that no longer remains was placed in an earlier round.
pub proof fn lemma_gone_was_placed(n: nat, deps: Seq<(usize, usize)>, i: int, s: nat)
    requires
        0 <= i < n,
        !remaining(n, deps, s)[i],
    ensures
        exists|r: nat| r < s && #[trigger] placed_at(n, deps, i, r),
    decreases s,
{
    if s > 0 {
        let prev = (s - 1) as nat;
        lemma_remaining_len(n, deps, prev);
        if remaining(n, deps, prev)[i] {
            assert(ready(deps, remaining(n, deps, prev))[i]);
            assert(placed_at(n, deps, i, prev));
        } else {
            lemma_gone_was_placed(n, deps, i, prev);
            let r = choose|r: nat| r < prev && #[trigger] placed_at(n, deps, i, r);
            assert(placed_at(n, deps, i, r));
        }
    }
}

/// Each subtask is placed in at most one round, so at most one stage holds it.
pub proof fn law_placed_once(n: nat, deps: Seq<(usize, usize)>, i: int, s: nat, t: nat)
    requires
        placed_at(n, deps, i, s),
        placed_at(n, deps, i, t),
    ensures
        s == t,
{
    lemma_remaining_len(n, deps, s);
    lemma_remaining_len(n, deps, t);
    if s < t {
        lemma_remaining_len(n, deps, (s + 1) as nat);
        assert(!remaining(n, deps, (s + 1) as nat)[i]);
        lemma_remaining_monotone(n, deps, i, (s + 1) as nat, t);
    } else if t < s {
        lemma_remaining_len(n, deps, (t + 1) as nat);
        assert(!remaining(n, deps, (t + 1) as nat)[i]);
        lemma_remaining_monotone(n, deps, i, (t + 1) as nat, s);
    }
}

/// A subtask is placed only after every subtask it depends on: each of
/// those lies in an earlier stage.
pub proof fn law_dependencies_placed_earlier(n: nat, deps: Seq<(usize, usize)>, i: int, s: nat, e: int)
    requires
        placed_at(n, deps, i, s),
        0 <= e < deps.len(),
        deps[e].1 == i,
        deps[e].0 < n,
    ensures
        exists|r: nat| r < s && #[trigger] placed_at(n, deps, deps[e].0 as int, r),
{
    lemma_remaining_len(n, deps, s);
    let rem = remaining(n, deps, s);
    assert(!blocked(deps, rem, i));
    assert(!rem[deps[e].0 as int]);
    lemma_gone_was_placed(n, deps, deps[e].0 as int, s);
}

/// When the plan ends with subtasks left over, each of them waits for
/// another left-over subtask: only a dependency cycle leaves subtasks out.
pub proof fn law_left_over_subtasks_wait(ids: Seq<String>, deps: Seq<(usize, usize)>, plan: ExecutionPlan, i: int)
    requires
        plan_ok(ids, deps, plan),
        0 <= i < ids.len(),
        remaining(ids.len(), deps, plan.stages@.len())[i],
    ensures
        blocked(deps, remaining(ids.len(), deps, plan.stages@.len()), i),
{
    let rem = remaining(ids.len(), deps, plan.stages@.len());
    lemma_remaining_len(ids.len(), deps, plan.stages@.len());
    assert(any(rem)) by {
        assert(rem[i]);
    }
    if !blocked(deps, rem, i) {
        assert(ready(deps, rem)[i]);
        assert(any(ready(deps, rem)));
    }
}

} // verus!
