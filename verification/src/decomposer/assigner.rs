//! Assigning subtasks to agents: round robin, by capability, or by load.

use vstd::prelude::*;
use crate::agent::task::SubTask;
use crate::error::AgentError;
use crate::json::Json;
use crate::text::{contains_seq, lowercase, str_contains, to_lowercase, str_eq_string};

verus! {

/// How subtasks are spread over agents.
#[derive(Debug, Clone, Copy, PartialEq, Eq, Structural)]
pub enum AssignmentStrategy {
    /// In turn, agent after agent.
    RoundRobin,
    /// To the least loaded available agent whose capability the subtask names.
    CapabilityBased,
    /// To the least loaded agent with room left.
    LoadBalanced,
}

impl Default for AssignmentStrategy {
    fn default() -> (s: Self)
        ensures
            s == AssignmentStrategy::LoadBalanced,
    {
        AssignmentStrategy::LoadBalanced
    }
}

/// An agent as the assigner sees it.
#[derive(Debug)]
pub struct AgentInfo {
    pub id: String,
    pub name: String,
    pub capabilities: Vec<String>,
    pub current_load: usize,
    pub max_load: usize,
}

impl AgentInfo {
    /// An agent with no capabilities, no load and room for ten subtasks.
    pub fn new(id: &str, name: &str) -> (a: Self)
        ensures
            a.id@ == id@,
            a.name@ == name@,
            a.capabilities@.len() == 0,
            a.current_load == 0,
            a.max_load == 10,
    {
        AgentInfo {
            id: String::from_str(id),
            name: String::from_str(name),
            capabilities: Vec::new(),
            current_load: 0,
            max_load: 10,
        }
    }

    pub fn with_capabilities(self, caps: Vec<String>) -> (a: Self)
        ensures
            a == (AgentInfo { capabilities: caps, ..self }),
    {
        AgentInfo { capabilities: caps, ..self }
    }

    pub fn with_max_load(self, max: usize) -> (a: Self)
        ensures
            a == (AgentInfo { max_load: max, ..self }),
    {
        AgentInfo { max_load: max, ..self }
    }

    pub open spec fn spec_has_capability(&self, cap: Seq<char>) -> bool {
        exists|k: int| 0 <= k < self.capabilities@.len() && (#[trigger] self.capabilities@[k])@ == cap
    }

    /// Whether the agent lists `cap` among its capabilities.
    pub fn has_capability(&self, cap: &str) -> (b: bool)
        ensures
            b == self.spec_has_capability(cap@),
    {
        let n = self.capabilities.len();
        let mut k: usize = 0;
        while k < n
            invariant
                n == self.capabilities@.len(),
                k <= n,
                forall|t: int| 0 <= t < k ==> (#[trigger] self.capabilities@[t])@ != cap@,
            decreases n - k,
        {
            if str_eq_string(&self.capabilities[k], cap) {
                return true;
            }
            k = k + 1;
        }
        false
    }

    /// Room left: maximum load minus current load, or 0.
    pub fn available_capacity(&self) -> (c: usize)
        ensures
            c == (if self.max_load >= self.current_load { (self.max_load - self.current_load) as usize } else { 0 }),
    {
        self.max_load.saturating_sub(self.current_load)
    }

    /// Whether the agent can take more work.
    pub fn is_available(&self) -> (b: bool)
        ensures
            b == (self.current_load < self.max_load),
    {
        self.current_load < self.max_load
    }
}

/// `st` assigned to the agent named `who`.
pub open spec fn assigned(st: SubTask, who: String) -> SubTask {
    SubTask { assigned_to: Some(who), ..st }
}

/// `j` is the first index whose key is least among the candidates.
pub open spec fn first_min(cands: Seq<bool>, keys: Seq<usize>, j: int) -> bool {
    &&& 0 <= j < cands.len()
    &&& cands[j]
    &&& forall|k: int| 0 <= k < cands.len() && #[trigger] cands[k] ==> keys[j] <= keys[k]
    &&& forall|k: int| 0 <= k < j && #[trigger] cands[k] ==> keys[j] < keys[k]
}

pub proof fn lemma_first_min_unique(cands: Seq<bool>, keys: Seq<usize>, a: int, b: int)
    requires
        first_min(cands, keys, a),
        first_min(cands, keys, b),
    ensures
        a == b,
{
    if a < b {
        assert(cands[a]);
    } else if b < a {
        assert(cands[b]);
    }
}

/// Index of the first least key among the candidates, if there is a candidate.
pub fn first_min_index(cands: &Vec<bool>, keys: &Vec<usize>) -> (r: Option<usize>)
    requires
        cands@.len() == keys@.len(),
    ensures
        r matches Some(j) ==> first_min(cands@, keys@, j as int),
        r is None ==> forall|k: int| 0 <= k < cands@.len() ==> !#[trigger] cands@[k],
{
    let n = cands.len();
    let mut best: Option<usize> = None;
    let mut k: usize = 0;
    while k < n
        invariant
            n == cands@.len(),
            n == keys@.len(),
            k <= n,
            best matches Some(j) ==> j < k && first_min(cands@.take(k as int), keys@.take(k as int), j as int),
            best is None ==> forall|t: int| 0 <= t < k ==> !#[trigger] cands@[t],
        decreases n - k,
    {
        let ghost cs = cands@.take(k as int + 1);
        let ghost ks = keys@.take(k as int + 1);
        if cands[k] {
            match best {
                Some(j) => {
                    if keys[k] < keys[j] {
                        best = Some(k);
                        proof {
                            assert forall|t: int| 0 <= t < cs.len() && #[trigger] cs[t] implies ks[k as int] <= ks[t] by {
                                if t < k {
                                    assert(cands@.take(k as int)[t] == cs[t]);
                                }
                            }
                            assert forall|t: int| 0 <= t < k && #[trigger] cs[t] implies ks[k as int] < ks[t] by {
                                assert(cands@.take(k as int)[t] == cs[t]);
                            }
                        }
                    } else {
                        proof {
                            assert forall|t: int| 0 <= t < cs.len() && #[trigger] cs[t] implies ks[j as int] <= ks[t] by {
                                if t < k {
                                    assert(cands@.take(k as int)[t] == cs[t]);
                                }
                            }
                            assert forall|t: int| 0 <= t < j && #[trigger] cs[t] implies ks[j as int] < ks[t] by {
                                assert(cands@.take(k as int)[t] == cs[t]);
                            }
                        }
                    }
                },
                None => {
                    best = Some(k);
                    proof {
                        assert forall|t: int| 0 <= t < cs.len() && #[trigger] cs[t] implies ks[k as int] <= ks[t] by {
                            if t < k {
                                assert(!cands@[t]);
                            }
                        }
                    }
                },
            }
        } else {
            proof {
                if let Some(j) = best {
                    assert forall|t: int| 0 <= t < cs.len() && #[trigger] cs[t] implies ks[j as int] <= ks[t] by {
                        if t < k {
                            assert(cands@.take(k as int)[t] == cs[t]);
                        }
                    }
                    assert forall|t: int| 0 <= t < j && #[trigger] cs[t] implies ks[j as int] < ks[t] by {
                        assert(cands@.take(k as int)[t] == cs[t]);
                    }
                }
            }
        }
        k = k + 1;
    }
    proof {
        assert(cands@.take(n as int) =~= cands@);
        assert(keys@.take(n as int) =~= keys@);
    }
    best
}

/// Whether agent `a` may take a subtask described by `desc` under the
/// capability strategy: it has room, and the lower-cased description
/// contains one of its lower-cased capabilities.
pub open spec fn capability_candidate(a: AgentInfo, desc: Seq<char>) -> bool {
    &&& a.current_load < a.max_load
    &&& exists|k: int| 0 <= k < a.capabilities@.len()
        && contains_seq(lowercase(desc), lowercase((#[trigger] a.capabilities@[k])@))
}

/// Agents that may take a subtask described by `desc`.
pub open spec fn capability_cands(agents: Seq<AgentInfo>, desc: Seq<char>) -> Seq<bool> {
    Seq::new(agents.len(), |k: int| capability_candidate(agents[k], desc))
}

/// The agents' current loads.
pub open spec fn current_loads(agents: Seq<AgentInfo>) -> Seq<usize> {
    Seq::new(agents.len(), |k: int| agents[k].current_load)
}

/// The agent the capability strategy picks for a subtask described by
/// `desc`: the first least loaded candidate, or the first agent when there
/// is no candidate.
pub open spec fn capability_choice(agents: Seq<AgentInfo>, desc: Seq<char>) -> int {
    if exists|j: int| first_min(capability_cands(agents, desc), current_loads(agents), j) {
        choose|j: int| first_min(capability_cands(agents, desc), current_loads(agents), j)
    } else {
        0
    }
}

/// The load each agent starts with under the load strategy: the current
/// load of the last agent listed under the same id.
pub open spec fn initial_load(agents: Seq<AgentInfo>, id: Seq<char>) -> usize
    decreases agents.len(),
{
    if agents.len() == 0 {
        0
    } else if agents.last().id@ == id {
        agents.last().current_load
    } else {
        initial_load(agents.drop_last(), id)
    }
}

/// Agents with room under the given loads.
pub open spec fn lb_cands(agents: Seq<AgentInfo>, loads: Seq<usize>) -> Seq<bool> {
    Seq::new(agents.len(), |k: int| loads[k] < agents[k].max_load)
}

/// The loads after a subtask goes to agent `j`: every agent listed under
/// `j`'s id carries one more.
pub open spec fn bump(agents: Seq<AgentInfo>, loads: Seq<usize>, j: int) -> Seq<usize> {
    Seq::new(agents.len(), |l: int| if agents[l].id@ == agents[j].id@ { (loads[l] + 1) as usize } else { loads[l] })
}

/// The load strategy's run over `k` subtasks: the agent picked for each,
/// the loads afterwards, and whether every subtask found an agent. Each
/// subtask goes to the first least loaded agent with room; the run stops at
/// the first subtask for which no agent has room.
pub open spec fn lb_run(agents: Seq<AgentInfo>, k: nat) -> (Seq<int>, Seq<usize>, bool)
    decreases k,
{
    if k == 0 {
        (Seq::empty(), Seq::new(agents.len(), |j: int| initial_load(agents, agents[j].id@)), true)
    } else {
        let prev = lb_run(agents, (k - 1) as nat);
        if !prev.2 {
            prev
        } else if exists|j: int| first_min(lb_cands(agents, prev.1), prev.1, j) {
            let j = choose|j: int| first_min(lb_cands(agents, prev.1), prev.1, j);
            (prev.0.push(j), bump(agents, prev.1, j), true)
        } else {
            (prev.0, prev.1, false)
        }
    }
}

/// Assigns subtasks to agents by a chosen strategy.
pub struct AgentAssigner {
    strategy: AssignmentStrategy,
}

impl AgentAssigner {
    pub closed spec fn spec_strategy(&self) -> AssignmentStrategy {
        self.strategy
    }

    /// An assigner that balances load.
    pub fn new() -> (a: Self)
        ensures
            a.spec_strategy() == AssignmentStrategy::LoadBalanced,
    {
        AgentAssigner { strategy: AssignmentStrategy::LoadBalanced }
    }

    pub fn with_strategy(self, strategy: AssignmentStrategy) -> (a: Self)
        ensures
            a.spec_strategy() == strategy,
    {
        AgentAssigner { strategy }
    }

    pub fn strategy(&self) -> (s: AssignmentStrategy)
        ensures
            s == self.spec_strategy(),
    {
        self.strategy
    }

    /// Assigns every subtask to an agent by the assigner's strategy. Fails
    /// without assigning anything when there are no agents. Under the load
    /// strategy it fails when no agent has room for a subtask; the subtasks
    /// before that one stay assigned.
    pub fn assign(&self, subtasks: &mut Vec<SubTask>, agents: &[AgentInfo]) -> (r: Result<(), AgentError>)
        ensures
            agents@.len() == 0 ==> (r is Err && final(subtasks)@ == old(subtasks)@),
            agents@.len() > 0 && self.spec_strategy() == AssignmentStrategy::RoundRobin ==>
                r is Ok && round_robin_assigned(old(subtasks)@, agents@, final(subtasks)@),
            agents@.len() > 0 && self.spec_strategy() == AssignmentStrategy::CapabilityBased ==>
                r is Ok && capability_assigned(old(subtasks)@, agents@, final(subtasks)@),
            agents@.len() > 0 && self.spec_strategy() == AssignmentStrategy::LoadBalanced ==>
                (r is Ok <==> lb_run(agents@, old(subtasks)@.len()).2)
                && load_balanced_assigned(old(subtasks)@, agents@, final(subtasks)@),
    {
        if agents.len() == 0 {
            return Err(AgentError::internal("No agents available for assignment"));
        }
        match self.strategy {
            AssignmentStrategy::RoundRobin => {
                assign_round_robin(subtasks, agents);
                Ok(())
            },
            AssignmentStrategy::CapabilityBased => {
                assign_by_capability(subtasks, agents);
                Ok(())
            },
            AssignmentStrategy::LoadBalanced => assign_load_balanced(subtasks, agents),
        }
    }
}

impl Default for AgentAssigner {
    fn default() -> (a: Self)
        ensures
            a.spec_strategy() == AssignmentStrategy::LoadBalanced,
    {
        AgentAssigner::new()
    }
}

/// Subtask `i` goes to agent `i mod n`.
pub open spec fn round_robin_assigned(before: Seq<SubTask>, agents: Seq<AgentInfo>, after: Seq<SubTask>) -> bool {
    &&& after.len() == before.len()
    &&& forall|i: int| 0 <= i < before.len() ==>
        #[trigger] after[i] == assigned(before[i], agents[i % (agents.len() as int)].id)
}

/// Each subtask goes to the agent the capability strategy picks for its description.
pub open spec fn capability_assigned(before: Seq<SubTask>, agents: Seq<AgentInfo>, after: Seq<SubTask>) -> bool {
    &&& after.len() == before.len()
    &&& forall|i: int| 0 <= i < before.len() ==>
        #[trigger] after[i] == assigned(before[i], agents[capability_choice(agents, before[i].description@)].id)
}

/// The subtasks the load strategy's run reached go to the agents it picked;
/// the others are unchanged.
pub open spec fn load_balanced_assigned(before: Seq<SubTask>, agents: Seq<AgentInfo>, after: Seq<SubTask>) -> bool {
    let run = lb_run(agents, before.len());
    &&& after.len() == before.len()
    &&& run.0.len() <= before.len()
    &&& forall|i: int| 0 <= i < run.0.len() ==> #[trigger] after[i] == assigned(before[i], agents[run.0[i]].id)
    &&& forall|i: int| run.0.len() <= i < before.len() ==> #[trigger] after[i] == before[i]
}

/// Sets the assignee of subtask `i`.
fn assign_at(subtasks: &mut Vec<SubTask>, i: usize, who: String)
    requires
        i < old(subtasks)@.len(),
    ensures
        final(subtasks)@ == old(subtasks)@.update(i as int, assigned(old(subtasks)@[i as int], who)),
{
    let mut st = SubTask {
        id: String::new(),
        parent_id: String::new(),
        description: String::new(),
        parameters: Json::Null,
        assigned_to: None,
    };
    subtasks.set_and_swap(i, &mut st);
    st.assigned_to = Some(who);
    subtasks.set_and_swap(i, &mut st);
}

fn assign_round_robin(subtasks: &mut Vec<SubTask>, agents: &[AgentInfo])
    requires
        agents@.len() > 0,
    ensures
        round_robin_assigned(old(subtasks)@, agents@, final(subtasks)@),
{
    let n = subtasks.len();
    let m = agents.len();
    let ghost before = subtasks@;
    let mut i: usize = 0;
    while i < n
        invariant
            n == before.len(),
            m == agents@.len(),
            m > 0,
            subtasks@.len() == n,
            i <= n,
            forall|t: int| 0 <= t < i ==> #[trigger] subtasks@[t] == assigned(before[t], agents@[t % (m as int)].id),
            forall|t: int| i <= t < n ==> #[trigger] subtasks@[t] == before[t],
        decreases n - i,
    {
        let k = i % m;
        let who = agents[k].id.clone();
        assign_at(subtasks, i, who);
        i = i + 1;
    }
}

fn capability_candidate_exec(a: &AgentInfo, desc_lower: &str, Ghost(desc): Ghost<Seq<char>>) -> (b: bool)
    requires
        desc_lower@ == lowercase(desc),
    ensures
        b == capability_candidate(*a, desc),
{
    if !a.is_available() {
        return false;
    }
    let n = a.capabilities.len();
    let mut k: usize = 0;
    while k < n
        invariant
            n == a.capabilities@.len(),
            k <= n,
            a.current_load < a.max_load,
            desc_lower@ == lowercase(desc),
            forall|t: int| 0 <= t < k ==> !contains_seq(lowercase(desc), lowercase((#[trigger] a.capabilities@[t])@)),
        decreases n - k,
    {
        let cap_lower = to_lowercase(a.capabilities[k].as_str());
        if str_contains(desc_lower, cap_lower.as_str()) {
            proof {
                assert(contains_seq(lowercase(desc), lowercase((a.capabilities@[k as int])@)));
            }
            return true;
        }
        k = k + 1;
    }
    false
}

fn pick_by_capability(agents: &[AgentInfo], desc: &str) -> (j: usize)
    requires
        agents@.len() > 0,
    ensures
        j < agents@.len(),
        j == capability_choice(agents@, desc@),
{
    let desc_lower = to_lowercase(desc);
    let n = agents.len();
    let mut cands: Vec<bool> = Vec::new();
    let mut keys: Vec<usize> = Vec::new();
    let mut k: usize = 0;
    while k < n
        invariant
            n == agents@.len(),
            k <= n,
            desc_lower@ == lowercase(desc@),
            cands@.len() == k,
            keys@.len() == k,
            forall|t: int| 0 <= t < k ==> #[trigger] cands@[t] == capability_candidate(agents@[t], desc@),
            forall|t: int| 0 <= t < k ==> #[trigger] keys@[t] == agents@[t].current_load,
        decreases n - k,
    {
        let c = capability_candidate_exec(&agents[k], desc_lower.as_str(), Ghost(desc@));
        cands.push(c);
        keys.push(agents[k].current_load);
        k = k + 1;
    }
    let ghost cs = capability_cands(agents@, desc@);
    let ghost ks = current_loads(agents@);
    proof {
        assert(cands@ =~= cs);
        assert(keys@ =~= ks);
    }
    match first_min_index(&cands, &keys) {
        Some(j) => {
            proof {
                let jj = choose|jj: int| first_min(cs, ks, jj);
                lemma_first_min_unique(cs, ks, j as int, jj);
            }
            j
        },
        None => {
            proof {
                if exists|jj: int| first_min(cs, ks, jj) {
                    let jj = choose|jj: int| first_min(cs, ks, jj);
                    assert(cands@[jj]);
                }
            }
            0
        },
    }
}

fn assign_by_capability(subtasks: &mut Vec<SubTask>, agents: &[AgentInfo])
    requires
        agents@.len() > 0,
    ensures
        capability_assigned(old(subtasks)@, agents@, final(subtasks)@),
{
    let n = subtasks.len();
    let ghost before = subtasks@;
    let mut i: usize = 0;
    while i < n
        invariant
            before == old(subtasks)@,
            n == before.len(),
            agents@.len() > 0,
            subtasks@.len() == n,
            i <= n,
            forall|t: int| 0 <= t < i ==>
                #[trigger] subtasks@[t] == assigned(before[t], agents@[capability_choice(agents@, before[t].description@)].id),
            forall|t: int| i <= t < n ==> #[trigger] subtasks@[t] == before[t],
        decreases n - i,
    {
        let j = pick_by_capability(agents, subtasks[i].description.as_str());
        let who = agents[j].id.clone();
        assign_at(subtasks, i, who);
        i = i + 1;
    }
}

fn initial_load_exec(agents: &[AgentInfo], id: &String) -> (l: usize)
    ensures
        l == initial_load(agents@, id@),
{
    let n = agents.len();
    let mut l: usize = 0;
    let mut k: usize = 0;
    while k < n
        invariant
            n == agents@.len(),
            k <= n,
            l == initial_load(agents@.take(k as int), id@),
        decreases n - k,
    {
        proof {
            assert(agents@.take(k as int + 1).drop_last() =~= agents@.take(k as int));
            assert(agents@.take(k as int + 1).last() == agents@[k as int]);
        }
        if agents[k].id == *id {
            l = agents[k].current_load;
        }
        k = k + 1;
    }
    proof {
        assert(agents@.take(n as int) =~= agents@);
    }
    l
}

pub proof fn lemma_lb_run_len(agents: Seq<AgentInfo>, k: nat)
    ensures
        lb_run(agents, k).1.len() == agents.len(),
        lb_run(agents, k).0.len() <= k,
        lb_run(agents, k).2 ==> lb_run(agents, k).0.len() == k,
        forall|t: int| 0 <= t < lb_run(agents, k).0.len() ==> 0 <= #[trigger] lb_run(agents, k).0[t] < agents.len(),
    decreases k,
{
    if k > 0 {
        lemma_lb_run_len(agents, (k - 1) as nat);
    }
}

/// Once the load strategy's run stops, it stays stopped with the same picks.
pub proof fn lemma_lb_run_stopped(agents: Seq<AgentInfo>, k: nat, m: nat)
    requires
        k <= m,
        !lb_run(agents, k).2,
    ensures
        lb_run(agents, m) == lb_run(agents, k),
    decreases m,
{
    if m > k {
        lemma_lb_run_stopped(agents, k, (m - 1) as nat);
    }
}

/// Under the load strategy, agents listed under the same id carry the same load.
pub open spec fn loads_consistent(agents: Seq<AgentInfo>, loads: Seq<usize>) -> bool {
    forall|a: int, b: int| 0 <= a < agents.len() && 0 <= b < agents.len() && agents[a].id@ == agents[b].id@
        ==> #[trigger] loads[a] == #[trigger] loads[b]
}

fn assign_load_balanced(subtasks: &mut Vec<SubTask>, agents: &[AgentInfo]) -> (r: Result<(), AgentError>)
    requires
        agents@.len() > 0,
    ensures
        (r is Ok <==> lb_run(agents@, old(subtasks)@.len()).2),
        load_balanced_assigned(old(subtasks)@, agents@, final(subtasks)@),
{
    let m = agents.len();
    let n = subtasks.len();
    let ghost before = subtasks@;
    let mut loads: Vec<usize> = Vec::new();
    let mut k: usize = 0;
    while k < m
        invariant
            m == agents@.len(),
            k <= m,
            loads@.len() == k,
            forall|t: int| 0 <= t < k ==> #[trigger] loads@[t] == initial_load(agents@, agents@[t].id@),
        decreases m - k,
    {
        let l = initial_load_exec(agents, &agents[k].id);
        loads.push(l);
        k = k + 1;
    }
    proof {
        assert(loads@ =~= lb_run(agents@, 0).1);
    }
    let mut i: usize = 0;
    while i < n
        invariant
            before == old(subtasks)@,
            m == agents@.len(),
            m > 0,
            n == before.len(),
            subtasks@.len() == n,
            i <= n,
            lb_run(agents@, i as nat).2,
            lb_run(agents@, i as nat).0.len() == i,
            loads@ == lb_run(agents@, i as nat).1,
            loads_consistent(agents@, loads@),
            forall|t: int| 0 <= t < i ==> #[trigger] subtasks@[t] == assigned(before[t], agents@[lb_run(agents@, i as nat).0[t]].id),
            forall|t: int| i <= t < n ==> #[trigger] subtasks@[t] == before[t],
        decreases n - i,
    {
        proof {
            lemma_lb_run_len(agents@, i as nat);
        }
        let mut cands: Vec<bool> = Vec::new();
        let mut c: usize = 0;
        while c < m
            invariant
                m == agents@.len(),
                loads@.len() == m,
                c <= m,
                cands@.len() == c,
                forall|t: int| 0 <= t < c ==> #[trigger] cands@[t] == (loads@[t] < agents@[t].max_load),
            decreases m - c,
        {
            cands.push(loads[c] < agents[c].max_load);
            c = c + 1;
        }
        proof {
            assert(cands@ =~= lb_cands(agents@, loads@));
        }
        let ghost prev = lb_run(agents@, i as nat);
        match first_min_index(&cands, &loads) {
            Some(j) => {
                proof {
                    assert(first_min(lb_cands(agents@, prev.1), prev.1, j as int));
                    let jj = choose|jj: int| first_min(lb_cands(agents@, prev.1), prev.1, jj);
                    lemma_first_min_unique(lb_cands(agents@, prev.1), prev.1, j as int, jj);
                    assert(lb_run(agents@, (i + 1) as nat) == (prev.0.push(j as int), bump(agents@, prev.1, j as int), true));
                }
                let mut l: usize = 0;
                let ghost old_loads = loads@;
                while l < m
                    invariant
                        m == agents@.len(),
                        j < m,
                        old_loads.len() == m,
                        loads@.len() == m,
                        l <= m,
                        old_loads[j as int] < agents@[j as int].max_load,
                        loads_consistent(agents@, old_loads),
                        forall|t: int| 0 <= t < l ==> #[trigger] loads@[t] == bump(agents@, old_loads, j as int)[t],
                        forall|t: int| l <= t < m ==> #[trigger] loads@[t] == old_loads[t],
                    decreases m - l,
                {
                    if str_eq_string(&agents[l].id, agents[j].id.as_str()) {
                        proof {
                            assert(old_loads[l as int] == old_loads[j as int]);
                        }
                        let v = loads[l] + 1;
                        loads.set(l, v);
                    }
                    l = l + 1;
                }
                proof {
                    assert(loads@ =~= bump(agents@, old_loads, j as int));
                    assert forall|a: int, b: int| 0 <= a < agents@.len() && 0 <= b < agents@.len() && agents@[a].id@ == agents@[b].id@
                        implies #[trigger] loads@[a] == #[trigger] loads@[b] by {
                        assert(old_loads[a] == old_loads[b]);
                    }
                }
                let who = agents[j].id.clone();
                assign_at(subtasks, i, who);
                proof {
                    let run = lb_run(agents@, (i + 1) as nat);
                    assert(run.0 == prev.0.push(j as int));
                    assert forall|t: int| 0 <= t < i + 1 implies #[trigger] subtasks@[t] == assigned(before[t], agents@[run.0[t]].id) by {
                        if t < i {
                            assert(run.0[t] == prev.0[t]);
                        }
                    }
                }
            },
            None => {
                proof {
                    assert(!exists|jj: int| first_min(lb_cands(agents@, prev.1), prev.1, jj)) by {
                        if exists|jj: int| first_min(lb_cands(agents@, prev.1), prev.1, jj) {
                            let jj = choose|jj: int| first_min(lb_cands(agents@, prev.1), prev.1, jj);
                            assert(cands@[jj]);
                        }
                    }
                    assert(lb_run(agents@, (i + 1) as nat) == (prev.0, prev.1, false));
                    lemma_lb_run_stopped(agents@, (i + 1) as nat, n as nat);
                }
                return Err(AgentError::internal("All agents at maximum load"));
            },
        }
        i = i + 1;
    }
    Ok(())
}

/// Among candidates that include index `i`, some index is the first least one.
pub proof fn lemma_first_min_exists(cands: Seq<bool>, keys: Seq<usize>, i: int)
    requires
        cands.len() == keys.len(),
        0 <= i < cands.len(),
        cands[i],
    ensures
        exists|j: int| first_min(cands, keys, j),
    decreases cands.len(),
{
    let n = cands.len() as int;
    let pc = cands.drop_last();
    let pk = keys.drop_last();
    if exists|k: int| 0 <= k < n - 1 && #[trigger] cands[k] {
        let k = choose|k: int| 0 <= k < n - 1 && #[trigger] cands[k];
        assert(pc[k] == cands[k]);
        lemma_first_min_exists(pc, pk, k);
        let j0 = choose|j: int| first_min(pc, pk, j);
        assert forall|t: int| 0 <= t < n - 1 implies pc[t] == cands[t] && pk[t] == keys[t] by {}
        if cands[n - 1] && keys[n - 1] < keys[j0] {
            assert forall|t: int| 0 <= t < n && #[trigger] cands[t] implies keys[n - 1] <= keys[t] by {
                if t < n - 1 {
                    assert(pc[t]);
                }
            }
            assert forall|t: int| 0 <= t < n - 1 && #[trigger] cands[t] implies keys[n - 1] < keys[t] by {
                assert(pc[t]);
            }
            assert(first_min(cands, keys, n - 1));
        } else {
            assert forall|t: int| 0 <= t < n && #[trigger] cands[t] implies keys[j0] <= keys[t] by {
                if t < n - 1 {
                    assert(pc[t]);
                }
            }
            assert forall|t: int| 0 <= t < j0 && #[trigger] cands[t] implies keys[j0] < keys[t] by {
                assert(pc[t]);
            }
            assert(first_min(cands, keys, j0));
        }
    } else {
        assert(i == n - 1);
        assert(first_min(cands, keys, n - 1));
    }
}

/// Under the capability strategy a subtask that some agent can take goes to
/// an agent that can take it and carries the least current load among all
/// such agents; of equally loaded ones, the first.
pub proof fn law_capability_picks_least_loaded(agents: Seq<AgentInfo>, desc: Seq<char>, i: int)
    requires
        0 <= i < agents.len(),
        capability_candidate(agents[i], desc),
    ensures
        0 <= capability_choice(agents, desc) < agents.len(),
        capability_candidate(agents[capability_choice(agents, desc)], desc),
        forall|b: int| 0 <= b < agents.len() && capability_candidate(#[trigger] agents[b], desc) ==>
            agents[capability_choice(agents, desc)].current_load <= agents[b].current_load,
        forall|b: int| 0 <= b < capability_choice(agents, desc) && capability_candidate(#[trigger] agents[b], desc) ==>
            agents[capability_choice(agents, desc)].current_load < agents[b].current_load,
{
    let cands = capability_cands(agents, desc);
    let keys = current_loads(agents);
    assert(cands[i]);
    lemma_first_min_exists(cands, keys, i);
    let c = capability_choice(agents, desc);
    assert(first_min(cands, keys, c));
    assert forall|b: int| 0 <= b < agents.len() && capability_candidate(#[trigger] agents[b], desc) implies
        agents[c].current_load <= agents[b].current_load by {
        assert(cands[b]);
    }
    assert forall|b: int| 0 <= b < c && capability_candidate(#[trigger] agents[b], desc) implies
        agents[c].current_load < agents[b].current_load by {
        assert(cands[b]);
    }
}

/// When no agent can take a subtask, the capability strategy falls back to
/// the first agent.
pub proof fn law_capability_falls_back_to_first(agents: Seq<AgentInfo>, desc: Seq<char>)
    requires
        forall|b: int| 0 <= b < agents.len() ==> !capability_candidate(#[trigger] agents[b], desc),
    ensures
        capability_choice(agents, desc) == 0,
{
    let cands = capability_cands(agents, desc);
    assert forall|j: int| !first_min(cands, current_loads(agents), j) by {
        if 0 <= j < cands.len() {
            assert(!capability_candidate(agents[j], desc));
        }
    }
}

/// Round robin hands the first subtasks to the agents in the order they are
/// listed, then starts over: a subtask goes to the same agent as the one
/// as many places before it as there are agents.
pub proof fn law_round_robin_cycles(before: Seq<SubTask>, agents: Seq<AgentInfo>, after: Seq<SubTask>)
    requires
        agents.len() > 0,
        round_robin_assigned(before, agents, after),
    ensures
        forall|i: int| 0 <= i < before.len() && i < agents.len() ==>
            (#[trigger] after[i]).assigned_to == Some(agents[i].id),
        forall|i: int| 0 <= i && i + agents.len() < before.len() ==>
            (#[trigger] after[i + agents.len()]).assigned_to == after[i].assigned_to,
        forall|i: int| 0 <= i < before.len() ==> (#[trigger] after[i]).id == before[i].id
            && after[i].description == before[i].description,
{
    let n = agents.len() as int;
    assert forall|i: int| 0 <= i < before.len() && i < n implies
        (#[trigger] after[i]).assigned_to == Some(agents[i].id) by {
        assert(i % n == i) by (nonlinear_arith)
            requires 0 <= i < n;
    }
    assert forall|i: int| 0 <= i && i + n < before.len() implies
        (#[trigger] after[i + n]).assigned_to == after[i].assigned_to by {
        assert((i + n) % n == i % n) by (nonlinear_arith)
            requires 0 <= i, n > 0;
        assert(after[i] == assigned(before[i], agents[i % n].id));
    }
}

/// Under load balancing each subtask goes to an agent with room that
/// carries the least load at that point (the first such), and that agent's
/// load then grows by one.
pub proof fn law_load_balanced_picks_least_loaded(agents: Seq<AgentInfo>, k: nat)
    requires
        lb_run(agents, k + 1).2,
    ensures
        ({
            let loads = lb_run(agents, k).1;
            let j = lb_run(agents, k + 1).0[k as int];
            &&& 0 <= j < agents.len()
            &&& loads[j] < agents[j].max_load
            &&& forall|b: int| 0 <= b < agents.len() && #[trigger] loads[b] < agents[b].max_load ==> loads[j] <= loads[b]
            &&& lb_run(agents, k + 1).1[j] == loads[j] + 1
        }),
{
    lemma_lb_run_len(agents, k);
    lemma_lb_run_len(agents, k + 1);
    let prev = lb_run(agents, k);
    let loads = prev.1;
    let cands = lb_cands(agents, loads);
    let j = choose|j: int| first_min(cands, loads, j);
    assert(lb_run(agents, k + 1).0 == prev.0.push(j));
    assert(lb_run(agents, k + 1).0[k as int] == j);
    assert forall|b: int| 0 <= b < agents.len() && #[trigger] loads[b] < agents[b].max_load implies loads[j] <= loads[b] by {
        assert(cands[b]);
    }
}

} // verus!
