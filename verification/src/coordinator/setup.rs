//! The coordinator's configuration, its specialised agents, and the tasks
//! it builds for code analysis.

use vstd::prelude::*;
use crate::agent::lifecycle::trivial_output;
use crate::agent::task::{Output, SubTask, Task};
use crate::analysis::{
    analyze_performance, analyze_security, analyze_structure, analyze_style, performance_findings,
    performance_score, report_json, score_summary, security_findings, security_score, structure_json,
    structure_of, style_findings, style_score,
};
use crate::decomposer::assigner::AgentInfo;
use crate::decomposer::sequential::generated_id;
use crate::error::AgentError;
use crate::ids::{is_hyphenated_uuid, new_uuid_string};
use crate::json::Json;
use crate::scan::utf8_size;
use crate::text::{contains_seq, lowercase, str_contains, to_lowercase};

verus! {

/// How the coordinator runs subtasks.
#[derive(Debug, Clone, Copy, PartialEq, Eq)]
pub struct CoordinatorConfig {
    pub use_llm_for_decomposition: bool,
    pub parallel_execution: bool,
    pub max_agents: usize,
    /// At most this many subtasks run at once.
    pub max_concurrent_subtasks: usize,
    /// Stop at the first failed subtask instead of collecting partial results.
    pub fail_fast: bool,
}

impl Default for CoordinatorConfig {
    fn default() -> (c: Self)
        ensures
            c == (CoordinatorConfig {
                use_llm_for_decomposition: false,
                parallel_execution: true,
                max_agents: 10,
                max_concurrent_subtasks: 4,
                fail_fast: false,
            }),
    {
        CoordinatorConfig {
            use_llm_for_decomposition: false,
            parallel_execution: true,
            max_agents: 10,
            max_concurrent_subtasks: 4,
            fail_fast: false,
        }
    }
}

/// Some expertise keyword occurs, ignoring case, in the task type.
pub open spec fn handles(expertise: Seq<Seq<char>>, task_type: Seq<char>) -> bool {
    exists|i: int| 0 <= i < expertise.len() && contains_seq(lowercase(task_type), lowercase(#[trigger] expertise[i]))
}

/// An agent with a domain of expertise.
pub trait SpecializedAgent {
    spec fn spec_domain(&self) -> Seq<char>;

    spec fn spec_expertise(&self) -> Seq<Seq<char>>;

    /// The agent's domain.
    fn domain(&self) -> (d: &'static str)
        ensures
            d@ == self.spec_domain(),
    ;

    /// Keywords of the agent's expertise.
    fn expertise(&self) -> (e: Vec<&'static str>)
        ensures
            e@.map_values(|s: &'static str| s@) == self.spec_expertise(),
    ;

    /// Whether a task of type `task_type` falls in the agent's expertise:
    /// some keyword occurs in it, ignoring case.
    fn can_handle(&self, task_type: &str) -> (b: bool)
        ensures
            b == handles(self.spec_expertise(), task_type@),
    {
        let keywords = self.expertise();
        let lower = to_lowercase(task_type);
        let mut i: usize = 0;
        while i < keywords.len()
            invariant
                i <= keywords@.len(),
                keywords@.map_values(|s: &'static str| s@) == self.spec_expertise(),
                lower@ == lowercase(task_type@),
                forall|t: int| 0 <= t < i ==> !contains_seq(lowercase(task_type@), lowercase(#[trigger] self.spec_expertise()[t])),
            decreases keywords@.len() - i,
        {
            let keyword = to_lowercase(keywords[i]);
            proof {
                assert(self.spec_expertise()[i as int] == keywords@[i as int]@);
            }
            if str_contains(lower.as_str(), keyword.as_str()) {
                return true;
            }
            i = i + 1;
        }
        false
    }
}

/// The code-analysis specialists.
#[derive(Debug, Clone, Copy, PartialEq, Eq, Structural)]
pub enum SpecialistKind {
    Style,
    Security,
    Performance,
    Structure,
    General,
}

impl SpecialistKind {
    pub open spec fn spec_agent_id(self) -> Seq<char> {
        match self {
            SpecialistKind::Style => "style-agent"@,
            SpecialistKind::Security => "security-agent"@,
            SpecialistKind::Performance => "perf-agent"@,
            SpecialistKind::Structure => "structure-agent"@,
            SpecialistKind::General => "general-analyzer"@,
        }
    }

    pub open spec fn spec_agent_name(self) -> Seq<char> {
        match self {
            SpecialistKind::Style => "Code Style Analyzer"@,
            SpecialistKind::Security => "Code Security Analyzer"@,
            SpecialistKind::Performance => "Code Performance Analyzer"@,
            SpecialistKind::Structure => "Code Structure Analyzer"@,
            SpecialistKind::General => "Code Quality Analyzer"@,
        }
    }

    /// The id the coordinator registers the specialist under.
    pub fn agent_id(&self) -> (s: &'static str)
        ensures
            s@ == self.spec_agent_id(),
    {
        match self {
            SpecialistKind::Style => "style-agent",
            SpecialistKind::Security => "security-agent",
            SpecialistKind::Performance => "perf-agent",
            SpecialistKind::Structure => "structure-agent",
            SpecialistKind::General => "general-analyzer",
        }
    }

    /// The specialist's display name.
    pub fn agent_name(&self) -> (s: &'static str)
        ensures
            s@ == self.spec_agent_name(),
    {
        match self {
            SpecialistKind::Style => "Code Style Analyzer",
            SpecialistKind::Security => "Code Security Analyzer",
            SpecialistKind::Performance => "Code Performance Analyzer",
            SpecialistKind::Structure => "Code Structure Analyzer",
            SpecialistKind::General => "Code Quality Analyzer",
        }
    }
}

impl SpecializedAgent for SpecialistKind {
    open spec fn spec_domain(&self) -> Seq<char> {
        match self {
            SpecialistKind::Style => "code_style"@,
            SpecialistKind::Security => "code_security"@,
            SpecialistKind::Performance => "code_performance"@,
            SpecialistKind::Structure => "code_structure"@,
            SpecialistKind::General => "code_analysis"@,
        }
    }

    open spec fn spec_expertise(&self) -> Seq<Seq<char>> {
        match self {
            SpecialistKind::Style => seq!["style"@, "formatting"@, "naming"@, "readability"@, "conventions"@],
            SpecialistKind::Security => seq!["security"@, "vulnerability"@, "injection"@, "authentication"@, "secrets"@],
            SpecialistKind::Performance => seq!["performance"@, "optimization"@, "speed"@, "memory"@, "efficiency"@],
            SpecialistKind::Structure => seq!["structure"@, "architecture"@, "organization"@, "design"@, "metrics"@],
            SpecialistKind::General => seq!["quality"@, "analysis"@, "review"@, "assessment"@],
        }
    }

    fn domain(&self) -> (d: &'static str) {
        match self {
            SpecialistKind::Style => "code_style",
            SpecialistKind::Security => "code_security",
            SpecialistKind::Performance => "code_performance",
            SpecialistKind::Structure => "code_structure",
            SpecialistKind::General => "code_analysis",
        }
    }

    fn expertise(&self) -> (e: Vec<&'static str>) {
        let words: Vec<&'static str> = match self {
            SpecialistKind::Style => vec!["style", "formatting", "naming", "readability", "conventions"],
            SpecialistKind::Security => vec!["security", "vulnerability", "injection", "authentication", "secrets"],
            SpecialistKind::Performance => vec!["performance", "optimization", "speed", "memory", "efficiency"],
            SpecialistKind::Structure => vec!["structure", "architecture", "organization", "design", "metrics"],
            SpecialistKind::General => vec!["quality", "analysis", "review", "assessment"],
        };
        proof {
            assert(words@.map_values(|s: &'static str| s@) =~= self.spec_expertise());
        }
        words
    }
}

/// The specialists the coordinator registers, in order.
pub open spec fn default_kinds() -> Seq<SpecialistKind> {
    seq![SpecialistKind::Style, SpecialistKind::Security, SpecialistKind::Performance,
        SpecialistKind::Structure, SpecialistKind::General]
}

/// `info` is how the assigner sees specialist `k`: its id and name, its
/// expertise as capabilities, no load and room for five subtasks.
pub open spec fn specialist_info(info: AgentInfo, k: SpecialistKind) -> bool {
    &&& info.id@ == k.spec_agent_id()
    &&& info.name@ == k.spec_agent_name()
    &&& info.capabilities@.map_values(|s: String| s@) == k.spec_expertise()
    &&& info.current_load == 0
    &&& info.max_load == 5
}

/// The assigner's view of one specialist.
pub fn specialist_agent_info(kind: SpecialistKind) -> (info: AgentInfo)
    ensures
        specialist_info(info, kind),
{
    let words = kind.expertise();
    let mut caps: Vec<String> = Vec::new();
    let mut i: usize = 0;
    while i < words.len()
        invariant
            i <= words@.len(),
            words@.map_values(|s: &'static str| s@) == kind.spec_expertise(),
            caps@.map_values(|s: String| s@) == kind.spec_expertise().take(i as int),
        decreases words@.len() - i,
    {
        let ghost pre = caps@;
        let c = String::from_str(words[i]);
        caps.push(c);
        proof {
            assert(kind.spec_expertise()[i as int] == words@[i as int]@);
            assert(caps@ == pre.push(c));
            assert(caps@.map_values(|s: String| s@) =~= pre.map_values(|s: String| s@).push(c@));
            assert(kind.spec_expertise().take(i + 1) =~= kind.spec_expertise().take(i as int).push(kind.spec_expertise()[i as int]));
            assert(caps@.map_values(|s: String| s@) =~= kind.spec_expertise().take(i + 1));
        }
        i = i + 1;
    }
    proof {
        assert(kind.spec_expertise().take(words@.len() as int) =~= kind.spec_expertise());
    }
    AgentInfo::new(kind.agent_id(), kind.agent_name()).with_capabilities(caps).with_max_load(5)
}

/// The assigner's view of the default specialists, in order.
pub fn default_specialists() -> (v: Vec<AgentInfo>)
    ensures
        v@.len() == default_kinds().len(),
        forall|i: int| 0 <= i < v@.len() ==> specialist_info(#[trigger] v@[i], default_kinds()[i]),
{
    let mut v: Vec<AgentInfo> = Vec::new();
    v.push(specialist_agent_info(SpecialistKind::Style));
    v.push(specialist_agent_info(SpecialistKind::Security));
    v.push(specialist_agent_info(SpecialistKind::Performance));
    v.push(specialist_agent_info(SpecialistKind::Structure));
    v.push(specialist_agent_info(SpecialistKind::General));
    v
}

/// The code a subtask asks to analyse: its `code` parameter, else its description.
pub open spec fn subtask_code(subtask: SubTask) -> Seq<char> {
    match subtask.parameters.text_at("code"@) {
        Some(c) => c,
        None => subtask.description@,
    }
}

/// The message a specialist's output carries.
pub open spec fn completion_message(k: SpecialistKind) -> Seq<char> {
    match k {
        SpecialistKind::Style => "Code style analysis completed"@,
        SpecialistKind::Security => "Code security analysis completed"@,
        SpecialistKind::Performance => "Code performance analysis completed"@,
        SpecialistKind::Structure => "Code structure analysis completed"@,
        SpecialistKind::General => "Executed successfully"@,
    }
}

/// `result` is what specialist `k` reports on `code`.
pub open spec fn specialist_result(k: SpecialistKind, code: Seq<char>, result: Json) -> bool {
    match k {
        SpecialistKind::Style => report_json(result, "style"@, style_score(code), "issues"@, style_findings(code),
            score_summary("Style"@, style_score(code))),
        SpecialistKind::Security => report_json(result, "security"@, security_score(code), "vulnerabilities"@,
            security_findings(code), score_summary("Security"@, security_score(code))),
        SpecialistKind::Performance => report_json(result, "performance"@, performance_score(code), "issues"@,
            performance_findings(code), score_summary("Performance"@, performance_score(code))),
        SpecialistKind::Structure => structure_json(result, structure_of(code)),
        SpecialistKind::General => result is Null,
    }
}

impl SpecialistKind {
    /// Executes a subtask: analyses its code by the specialist's domain and
    /// reports success.
    pub fn execute(&self, subtask: SubTask) -> (o: Output)
        requires
            utf8_size(subtask_code(subtask)) <= usize::MAX,
        ensures
            o.task_id == subtask.id,
            o.success,
            o.message matches Some(m) && m@ == completion_message(*self),
            specialist_result(*self, subtask_code(subtask), o.result),
    {
        if let SpecialistKind::General = self {
            return trivial_output(subtask);
        }
        proof {
            reveal_strlit("code");
        }
        let result = {
            let code: &str = match subtask.parameters.get("code") {
                Some(c) => match c.as_str() {
                    Some(s) => s,
                    None => subtask.description.as_str(),
                },
                None => subtask.description.as_str(),
            };
            match self {
                SpecialistKind::Style => analyze_style(code),
                SpecialistKind::Security => analyze_security(code),
                SpecialistKind::Performance => analyze_performance(code),
                _ => analyze_structure(code),
            }
        };
        let message = match self {
            SpecialistKind::Style => "Code style analysis completed",
            SpecialistKind::Security => "Code security analysis completed",
            SpecialistKind::Performance => "Code performance analysis completed",
            _ => "Code structure analysis completed",
        };
        Output { task_id: subtask.id, result, success: true, message: Some(String::from_str(message)) }
    }
}

/// The assignee of a subtask, or the error for a subtask without one.
pub fn assignee(subtask: &SubTask) -> (r: Result<&str, AgentError>)
    ensures
        match subtask.assigned_to {
            Some(a) => r matches Ok(s) && s@ == a@,
            None => r matches Err(AgentError::Internal { message }) && message@ == "Subtask not assigned to any agent"@,
        },
{
    match &subtask.assigned_to {
        Some(a) => Ok(a.as_str()),
        None => Err(AgentError::internal("Subtask not assigned to any agent")),
    }
}

/// The error for an assignee that is not registered.
pub fn unknown_agent(agent_id: &str) -> (e: AgentError)
    ensures
        e matches AgentError::Internal { message } && message@ == "Agent "@ + agent_id@ + " not found"@,
{
    let message = String::from_str("Agent ").concat(agent_id).concat(" not found");
    AgentError::internal(message.as_str())
}

/// `j` is `{"name": name, "depends_on": deps}`.
pub open spec fn step_json(j: Json, name: Seq<char>, deps: Seq<u64>) -> bool {
    &&& j is Object
    &&& j.text_at("name"@) == Some(name)
    &&& j.spec_get("depends_on"@) matches Some(d) && d.spec_as_array() == Some(deps.map_values(|x: u64| Json::UInt(x)))
}

/// The task the coordinator builds to analyse `code`.
pub open spec fn code_analysis_task(t: Task, code: Seq<char>) -> bool {
    &&& generated_id("code-analysis-"@, ""@, t.id@)
    &&& t.description@ == "Analyze code quality"@
    &&& t.context is Object
    &&& t.context.text_at("code"@) == Some(code)
    &&& t.context.text_at("analysis_type"@) == Some("quality"@)
    &&& t.context.spec_get("steps"@) matches Some(s) && s.spec_as_array() matches Some(steps) && steps.len() == 5
        && step_json(steps[0], "style_analysis"@, Seq::empty())
        && step_json(steps[1], "security_analysis"@, Seq::empty())
        && step_json(steps[2], "performance_analysis"@, Seq::empty())
        && step_json(steps[3], "structure_analysis"@, Seq::empty())
        && step_json(steps[4], "final_summary"@, seq![0u64, 1, 2, 3])
}

/// A step named `name` depending on the steps `deps`.
fn step(name: &str, deps: Vec<u64>) -> (j: Json)
    ensures
        step_json(j, name@, deps@),
{
    let mut items: Vec<Json> = Vec::new();
    let mut i: usize = 0;
    while i < deps.len()
        invariant
            i <= deps@.len(),
            items@ == deps@.take(i as int).map_values(|x: u64| Json::UInt(x)),
        decreases deps@.len() - i,
    {
        items.push(Json::UInt(deps[i]));
        proof {
            assert(items@ =~= deps@.take(i + 1).map_values(|x: u64| Json::UInt(x)));
        }
        i = i + 1;
    }
    proof {
        assert(deps@.take(deps@.len() as int) =~= deps@);
        reveal_strlit("name");
        reveal_strlit("depends_on");
        assert("name"@.len() != "depends_on"@.len());
    }
    Json::object2("name", Json::Str(String::from_str(name)), "depends_on", Json::Array(items))
}

/// Builds the task for analysing `code`: five steps, the last depending on
/// the other four.
pub fn build_code_analysis_task(code: &str) -> (t: Task)
    ensures
        code_analysis_task(t, code@),
{
    let u = new_uuid_string();
    let id = String::from_str("code-analysis-").concat(u.as_str());
    proof {
        reveal_strlit("");
        assert(is_hyphenated_uuid(u@));
        assert(id@ =~= "code-analysis-"@ + ""@ + u@);
    }
    let mut steps: Vec<Json> = Vec::new();
    steps.push(step("style_analysis", Vec::new()));
    steps.push(step("security_analysis", Vec::new()));
    steps.push(step("performance_analysis", Vec::new()));
    steps.push(step("structure_analysis", Vec::new()));
    steps.push(step("final_summary", vec![0u64, 1, 2, 3]));
    proof {
        reveal_strlit("code");
        reveal_strlit("analysis_type");
        reveal_strlit("steps");
        assert("code"@.len() != "analysis_type"@.len());
        assert("code"@.len() != "steps"@.len());
        assert("analysis_type"@.len() != "steps"@.len());
        assert(Seq::<u64>::empty().map_values(|x: u64| Json::UInt(x)) =~= Seq::<Json>::empty());
    }
    let context = Json::object3(
        "code", Json::Str(String::from_str(code)),
        "analysis_type", Json::Str(String::from_str("quality")),
        "steps", Json::Array(steps),
    );
    Task { id, description: String::from_str("Analyze code quality"), context }
}

/// `after` is `before` with each subtask's parameters replaced by the code
/// and the subtask's description.
pub open spec fn code_attached(before: Seq<SubTask>, after: Seq<SubTask>, code: Seq<char>) -> bool {
    &&& after.len() == before.len()
    &&& forall|i: int| 0 <= i < before.len() ==> {
        let a = #[trigger] after[i];
        &&& a == (SubTask { parameters: a.parameters, ..before[i] })
        &&& a.parameters is Object
        &&& a.parameters.text_at("code"@) == Some(code)
        &&& a.parameters.text_at("original_description"@) == Some(before[i].description@)
        &&& forall|k: Seq<char>| k != "code"@ && k != "original_description"@ ==> #[trigger] a.parameters.spec_get(k) is None
    }
}

/// Gives every subtask the code to analyse, keeping its description.
pub fn attach_code(subtasks: &mut Vec<SubTask>, code: &str)
    ensures
        code_attached(old(subtasks)@, final(subtasks)@, code@),
{
    let ghost before = subtasks@;
    let n = subtasks.len();
    let mut i: usize = 0;
    proof {
        reveal_strlit("code");
        reveal_strlit("original_description");
        assert("code"@.len() != "original_description"@.len());
    }
    while i < n
        invariant
            n == before.len(),
            subtasks@.len() == n,
            i <= n,
            "code"@ != "original_description"@,
            forall|t: int| i <= t < n ==> #[trigger] subtasks@[t] == before[t],
            code_attached(before.take(i as int), subtasks@.take(i as int), code@),
        decreases n - i,
    {
        let ghost prev = subtasks@;
        let mut st = SubTask {
            id: String::new(),
            parent_id: String::new(),
            description: String::new(),
            parameters: Json::Null,
            assigned_to: None,
        };
        subtasks.set_and_swap(i, &mut st);
        proof {
            assert(st == before[i as int]);
        }
        st.parameters = Json::object2(
            "code", Json::Str(String::from_str(code)),
            "original_description", Json::Str(st.description.clone()),
        );
        let ghost new_st = st;
        subtasks.set_and_swap(i, &mut st);
        proof {
            assert(subtasks@ =~= prev.update(i as int, new_st));
            let b = before.take(i + 1);
            let a = subtasks@.take(i + 1);
            assert forall|t: int| 0 <= t < b.len() implies {
                let x = #[trigger] a[t];
                &&& x == (SubTask { parameters: x.parameters, ..b[t] })
                &&& x.parameters is Object
                &&& x.parameters.text_at("code"@) == Some(code@)
                &&& x.parameters.text_at("original_description"@) == Some(b[t].description@)
                &&& forall|k: Seq<char>| k != "code"@ && k != "original_description"@ ==> #[trigger] x.parameters.spec_get(k) is None
            } by {
                if t < i {
                    assert(a[t] == prev.take(i as int)[t]);
                    assert(b[t] == before.take(i as int)[t]);
                } else {
                    assert(a[t] == new_st);
                    assert(b[t] == before[i as int]);
                }
            }
        }
        i = i + 1;
    }
    proof {
        assert(before.take(n as int) =~= before);
        assert(subtasks@.take(n as int) =~= subtasks@);
    }
}

} // verus!
