use agent_collaboration::coordinator::result::{fail_fast_outputs, partial_outcome, subtask_result};
use agent_collaboration::coordinator::setup::{
    assignee, attach_code, build_code_analysis_task, default_specialists, unknown_agent,
};
use agent_collaboration::coordinator::summary::{generate_recommendations, generate_summary, summary_fits};
use agent_collaboration::{
    AgentError, CoordinatorConfig, HybridStrategy, Json, Output, ParallelExecutionResult, SpecialistKind,
    SpecializedAgent, SubTask, SubtaskResult, TaskAnalyzer,
};

fn obj(entries: Vec<(&str, Json)>) -> Json {
    Json::Object(entries.into_iter().map(|(k, v)| (k.to_string(), v)).collect())
}

fn s(t: &str) -> Json {
    Json::Str(t.to_string())
}

fn output(id: &str, result: Json) -> Output {
    Output { task_id: id.to_string(), result, success: true, message: None }
}

fn subtask(id: &str, assigned: Option<&str>) -> SubTask {
    SubTask {
        id: id.to_string(),
        parent_id: "p".to_string(),
        description: "d".to_string(),
        parameters: Json::Null,
        assigned_to: assigned.map(|a| a.to_string()),
    }
}

#[test]
fn config_defaults() {
    let c = CoordinatorConfig::default();
    assert!(!c.use_llm_for_decomposition);
    assert!(c.parallel_execution);
    assert_eq!(c.max_agents, 10);
    assert_eq!(c.max_concurrent_subtasks, 4);
    assert!(!c.fail_fast);
}

#[test]
fn results_are_gathered_with_partial_failures() {
    let results = vec![
        SubtaskResult::success("s1", "a1", output("s1", Json::Null)),
        SubtaskResult::failure("s2", "a2", "boom".to_string()),
        SubtaskResult::success("s3", "a1", output("s3", Json::Bool(true))),
    ];
    let r = ParallelExecutionResult::from_results(results);
    assert_eq!(r.success_count, 2);
    assert_eq!(r.failure_count, 1);
    assert_eq!(r.total, 3);
    assert_eq!(r.successful.len(), 2);
    assert!(r.is_partial_success());
    assert!(!r.is_complete_success());
    assert!(!r.is_complete_failure());
    assert_eq!(r.failed[0].error_message.as_deref(), Some("boom"));
    assert!(r.failed[0].is_failure());
}

#[test]
fn recording_outcomes_replaces_outputs_by_id() {
    let mut r = ParallelExecutionResult::with_capacity(3);
    r.record_outcome(&subtask("s1", Some("a1")), Ok(output("s1", Json::UInt(1))));
    r.record_outcome(&subtask("s1", Some("a1")), Ok(output("s1", Json::UInt(2))));
    r.record_outcome(&subtask("s2", None), Err(AgentError::internal("bad")));
    assert_eq!(r.successful.len(), 1);
    assert_eq!(r.successful[0].1.result.as_u64(), Some(2));
    assert_eq!(r.success_count, 2);
    assert_eq!(r.failed[0].agent_id, "");
    assert_eq!(r.failed[0].error_message.as_deref(), Some("Internal error: bad"));
    let ok = partial_outcome(r).unwrap();
    assert_eq!(ok.len(), 1);
}

#[test]
fn complete_failure_reports_the_first_error() {
    let mut r = ParallelExecutionResult::with_capacity(2);
    r.add_failure(SubtaskResult::failure("s1", "a", "first".to_string()));
    r.add_failure(SubtaskResult::failure("s2", "a", "second".to_string()));
    assert!(r.is_complete_failure());
    assert_eq!(partial_outcome(r).unwrap_err().message(), "Internal error: first");
    let r = ParallelExecutionResult::with_capacity(1);
    assert_eq!(partial_outcome(r).unwrap_err().message(), "Internal error: All subtasks failed");
    let empty = ParallelExecutionResult::new();
    assert!(partial_outcome(empty).unwrap().is_empty());
}

#[test]
fn fail_fast_stops_at_the_first_error() {
    let subtasks = vec![subtask("s1", Some("a")), subtask("s2", Some("a")), subtask("s3", Some("a"))];
    let outs = fail_fast_outputs(&subtasks, vec![Ok(output("s1", Json::Null)), Ok(output("s2", Json::Null))], true).unwrap();
    let keys: Vec<&str> = outs.iter().map(|(k, _)| k.as_str()).collect();
    assert_eq!(keys, vec!["subtask_0", "subtask_1"]);
    let outs = fail_fast_outputs(&subtasks, vec![Ok(output("s1", Json::Null))], false).unwrap();
    assert_eq!(outs[0].0, "s1");
    let err = fail_fast_outputs(
        &subtasks,
        vec![Ok(output("s1", Json::Null)), Err(AgentError::internal("x")), Err(AgentError::internal("y"))],
        false,
    )
    .unwrap_err();
    assert_eq!(err.message(), "Internal error: x");
    let r = subtask_result(&subtask("s9", Some("agent-7")), Ok(output("s9", Json::Null)));
    assert!(r.is_success());
    assert_eq!(r.agent_id, "agent-7");
}

#[test]
fn summary_averages_scores_and_lists_issues() {
    let style = obj(vec![
        ("domain", s("style")),
        ("score", Json::UInt(80)),
        ("issues", Json::Array(vec![obj(vec![("type", s("mixed_indentation"))])])),
    ]);
    let security = obj(vec![
        ("domain", s("security")),
        ("score", Json::UInt(41)),
        ("vulnerabilities", Json::Array(vec![obj(vec![("type", s("hardcoded_secret")), ("severity", s("critical"))])])),
    ]);
    let summary = generate_summary(vec![
        ("style-agent".to_string(), output("s1", style)),
        ("security-agent".to_string(), output("s2", security)),
        ("general".to_string(), output("s3", Json::Null)),
    ]);
    assert_eq!(summary.get("overall_score").unwrap().as_u64(), Some(60));
    let scores = summary.get("domain_scores").unwrap();
    assert_eq!(scores.get("style").unwrap().as_u64(), Some(80));
    assert_eq!(scores.get("security").unwrap().as_u64(), Some(41));
    assert_eq!(summary.get("total_issues").unwrap().as_u64(), Some(2));
    assert_eq!(summary.get("agent_count").unwrap().as_u64(), Some(3));
    let issues = summary.get("issues").unwrap().as_array().unwrap();
    assert_eq!(issues[0].get("agent").unwrap().as_str(), Some("style-agent"));
    assert!(issues[0].get("issue").is_some());
    assert!(issues[1].get("vulnerability").is_some());
    let recs: Vec<&str> =
        summary.get("recommendations").unwrap().as_array().unwrap().iter().map(|r| r.as_str().unwrap()).collect();
    assert_eq!(recs, vec!["代码质量一般，建议针对性优化", "发现严重安全问题，需要立即修复"]);
}

#[test]
fn recommendations_follow_the_score() {
    assert_eq!(generate_recommendations(10, &vec![]), vec!["代码质量需要重点关注，建议进行全面重构".to_string()]);
    assert_eq!(generate_recommendations(89, &vec![]), vec!["代码质量良好，可以进一步优化细节".to_string()]);
    assert_eq!(generate_recommendations(95, &vec![]), vec!["代码质量优秀，继续保持".to_string()]);
    let empty = generate_summary(vec![]);
    assert_eq!(empty.get("overall_score").unwrap().as_u64(), Some(0));
}

#[test]
fn specialists_are_registered_with_their_expertise() {
    let infos = default_specialists();
    let ids: Vec<&str> = infos.iter().map(|a| a.id.as_str()).collect();
    assert_eq!(ids, vec!["style-agent", "security-agent", "perf-agent", "structure-agent", "general-analyzer"]);
    assert_eq!(infos[0].name, "Code Style Analyzer");
    assert_eq!(infos[1].capabilities[4], "secrets");
    assert!(infos.iter().all(|a| a.max_load == 5));
    assert_eq!(SpecialistKind::Performance.domain(), "code_performance");
    assert!(SpecialistKind::Security.can_handle("Find SQL Injection bugs"));
    assert!(!SpecialistKind::Style.can_handle("benchmark speed"));
    assert!(SpecialistKind::Performance.can_handle("benchmark SPEED"));
}

#[test]
fn specialists_analyse_the_code_parameter() {
    let mut st = subtask("s1", Some("style-agent"));
    st.parameters = obj(vec![("code", s("\tx\n    y"))]);
    let out = SpecialistKind::Style.execute(st);
    assert!(out.success);
    assert_eq!(out.message.as_deref(), Some("Code style analysis completed"));
    assert_eq!(out.result.get("score").unwrap().as_u64(), Some(90));
    let out = SpecialistKind::General.execute(subtask("s2", None));
    assert!(matches!(out.result, Json::Null));
    assert_eq!(out.message.as_deref(), Some("Executed successfully"));
}

#[test]
fn code_analysis_task_and_decomposition() {
    let task = build_code_analysis_task("fn f() {}");
    assert!(task.id.starts_with("code-analysis-"));
    assert_eq!(task.description, "Analyze code quality");
    let analysis = TaskAnalyzer::analyze(&task).unwrap();
    assert_eq!(analysis.estimated_steps, 5);
    assert_eq!(analysis.dependencies.len(), 4);
    let result = HybridStrategy::new().decompose(&task, &default_specialists()).unwrap();
    assert_eq!(result.subtasks.len(), 5);
    assert!(result.subtasks.iter().all(|s| s.assigned_to.is_some()));
    let mut subtasks = result.subtasks;
    attach_code(&mut subtasks, "fn f() {}");
    for st in &subtasks {
        assert_eq!(st.parameters.get("code").unwrap().as_str(), Some("fn f() {}"));
        assert_eq!(st.parameters.get("original_description").unwrap().as_str(), Some(st.description.as_str()));
        assert!(st.parameters.get("stage_id").is_none());
    }
}

#[test]
fn assignees_are_checked() {
    assert_eq!(assignee(&subtask("s", Some("a1"))).unwrap(), "a1");
    assert_eq!(assignee(&subtask("s", None)).unwrap_err().message(), "Internal error: Subtask not assigned to any agent");
    assert_eq!(unknown_agent("x").message(), "Internal error: Agent x not found");
}

#[test]
fn summaries_fit_unless_the_scores_overflow() {
    let scored = |d: &str, n: u64| obj(vec![("domain", s(d)), ("score", Json::UInt(n))]);
    let small = vec![
        ("a".to_string(), output("a", scored("style", 80))),
        ("b".to_string(), output("b", scored("security", 90))),
    ];
    assert!(summary_fits(&small));
    assert!(summary_fits(&vec![]));
    let big = vec![
        ("a".to_string(), output("a", scored("style", 4_000_000_000))),
        ("b".to_string(), output("b", scored("security", 4_000_000_000))),
    ];
    assert!(!summary_fits(&big));
    // A later score for the same domain replaces the earlier one.
    let replaced = vec![
        ("a".to_string(), output("a", scored("style", 4_000_000_000))),
        ("b".to_string(), output("b", scored("style", 4_000_000_000))),
    ];
    assert!(summary_fits(&replaced));
}
