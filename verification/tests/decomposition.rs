use agent_collaboration::{ExecutionPlan, ExecutionStage};
use agent_collaboration::{
    AgentAssigner, AgentInfo, AssignmentStrategy, Complexity, Dependency, DependencyType, HybridStrategy, Json,
    ParallelStrategy, SequentialStrategy, StrategyType, SubTask, Task, TaskAnalyzer,
};
use std::collections::HashMap;

fn obj(entries: Vec<(&str, Json)>) -> Json {
    Json::Object(entries.into_iter().map(|(k, v)| (k.to_string(), v)).collect())
}

fn step(name: &str, deps: Option<Vec<u64>>) -> Json {
    let mut e = vec![("name", Json::Str(name.to_string()))];
    if let Some(d) = deps {
        e.push(("depends_on", Json::Array(d.into_iter().map(Json::UInt).collect())));
    }
    obj(e)
}

fn task(id: &str, description: &str, steps: Vec<Json>) -> Task {
    Task {
        id: id.to_string(),
        description: description.to_string(),
        context: obj(vec![("steps", Json::Array(steps))]),
    }
}

fn subtask(id: &str, description: &str, parameters: Json) -> SubTask {
    SubTask {
        id: id.to_string(),
        parent_id: "task-1".to_string(),
        description: description.to_string(),
        parameters,
        assigned_to: None,
    }
}

#[test]
fn test_analyze_simple_task() {
    let task = Task { id: "task-1".to_string(), description: "Simple task".to_string(), context: obj(vec![]) };

    let analysis = TaskAnalyzer::analyze(&task).unwrap();
    assert_eq!(analysis.complexity, Complexity::Simple);
    assert_eq!(analysis.estimated_steps, 1);
}

#[test]
fn test_analyze_task_with_steps() {
    let task = task(
        "task-2",
        "Multi-step task",
        vec![step("step1", None), step("step2", Some(vec![0])), step("step3", Some(vec![1]))],
    );

    let analysis = TaskAnalyzer::analyze(&task).unwrap();
    assert_eq!(analysis.estimated_steps, 3);
    assert_eq!(analysis.dependencies.len(), 2);
}

#[test]
fn test_dependency_creation() {
    let dep = Dependency::new(0, 1, DependencyType::Data).with_description("Need output from step 0");

    assert_eq!(dep.from_step, 0);
    assert_eq!(dep.to_step, 1);
    assert!(dep.description.is_some());
}

fn worker_agents() -> Vec<AgentInfo> {
    vec![
        AgentInfo::new("agent-1", "Worker 1").with_capabilities(vec!["data-processing".to_string()]).with_max_load(5),
        AgentInfo::new("agent-2", "Worker 2").with_capabilities(vec!["analysis".to_string()]).with_max_load(5),
    ]
}

fn worker_subtasks() -> Vec<SubTask> {
    vec![subtask("sub-1", "data-processing step", Json::Null), subtask("sub-2", "analysis step", Json::Null)]
}

#[test]
fn test_agent_info() {
    let agent = AgentInfo::new("a1", "Test Agent").with_capabilities(vec!["cap1".to_string()]).with_max_load(5);

    assert!(agent.has_capability("cap1"));
    assert!(!agent.has_capability("cap2"));
    assert!(agent.is_available());
    assert_eq!(agent.available_capacity(), 5);
}

#[test]
fn test_round_robin_assignment() {
    let assigner = AgentAssigner::new().with_strategy(AssignmentStrategy::RoundRobin);
    let agents = worker_agents();
    let mut subtasks = worker_subtasks();

    assigner.assign(&mut subtasks, &agents).unwrap();

    assert_eq!(subtasks[0].assigned_to, Some("agent-1".to_string()));
    assert_eq!(subtasks[1].assigned_to, Some("agent-2".to_string()));
}

#[test]
fn test_load_balanced_assignment() {
    let assigner = AgentAssigner::new().with_strategy(AssignmentStrategy::LoadBalanced);
    let agents = worker_agents();
    let mut subtasks = worker_subtasks();

    assigner.assign(&mut subtasks, &agents).unwrap();

    assert!(subtasks[0].assigned_to.is_some());
    assert!(subtasks[1].assigned_to.is_some());
}

#[test]
fn capability_assignment_follows_descriptions() {
    let assigner = AgentAssigner::new().with_strategy(AssignmentStrategy::CapabilityBased);
    let agents = worker_agents();
    let mut subtasks = worker_subtasks();
    assigner.assign(&mut subtasks, &agents).unwrap();
    assert_eq!(subtasks[0].assigned_to.as_deref(), Some("agent-1"));
    assert_eq!(subtasks[1].assigned_to.as_deref(), Some("agent-2"));
}

#[test]
fn assignment_without_agents_fails() {
    let assigner = AgentAssigner::new();
    let mut subtasks = worker_subtasks();
    let err = assigner.assign(&mut subtasks, &[]).unwrap_err();
    assert_eq!(err.message(), "Internal error: No agents available for assignment");
    assert!(subtasks.iter().all(|s| s.assigned_to.is_none()));
}

fn three_steps() -> Task {
    task("test-task", "Test sequential task", vec![step("step1", None), step("step2", None), step("step3", None)])
}

#[test]
fn test_sequential_analysis() {
    let strategy = SequentialStrategy::new();
    let analysis = strategy.analyze(&three_steps()).unwrap();
    assert_eq!(analysis.suggested_strategy, StrategyType::Sequential);
    assert!(!analysis.can_parallelize);
}

#[test]
fn test_sequential_generate() {
    let strategy = SequentialStrategy::new();
    let analysis = strategy.analyze(&three_steps()).unwrap();
    let subtasks = strategy.generate(&analysis).unwrap();

    assert_eq!(subtasks.len(), 3);
    for (i, subtask) in subtasks.iter().enumerate() {
        let order = subtask.parameters.get("execution_order").unwrap().as_u64().unwrap();
        assert_eq!(order as usize, i);
        assert_eq!(subtask.description, format!("Step {} of 3", i + 1));
        assert!(subtask.id.starts_with("test-task_seq_"));
        assert_eq!(subtask.id.len(), "test-task_seq_".len() + 36);
    }
}

#[test]
fn test_sequential_assign() {
    let strategy = SequentialStrategy::new();
    let agents = vec![AgentInfo::new("agent-1", "Worker 1"), AgentInfo::new("agent-2", "Worker 2")];

    let result = strategy.decompose(&three_steps(), &agents).unwrap();

    assert_eq!(result.subtasks.len(), 3);
    assert_eq!(result.strategy_used, StrategyType::Sequential);
    for subtask in &result.subtasks {
        assert!(subtask.assigned_to.is_some());
    }
}

fn four_tasks() -> Task {
    task(
        "parallel-task",
        "Test parallel task",
        vec![step("task1", None), step("task2", None), step("task3", None), step("task4", None)],
    )
}

#[test]
fn test_parallel_analysis() {
    let strategy = ParallelStrategy::new();
    let analysis = strategy.analyze(&four_tasks()).unwrap();
    assert_eq!(analysis.suggested_strategy, StrategyType::Parallel);
    assert!(analysis.can_parallelize);
    assert!(analysis.dependencies.is_empty());
    assert_eq!(analysis.estimated_duration, Some(std::time::Duration::from_secs(1)));
    let three = ParallelStrategy::new().with_max_parallel(3);
    assert_eq!(three.max_parallel(), 3);
    assert_eq!(ParallelStrategy::new().max_parallel(), 10);
    let analysis = three.analyze(&four_tasks()).unwrap();
    assert_eq!(analysis.estimated_duration, Some(std::time::Duration::from_secs(2)));
}

#[test]
fn test_parallel_generate() {
    let strategy = ParallelStrategy::new();
    let analysis = strategy.analyze(&four_tasks()).unwrap();
    let subtasks = strategy.generate(&analysis).unwrap();

    assert_eq!(subtasks.len(), 4);
    for subtask in &subtasks {
        assert!(subtask.parameters.get("can_run_in_parallel").unwrap().as_bool().unwrap());
    }
    assert_eq!(subtasks[3].description, "Parallel task 4");
}

#[test]
fn test_parallel_assign_load_balanced() {
    let strategy = ParallelStrategy::new().with_max_parallel(2);
    let agents = vec![
        AgentInfo::new("agent-1", "Worker 1").with_max_load(5),
        AgentInfo::new("agent-2", "Worker 2").with_max_load(5),
        AgentInfo::new("agent-3", "Worker 3").with_max_load(5),
    ];

    let result = strategy.decompose(&four_tasks(), &agents).unwrap();

    assert_eq!(result.subtasks.len(), 4);
    assert_eq!(result.strategy_used, StrategyType::Parallel);

    let mut load: HashMap<String, usize> = HashMap::new();
    for subtask in &result.subtasks {
        if let Some(ref agent_id) = subtask.assigned_to {
            *load.entry(agent_id.clone()).or_insert(0) += 1;
        }
    }
    let loads: Vec<usize> = load.values().cloned().collect();
    let max_load = *loads.iter().max().unwrap_or(&0);
    let min_load = *loads.iter().min().unwrap_or(&0);
    assert!(max_load - min_load <= 1, "Load should be balanced");
}

fn diamond() -> Task {
    task(
        "hybrid-task",
        "Test hybrid task",
        vec![
            step("step1", None),
            step("step2", Some(vec![0])),
            step("step3", Some(vec![0])),
            step("step4", Some(vec![1, 2])),
        ],
    )
}

fn hybrid_agents() -> Vec<AgentInfo> {
    vec![
        AgentInfo::new("agent-1", "Worker 1").with_max_load(5),
        AgentInfo::new("agent-2", "Worker 2").with_max_load(5),
    ]
}

#[test]
fn test_hybrid_analysis() {
    let strategy = HybridStrategy::new();
    let analysis = strategy.analyze(&diamond()).unwrap();
    assert_eq!(analysis.suggested_strategy, StrategyType::Hybrid);
    assert_eq!(analysis.estimated_steps, 4);
    assert_eq!(analysis.dependencies.len(), 4);
    assert!(analysis.can_parallelize);
    assert_eq!(analysis.estimated_duration, Some(std::time::Duration::from_secs(0)));
}

#[test]
fn test_hybrid_generate() {
    let strategy = HybridStrategy::new();
    let analysis = strategy.analyze(&diamond()).unwrap();
    let subtasks = strategy.generate(&analysis).unwrap();

    assert_eq!(subtasks.len(), 4);
    let deps_of = |i: usize| -> Vec<u64> {
        subtasks[i].parameters.get("dependencies").unwrap().as_array().unwrap().iter().map(|d| d.as_u64().unwrap()).collect()
    };
    assert!(deps_of(1).contains(&0));
    assert!(deps_of(2).contains(&0));
    assert_eq!(deps_of(3), vec![1, 2]);
    assert_eq!(subtasks[3].parameters.get("dependency_count").unwrap().as_u64(), Some(2));
}

#[test]
fn test_execution_plan_building() {
    let strategy = HybridStrategy::new();
    let subtasks = vec![
        subtask("s1", "", obj(vec![("dependencies", Json::Array(vec![]))])),
        subtask("s2", "", obj(vec![("dependencies", Json::Array(vec![Json::UInt(0)]))])),
        subtask("s3", "", obj(vec![("dependencies", Json::Array(vec![Json::UInt(0)]))])),
    ];
    let deps = vec![Dependency::new(0, 1, DependencyType::Data), Dependency::new(0, 2, DependencyType::Data)];

    let plan = strategy.build_execution_plan(&subtasks, &deps);

    assert_eq!(plan.total_stages, 2);
    assert_eq!(plan.stages[0].subtask_ids.len(), 1);
    assert_eq!(plan.stages[1].subtask_ids.len(), 2);
    assert!(plan.stages[1].can_parallelize);
    assert_eq!(plan.stages[1].depends_on_stages, vec![0]);
    assert_eq!(plan.critical_path_length, 2);
}

#[test]
fn test_hybrid_full_decompose() {
    let strategy = HybridStrategy::new();
    let result = strategy.decompose(&diamond(), &hybrid_agents()).unwrap();

    assert_eq!(result.subtasks.len(), 4);
    assert_eq!(result.strategy_used, StrategyType::Hybrid);
    for subtask in &result.subtasks {
        assert!(subtask.parameters.get("stage_id").is_some());
    }
    let stages: Vec<u64> =
        result.subtasks.iter().map(|s| s.parameters.get("stage_id").unwrap().as_u64().unwrap()).collect();
    assert_eq!(stages, vec![0, 1, 1, 2]);
}

#[test]
fn cycles_leave_subtasks_out_of_the_plan() {
    let strategy = HybridStrategy::new();
    let subtasks = vec![subtask("a", "", Json::Null), subtask("b", "", Json::Null), subtask("c", "", Json::Null)];
    let deps = vec![Dependency::new(1, 2, DependencyType::Data), Dependency::new(2, 1, DependencyType::Data)];
    let plan = strategy.build_execution_plan(&subtasks, &deps);
    assert_eq!(plan.total_stages, 1);
    assert_eq!(plan.stages[0].subtask_ids, vec!["a".to_string()]);
}

#[test]
fn plans_count_the_stages_they_hold() {
    let mut plan = ExecutionPlan::new();
    plan.add_stage(ExecutionStage::new(0));
    plan.add_stage(ExecutionStage::new(1));
    assert_eq!(plan.total_stages, 2);
    assert_eq!(plan.stages.len(), 2);
    assert_eq!(plan.stages[1].stage_id, 1);
    assert_eq!(plan.critical_path_length, 0);
}

#[test]
fn decomposition_fails_only_without_room() {
    let small = vec![AgentInfo::new("a", "A").with_max_load(2), AgentInfo::new("b", "B").with_max_load(1)];
    let roomy = vec![AgentInfo::new("a", "A").with_max_load(4)];
    // Four subtasks do not fit in three places.
    assert!(SequentialStrategy::new().decompose(&four_tasks(), &small).is_err());
    assert!(ParallelStrategy::new().decompose(&four_tasks(), &small).is_err());
    assert!(HybridStrategy::new().decompose(&four_tasks(), &small).is_err());
    assert!(SequentialStrategy::new().decompose(&four_tasks(), &roomy).is_ok());
    assert!(ParallelStrategy::new().decompose(&four_tasks(), &roomy).is_ok());
    assert!(HybridStrategy::new().decompose(&four_tasks(), &roomy).is_ok());
    assert!(HybridStrategy::new().decompose(&four_tasks(), &[]).is_err());
    let rr = SequentialStrategy::new().with_assignment_strategy(AssignmentStrategy::RoundRobin);
    assert!(rr.decompose(&four_tasks(), &small).is_ok());
}
