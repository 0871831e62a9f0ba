use agent_collaboration::agent::lifecycle::{single_subtask, trivial_output, understand_input};
use agent_collaboration::{EventPayload, Json, Message, ResponsePayload, TaskPayload};

#[test]
fn messages_know_their_recipient() {
    let m = Message::task(
        "a",
        "b",
        TaskPayload { task_id: "t".to_string(), description: "d".to_string(), parameters: Json::Null },
    );
    assert!(m.id().starts_with("msg_"));
    assert!(m.id()[4..].chars().all(|c| c.is_ascii_digit()));
    assert!(m.is_for("b"));
    assert!(!m.is_for("a"));
    let r = Message::response(
        "c",
        ResponsePayload { request_id: "q".to_string(), result: Json::Null, success: true, error: None },
    );
    assert!(r.is_for("c"));
    let e = Message::event("a", EventPayload { event_type: "ping".to_string(), data: Json::Null });
    assert!(e.is_for("anyone"));
}

#[test]
fn default_agent_steps() {
    let task = understand_input("Do something");
    assert!(task.id.starts_with("task_"));
    assert_eq!(task.id.len(), 5 + 36);
    assert_eq!(task.description, "Do something");
    let id = task.id.clone();
    let subtasks = single_subtask(task);
    assert_eq!(subtasks.len(), 1);
    assert_eq!(subtasks[0].id, format!("sub_{}", id));
    let out = trivial_output(subtasks.into_iter().next().unwrap());
    assert!(out.success);
    assert_eq!(out.task_id, format!("sub_{}", id));
    assert_eq!(out.message.as_deref(), Some("Executed successfully"));
}
