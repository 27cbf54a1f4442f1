use agent_framework::durabletask::{
    AgentDurableTask, DurableAgent, DurableTask, DurableTaskState, InMemoryTaskStore,
};
use agent_framework::error::AgentError;
use agent_framework::json::Json;
use agent_framework::types::{AgentResponse, Message};

fn reply(text: &str) -> AgentResponse {
    AgentResponse {
        messages: vec![Message::assistant(text)],
        text: text.to_string(),
        finish_reason: None,
        usage: None,
    }
}

#[test]
fn state_helpers_classify_terminal_vs_active() {
    assert!(DurableTaskState::Pending.is_active());
    assert!(DurableTaskState::Running.is_active());
    assert!(!DurableTaskState::Completed.is_active());
    assert!(DurableTaskState::Completed.is_terminal());
    assert!(DurableTaskState::Failed.is_terminal());
    assert!(DurableTaskState::Cancelled.is_terminal());
    assert!(!DurableTaskState::Pending.is_terminal());
}

#[test]
fn transition_updates_state_and_timestamp() {
    let mut task: AgentDurableTask = DurableTask::created("t", "2024-01-01T00:00:00Z".to_string());
    assert_eq!(task.state, DurableTaskState::Pending);
    let created = task.updated_at.clone();
    task.transition(DurableTaskState::Running);
    assert_eq!(task.state, DurableTaskState::Running);
    assert_ne!(task.updated_at, created, "updated_at should advance after transition");
    assert_eq!(task.created_at, created);
    assert_eq!(task.updated_at.len(), 20);
}

#[test]
fn in_memory_store_roundtrip() {
    let mut store = InMemoryTaskStore::new();
    assert!(store.is_empty());
    let value = Json::parse("{\"id\":\"t1\",\"state\":\"pending\"}").unwrap();
    store.save("t1", value.clone());
    assert_eq!(store.len(), 1);
    let loaded = store.load("t1").expect("must exist");
    assert_eq!(loaded.get("id").unwrap().as_str(), Some("t1"));
    assert!(loaded.same(&value));
    store.save("t1", Json::Null);
    assert_eq!(store.len(), 1);
    store.delete("missing");
    store.delete("t1");
    assert!(store.load("t1").is_none());
    assert!(store.is_empty());
}

#[test]
fn agent_run_completes_successfully() {
    let task: AgentDurableTask = DurableTask::new();
    assert_eq!(task.id.len(), 36);
    let id = task.id.clone();
    let task = DurableAgent::start_work(&id, Some(task));
    assert_eq!(task.state, DurableTaskState::Running);
    let task = DurableAgent::finish_work(task, Ok(reply("hello | world")));
    let found = Some(task);
    assert_eq!(DurableAgent::get_status(&id, &found).unwrap(), DurableTaskState::Completed);
    let response =
        DurableAgent::get_result(&id, found).unwrap().expect("completed task must carry a result");
    assert_eq!(response.text, "hello | world");
}

#[test]
fn agent_run_failure_is_persisted() {
    let task = DurableAgent::start_work("t", None);
    assert_eq!(task.id, "t");
    let task = DurableAgent::finish_work(task, Err(AgentError::provider("boom", Some(500))));
    assert_eq!(task.state, DurableTaskState::Failed);
    let err = DurableAgent::get_result("t", Some(task)).expect_err("failed task must surface an error");
    assert!(err.to_text().contains("boom"), "error message should contain inner failure");
}

#[test]
fn results_follow_the_state() {
    let task = |state: DurableTaskState| {
        let mut task: AgentDurableTask = DurableTask::with_id("t");
        task.transition(state);
        task
    };
    assert!(DurableAgent::get_result("t", Some(task(DurableTaskState::Pending))).unwrap().is_none());
    assert!(DurableAgent::get_result("t", Some(task(DurableTaskState::Running))).unwrap().is_none());
    let text = |found: Option<AgentDurableTask>| DurableAgent::get_result("t", found).unwrap_err().to_text();
    assert_eq!(text(None), "Invalid request: durable task t not found");
    assert_eq!(text(Some(task(DurableTaskState::Cancelled))), "Invalid request: durable task t was cancelled");
    assert_eq!(text(Some(task(DurableTaskState::Failed))), "Provider error: durable task failed");
    assert!(DurableAgent::get_status("t", &None).is_err());
}
