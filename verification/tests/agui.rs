use agent_framework::agui::{AguiEvent, AguiMessage, AguiPhase, AguiReport, AguiRun, RunAgentInput};
use agent_framework::devui::{
    build_index_html, convert_messages, DevServerConfig, ErrorResponse, RunRequestMessage, RunResponse,
};
use agent_framework::error::AgentError;
use agent_framework::json::Json;
use agent_framework::types::{AgentResponse, AgentResponseUpdate, ChatResponseUpdate, Content, Message, Role};

fn run() -> AguiRun {
    AguiRun { thread_id: "th".to_string(), run_id: "r".to_string(), message_id: "m".to_string() }
}

#[test]
fn a_response_becomes_a_framed_list_of_events() {
    let response = AgentResponse {
        messages: vec![Message::bare(
            Role::Assistant,
            vec![Content::tool_call("c1", "echo", Json::parse("{\"a\":1}").unwrap())],
        )],
        text: "hi".to_string(),
        finish_reason: None,
        usage: None,
    };
    let names: Vec<&str> = run().response_events(&response).iter().map(|e| e.event_name()).collect();
    assert_eq!(
        names,
        vec![
            "TEXT_MESSAGE_START",
            "TEXT_MESSAGE_CONTENT",
            "TOOL_CALL_START",
            "TOOL_CALL_ARGS",
            "TOOL_CALL_END",
            "TEXT_MESSAGE_END"
        ]
    );
    assert!(matches!(run().started(), AguiEvent::RunStarted { thread_id, run_id } if thread_id == "th" && run_id == "r"));
    assert_eq!(run().finished().event_name(), "RUN_FINISHED");
    assert!(run().on_update(None).is_none());
}

fn names(events: &[AguiEvent]) -> Vec<&'static str> {
    events.iter().map(|e| e.event_name()).collect()
}

#[test]
fn a_streamed_run_is_reported_with_its_texts() {
    let (mut report, started) = AguiReport::start(run());
    let mut events = vec![started];
    events.extend(report.on_stream(true));
    let text = AgentResponseUpdate::from_update(ChatResponseUpdate::of_text("hel"));
    let silent = AgentResponseUpdate::from_update(ChatResponseUpdate::of_end(None, None));
    events.extend(report.on_element(Ok(text)));
    events.extend(report.on_element(Err(AgentError::Other("lost".to_string()))));
    events.extend(report.on_element(Ok(silent)));
    assert_eq!(report.phase, AguiPhase::Streaming);
    events.extend(report.on_end());
    assert_eq!(report.phase, AguiPhase::Ended);
    assert_eq!(
        names(&events),
        vec!["RUN_STARTED", "TEXT_MESSAGE_START", "TEXT_MESSAGE_CONTENT", "TEXT_MESSAGE_END", "RUN_FINISHED"]
    );
    assert!(matches!(&events[2], AguiEvent::TextMessageContent { message_id, delta } if message_id == "m" && delta == "hel"));
}

#[test]
fn a_failed_run_is_only_framed() {
    let (mut report, _) = AguiReport::start(run());
    assert!(report.on_stream(false).is_empty());
    assert_eq!(report.phase, AguiPhase::Running);
    assert_eq!(names(&report.on_outcome(Err(AgentError::Other("x".to_string())))), vec!["RUN_FINISHED"]);
    let (mut report, _) = AguiReport::start(run());
    report.on_stream(false);
    let response =
        AgentResponse { messages: vec![], text: String::new(), finish_reason: None, usage: None };
    assert_eq!(
        names(&report.on_outcome(Ok(response))),
        vec!["TEXT_MESSAGE_START", "TEXT_MESSAGE_END", "RUN_FINISHED"]
    );
}

#[test]
fn a_run_without_a_thread_gets_one() {
    assert_eq!(AguiRun::new(None).thread_id.len(), 36);
    assert_eq!(AguiRun::new(Some("mine".to_string())).thread_id, "mine");
    let input = RunAgentInput {
        thread_id: None,
        messages: vec![AguiMessage { role: "assistant".to_string(), content: "a".to_string() }],
        tools: vec![],
    };
    assert_eq!(input.to_messages()[0].role, Role::Assistant);
}

#[test]
fn the_page_carries_its_title_twice() {
    let page = build_index_html("My Agents");
    assert!(page.starts_with("<!DOCTYPE html>"));
    assert_eq!(page.matches("My Agents").count(), 2);
    assert_eq!(DevServerConfig::default().host, "127.0.0.1");
}

#[test]
fn browser_requests_are_converted() {
    let messages =
        convert_messages(&vec![RunRequestMessage { role: "user".to_string(), content: "q".to_string() }]);
    assert_eq!(messages[0].text(), "q");
    let body = RunResponse::of_response(&AgentResponse {
        messages: vec![Message::assistant("a")],
        text: "a".to_string(),
        finish_reason: None,
        usage: None,
    });
    assert_eq!(body.messages[0].role, "assistant");
    assert_eq!(body.text, "a");
    let (status, body) = ErrorResponse::not_found("x");
    assert_eq!(status, 404);
    assert!(body.error.contains('x'));
    assert_eq!(ErrorResponse::run_failed(&AgentError::Other("b".to_string())).0, 500);
}
