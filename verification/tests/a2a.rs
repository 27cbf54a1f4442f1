use agent_framework::a2a::{
    send_result_to_agent_response, A2AAgentHandler, A2AClientConfig, A2ARemoteAgent, A2aArtifact, A2aMessage, A2aPart,
    A2aRole, A2aTask, SendMessageResult,
};
use agent_framework::error::AgentError;
use agent_framework::types::{FinishReason, Message, Role};

fn message(role: A2aRole, text: &str) -> A2aMessage {
    A2aMessage { role, parts: vec![A2aPart::Text { text: text.to_string() }] }
}

#[test]
fn message_result_extracts_text() {
    let resp = send_result_to_agent_response(&SendMessageResult::Message(message(A2aRole::Agent, "hello world")));
    assert_eq!(resp.text, "hello world");
    assert_eq!(resp.finish_reason, Some(FinishReason::Stop));
}

#[test]
fn task_result_concatenates_agent_history() {
    let task = A2aTask {
        history: vec![
            message(A2aRole::User, "question"),
            message(A2aRole::Agent, "part1 "),
            message(A2aRole::Agent, "part2"),
        ],
        artifacts: vec![],
    };
    let resp = send_result_to_agent_response(&SendMessageResult::Task(task));
    assert_eq!(resp.text, "part1 \npart2");
    assert_eq!(resp.messages.len(), 3);
}

#[test]
fn config_supports_session_token() {
    let cfg = A2AClientConfig::new("http://localhost:8080").with_session_token("tok");
    assert_eq!(cfg.server_url, "http://localhost:8080");
    assert_eq!(cfg.session_token.as_deref(), Some("tok"));
}

#[test]
fn agent_card_advertises_jsonrpc_interface() {
    let handler = A2AAgentHandler::new("id-1", Some("test-agent".to_string()), None);
    let card = handler.agent_card("https://example.com");
    assert!(card.url.ends_with("/v1/rpc"));
    assert_eq!(card.protocol_binding, "JSONRPC");
    assert_eq!(card.name, "test-agent");
    assert_eq!(card.protocol_version, a2a_rs_core::PROTOCOL_VERSION);
    let mine = A2AAgentHandler::new("id-1", None, None).with_organization("Org").agent_card("https://example.com/");
    assert_eq!(mine.organization, "Org");
    assert_eq!(mine.url, "https://example.com/v1/rpc");
}

#[test]
fn inbound_messages_become_user_messages() {
    let inbound = A2AAgentHandler::inbound(&message(A2aRole::User, "hi"));
    assert_eq!(inbound.len(), 1);
    assert_eq!(inbound[0].role, Role::User);
    assert_eq!(inbound[0].text(), "hi");
    assert!(A2AAgentHandler::failure_text(&AgentError::Other("boom".to_string())).contains("boom"));
}

#[test]
fn artifacts_stand_in_for_a_missing_history() {
    let task = A2aTask {
        history: vec![],
        artifacts: vec![A2aArtifact { parts: vec![A2aPart::Text { text: "made".to_string() }, A2aPart::Other] }],
    };
    assert_eq!(send_result_to_agent_response(&SendMessageResult::Task(task)).text, "made");
}

#[test]
fn what_is_sent_comes_back() {
    let mut agent = A2ARemoteAgent::new(A2AClientConfig::new("http://h"));
    assert_eq!(agent.id.len(), 36);
    agent.refresh_card("remote".to_string(), "far".to_string());
    assert_eq!(agent.name.as_deref(), Some("remote"));
    let sent = A2ARemoteAgent::outbound(&vec![Message::user("a"), Message::user("b")]);
    let read = A2AAgentHandler::inbound(&sent);
    assert!(read[0].text().contains('a') && read[0].text().contains('b'));
}

#[test]
fn a_remote_response_is_streamed_at_once() {
    let handler = A2AAgentHandler::new("a1", None, None).with_organization_url("https://example.org");
    assert_eq!(handler.organization_url, "https://example.org");
    let response = send_result_to_agent_response(&SendMessageResult::Message(message(A2aRole::Agent, "hi")));
    let update = A2ARemoteAgent::stream_update(&response);
    assert_eq!(update.text, Some("hi".to_string()));
    assert_eq!(update.inner.text, Some("hi".to_string()));
    assert!(update.inner.tool_call.is_none());
}
