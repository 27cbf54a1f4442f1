use agent_framework::error::AgentError;
use agent_framework::hosting::{
    agent_error_to_response, AgentRunRequest, AgentRunRequestOptions, AgentServerConfig, ChatCompletionMessage,
    ChatCompletionRequest, ChatCompletionResponse, StreamStep,
};
use agent_framework::types::{
    AgentResponse, AgentResponseUpdate, ChatOptions, ChatResponseUpdate, FinishReason, Message, Role, Usage, F32,
};

fn message(role: &str, content: &str) -> ChatCompletionMessage {
    ChatCompletionMessage { role: role.to_string(), content: content.to_string() }
}

#[test]
fn chat_completion_message_converts_to_message() {
    let msg = message("system", "You are helpful.").into_message();
    assert_eq!(msg.role, Role::System);
    assert_eq!(msg.text(), "You are helpful.");
    let msg = message("user", "Hello").into_message();
    assert_eq!(msg.role, Role::User);
    let msg = message("assistant", "Hi").into_message();
    assert_eq!(msg.role, Role::Assistant);
}

#[test]
fn default_config() {
    let config = AgentServerConfig::default();
    assert_eq!(config.host, "0.0.0.0");
    assert_eq!(config.port, 8080);
}

#[test]
fn agent_run_request_options_convert() {
    let half = Some(F32 { bits: 0.5f32.to_bits() });
    let opts = AgentRunRequestOptions {
        chat_options: Some(ChatOptions { temperature: half, ..ChatOptions::default() }),
        additional_instructions: Some("Be brief.".to_string()),
    };
    let run_opts = opts.into_run_options();
    assert_eq!(run_opts.chat_options.unwrap().temperature, half);
    assert_eq!(run_opts.additional_instructions.unwrap(), "Be brief.");
}

#[test]
fn completion_requests_become_runs() {
    let request = ChatCompletionRequest {
        messages: vec![message("system", "s"), message("user", "q")],
        model: Some("gpt-4".to_string()),
        max_tokens: Some(100),
        temperature: None,
    };
    assert_eq!(request.to_messages()[1].text(), "q");
    let options = request.run_options().unwrap().chat_options.unwrap();
    assert_eq!(options.model.as_deref(), Some("gpt-4"));
    assert_eq!(options.max_tokens, Some(100));
    let bare = ChatCompletionRequest { messages: vec![], model: None, max_tokens: None, temperature: None };
    assert!(bare.run_options().is_none());
}

#[test]
fn responses_become_completions() {
    let usage = Some(Usage { input_tokens: 10, output_tokens: 5 });
    assert!(ChatCompletionResponse::accepts_usage(usage));
    assert!(!ChatCompletionResponse::accepts_usage(Some(Usage { input_tokens: u32::MAX, output_tokens: 1 })));
    let body = ChatCompletionResponse::of_response(AgentResponse {
        messages: vec![Message::assistant("Hi there!")],
        text: "Hi there!".to_string(),
        finish_reason: Some(FinishReason::MaxTokens),
        usage,
    });
    assert_eq!(body.id.len(), 36);
    assert_eq!(body.object, "chat.completion");
    assert_eq!(body.choices[0].message.content, "Hi there!");
    assert_eq!(body.choices[0].finish_reason, "length");
    assert_eq!(body.usage.unwrap().total_tokens, 15);
}

#[test]
fn errors_choose_a_status() {
    assert_eq!(agent_error_to_response(&AgentError::invalid_request("x")).0, 400);
    assert_eq!(agent_error_to_response(&AgentError::provider("x", Some(429))).0, 429);
    assert_eq!(agent_error_to_response(&AgentError::provider("x", Some(7))).0, 502);
    let (status, detail) = agent_error_to_response(&AgentError::Other("x".to_string()));
    assert_eq!(status, 500);
    assert_eq!(detail.message, "x");
}

#[test]
fn streams_are_sent_element_by_element() {
    let update = AgentResponseUpdate::from_update(ChatResponseUpdate::of_text("chunk"));
    match StreamStep::of_element(Some(Ok(update))) {
        StreamStep::Send(event) => {
            assert_eq!(event.text, Some("chunk".to_string()));
            assert!(event.finish_reason.is_none());
        }
        StreamStep::Finish => panic!("there is more"),
    }
    assert!(matches!(StreamStep::of_element(Some(Err(AgentError::Other("x".into())))), StreamStep::Finish));
    assert!(matches!(StreamStep::of_element(None), StreamStep::Finish));
}

#[test]
fn runs_keep_the_session_that_is_asked_for() {
    let request =
        AgentRunRequest { messages: vec![], session_id: Some("session-123".to_string()), options: None };
    assert_eq!(request.session().session_id, "session-123");
    let request = AgentRunRequest { messages: vec![], session_id: None, options: None };
    assert_eq!(request.session().session_id.len(), 36);
}
