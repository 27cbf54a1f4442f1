use agent_framework::completions::{CallTable, ChunkChoice, CompletionChunk, CompletionResponse};
use agent_framework::github_copilot::{
    copilot_response_to_chat_response, handle_copilot_chunk, message_to_copilot, GitHubCopilotChatClient, GitHubCopilotConfig,
};
use agent_framework::json::Json;
use agent_framework::secret::SecretString;
use agent_framework::tools::ToolDefinition;
use agent_framework::types::{ChatOptions, Content, Message, Role, F32};

fn defaults() -> GitHubCopilotConfig {
    GitHubCopilotConfig::new("t")
}

fn test_client() -> GitHubCopilotChatClient {
    GitHubCopilotChatClient::new(GitHubCopilotConfig {
        github_token: SecretString::new("ghp_test_token_value"),
        model: "gpt-4o".to_string(),
        editor_version: defaults().editor_version,
        integration_id: defaults().integration_id,
        base_url: "https://example.invalid".to_string(),
        max_tokens: 256,
        request_timeout: 5_000,
        connect_timeout: 1_000,
    })
}

#[test]
fn from_env_reads_variables() {
    let config = GitHubCopilotConfig::from_env(Some("ghp_fromenv".to_string()), Some("o3-mini".to_string()))
        .ok()
        .expect("env config");
    assert_eq!(config.github_token.expose(), "ghp_fromenv");
    assert_eq!(config.model, "o3-mini");
    assert_eq!(config.editor_version, defaults().editor_version);
    assert_eq!(config.integration_id, defaults().integration_id);
    let error = GitHubCopilotConfig::from_env(None, None).err().unwrap();
    assert!(error.to_text().contains("GITHUB_TOKEN"));
}

#[test]
fn request_body_includes_messages_and_tools() {
    let client = test_client();
    let options = ChatOptions {
        temperature: Some(F32 { bits: 0.2f32.to_bits() }),
        tools: vec![ToolDefinition::no_params("ping", "Ping the server").unwrap()],
        ..ChatOptions::default()
    };
    let body = client
        .build_request_body(&vec![Message::system("you are helpful"), Message::user("hello")], Some(&options));
    assert_eq!(body.model, "gpt-4o");
    assert_eq!(body.messages.len(), 2);
    assert_eq!(body.messages[0].role, "system");
    assert_eq!(body.messages[1].role, "user");
    assert_eq!(body.messages[1].content.as_ref().and_then(|v| v.as_str()), Some("hello"));
    let tools = body.tools.expect("tools present");
    assert_eq!(tools.len(), 1);
    assert_eq!(tools[0].function.name, "ping");
    assert_eq!(body.temperature, Some(F32 { bits: 0.2f32.to_bits() }));
    assert!(body.stream.is_none());
}

#[test]
fn build_headers_sets_copilot_identifiers() {
    let client = test_client();
    let headers = client.build_headers().expect("headers built");
    let get = |name: &str| headers.iter().find(|h| h.name == name).unwrap();
    assert_eq!(get("content-type").value, "application/json");
    assert_eq!(get("editor-version").value, defaults().editor_version);
    assert_eq!(get("copilot-integration-id").value, defaults().integration_id);
    let auth = get("authorization");
    assert!(auth.sensitive, "auth header should be marked sensitive");
    assert!(auth.value.starts_with("Bearer "));
}

#[test]
fn tool_role_message_uses_tool_call_id() {
    let msg = Message::tool_result("call_42", "done");
    let out = message_to_copilot(&msg);
    assert_eq!(out.len(), 1);
    assert_eq!(out[0].role, "tool");
    assert_eq!(out[0].tool_call_id.as_deref(), Some("call_42"));
}

#[test]
fn assistant_tool_call_serializes() {
    let msg = Message::bare(
        Role::Assistant,
        vec![
            Content::text("thinking..."),
            Content::tool_call("call_1", "lookup", Json::parse("{\"q\":\"hi\"}").unwrap()),
        ],
    );
    let out = message_to_copilot(&msg);
    assert_eq!(out.len(), 1);
    let calls = out[0].tool_calls.as_ref().unwrap();
    assert_eq!(calls.len(), 1);
    assert_eq!(calls[0].function.name, "lookup");
    assert!(calls[0].function.arguments.contains("hi"));
}

#[test]
fn copilot_chunks_carry_text() {
    let chunk = CompletionChunk {
        choices: vec![ChunkChoice { content: Some("a".into()), tool_calls: None, finish_reason: None }],
        usage: None,
    };
    let updates = handle_copilot_chunk(&chunk, &mut CallTable::new());
    assert_eq!(updates[0].text.as_deref(), Some("a"));
    assert!(!test_client().config.debug_text().contains("ghp_test_token_value"));
}

#[test]
fn responses_and_streams_are_those_of_completions() {
    let request = test_client().build_request_body(&vec![Message::user("hi")], None).for_stream(Some(true));
    assert_eq!(request.stream, Some(true));
    assert_eq!(request.include_usage, Some(true));
    let response = CompletionResponse { id: Some("r1".to_string()), choices: vec![], usage: None };
    let out = copilot_response_to_chat_response(&response);
    assert_eq!(out.response_id, Some("r1".to_string()));
    assert!(out.finish_reason.is_none());
}
