use agent_framework::anthropic::{
    anthropic_response_to_chat_response, event_kind, handle_anthropic_event, map_stop_reason, AnthropicChatClient,
    AnthropicConfig, AnthropicContent, AnthropicDelta, AnthropicEvent, AnthropicEventKind, AnthropicResponse,
    AnthropicUsage, StreamBlocks,
};
use agent_framework::json::Json;
use agent_framework::secret::SecretString;
use agent_framework::tools::ToolDefinition;
use agent_framework::types::{ChatOptions, FinishReason, Message, ToolChoice};

fn make_client() -> AnthropicChatClient {
    AnthropicChatClient::new(AnthropicConfig {
        api_key: SecretString::new("sk-test"),
        model: "test-model".into(),
        max_tokens: 100,
        base_url: "https://example.invalid".into(),
        request_timeout: 10_000,
        connect_timeout: 1_000,
        api_version: "2023-06-01".to_string(),
    })
}

#[test]
fn consecutive_tool_result_messages_are_merged_into_one_user_message() {
    let client = make_client();
    let messages = vec![
        Message::user("run some tools"),
        Message::tool_result("call_1", "result 1"),
        Message::tool_result("call_2", "result 2"),
    ];
    let body = client.build_request_body(&messages, None).unwrap();
    assert_eq!(body.messages.len(), 1, "consecutive user/tool messages must merge");
    assert_eq!(body.messages[0].role, "user");
    assert_eq!(body.messages[0].content.len(), 3);
}

#[test]
fn system_messages_are_hoisted_into_system_field() {
    let client = make_client();
    let messages =
        vec![Message::system("you are helpful"), Message::system("and concise"), Message::user("hi")];
    let body = client.build_request_body(&messages, None).unwrap();
    assert_eq!(body.system.as_deref(), Some("you are helpful\n\nand concise"));
    assert_eq!(body.messages.len(), 1);
}

#[test]
fn alternating_user_assistant_pattern_preserved() {
    let client = make_client();
    let messages = vec![Message::user("hi"), Message::assistant("hello"), Message::user("bye")];
    let body = client.build_request_body(&messages, None).unwrap();
    assert_eq!(body.messages.len(), 3);
    assert_eq!(body.messages[0].role, "user");
    assert_eq!(body.messages[1].role, "assistant");
    assert_eq!(body.messages[2].role, "user");
}

#[test]
fn chat_options_tools_are_serialized() {
    let client = make_client();
    let options = ChatOptions {
        tools: vec![ToolDefinition::no_params("search", "Search the web").unwrap()],
        ..ChatOptions::default()
    };
    let body = client.build_request_body(&vec![Message::user("hi")], Some(&options)).unwrap();
    let tools = body.tools.expect("tools should be serialized");
    assert_eq!(tools.len(), 1);
    assert_eq!(tools[0].name, "search");
}

#[test]
fn stop_reason_mapping() {
    assert_eq!(map_stop_reason("end_turn"), FinishReason::Stop);
    assert_eq!(map_stop_reason("stop_sequence"), FinishReason::Stop);
    assert_eq!(map_stop_reason("max_tokens"), FinishReason::MaxTokens);
    assert_eq!(map_stop_reason("tool_use"), FinishReason::ToolUse);
    assert_eq!(map_stop_reason("new_reason_from_future"), FinishReason::Stop);
}

fn tool_use(id: &str, name: &str) -> AnthropicContent {
    AnthropicContent::ToolUse { id: id.into(), name: name.into(), input: Json::parse("{}").unwrap() }
}

#[test]
fn stream_text_delta_event() {
    let mut blocks = StreamBlocks::new();
    assert!(matches!(event_kind("content_block_delta"), AnthropicEventKind::BlockDelta));
    let event = AnthropicEvent::BlockDelta { index: 0, delta: AnthropicDelta::TextDelta { text: "hello".into() } };
    let update = handle_anthropic_event(event, &mut blocks)
        .unwrap()
        .expect("text_delta should produce an update");
    assert_eq!(update.text.as_deref(), Some("hello"));
}

#[test]
fn stream_tool_use_block_start_registers_and_emits_initial_update() {
    let mut blocks = StreamBlocks::new();
    assert!(matches!(event_kind("content_block_start"), AnthropicEventKind::BlockStart));
    let event = AnthropicEvent::BlockStart { index: 1, content_block: tool_use("toolu_1", "lookup") };
    let update = handle_anthropic_event(event, &mut blocks)
        .unwrap()
        .expect("tool_use block_start should emit an initial update");
    assert!(blocks.get(1).is_some());
    let tc = update.tool_call.as_ref().expect("should carry a tool call");
    assert_eq!(tc.id, "toolu_1");
    assert_eq!(tc.name, "lookup");
    assert_eq!(tc.arguments_delta, "");
}

#[test]
fn stream_input_json_delta_uses_block_index_state() {
    let mut blocks = StreamBlocks::new();
    handle_anthropic_event(
        AnthropicEvent::BlockStart { index: 0, content_block: tool_use("toolu_a", "calc") },
        &mut blocks,
    )
    .unwrap();
    let event = AnthropicEvent::BlockDelta {
        index: 0,
        delta: AnthropicDelta::InputJsonDelta { partial_json: "{\"x\":1}".into() },
    };
    let update = handle_anthropic_event(event, &mut blocks)
        .unwrap()
        .expect("input_json_delta should produce an update");
    let tc = update.tool_call.as_ref().unwrap();
    assert_eq!(tc.id, "toolu_a");
    assert_eq!(tc.name, "calc");
    assert_eq!(tc.arguments_delta, "{\"x\":1}");
}

#[test]
fn stream_ends_and_errors_are_reported() {
    let mut blocks = StreamBlocks::new();
    let end = AnthropicEvent::MessageDelta { stop_reason: Some("max_tokens".into()), output_tokens: Some(7) };
    let update = handle_anthropic_event(end, &mut blocks).unwrap().unwrap();
    assert_eq!(update.finish_reason, Some(FinishReason::MaxTokens));
    assert_eq!(update.usage.unwrap().output_tokens, 7);
    let error = AnthropicEvent::Error { error_type: "overloaded_error".into(), message: "busy".into() };
    assert!(handle_anthropic_event(error, &mut blocks).unwrap_err().to_text().contains("busy"));
    assert!(handle_anthropic_event(AnthropicEvent::Ignored, &mut blocks).unwrap().is_none());
    assert!(matches!(event_kind("ping"), AnthropicEventKind::Ignored));
}

#[test]
fn responses_are_converted() {
    let out = anthropic_response_to_chat_response(AnthropicResponse {
        id: "msg_1".into(),
        content: vec![AnthropicContent::Text { text: "a".into() }, tool_use("t", "f")],
        stop_reason: Some("tool_use".into()),
        usage: Some(AnthropicUsage { input_tokens: 1, output_tokens: 2 }),
    });
    assert_eq!(out.response_id.as_deref(), Some("msg_1"));
    assert_eq!(out.finish_reason, Some(FinishReason::ToolUse));
    assert_eq!(out.messages[0].text(), "a");
    assert_eq!(out.messages[0].tool_calls()[0].1, "f");
    assert_eq!(out.usage.unwrap().output_tokens, 2);
}

#[test]
fn requests_carry_the_key_in_a_sensitive_header() {
    let headers = make_client().build_headers().unwrap();
    let key = headers.iter().find(|h| h.name == "x-api-key").unwrap();
    assert_eq!(key.value, "sk-test");
    assert!(key.sensitive);
    assert!(headers.iter().any(|h| h.name == "anthropic-version" && h.value == "2023-06-01"));
    assert_eq!(make_client().config.messages_url(), "https://example.invalid/v1/messages");
    assert!(!make_client().config.debug_text().contains("sk-test"));
}

#[test]
fn tool_choices_take_their_wire_form() {
    let options = ChatOptions {
        tools: vec![ToolDefinition::no_params("search", "s").unwrap()],
        tool_choice: Some(ToolChoice::Specific { name: "search".into() }),
        ..ChatOptions::default()
    };
    let body = make_client().build_request_body(&vec![Message::user("x")], Some(&options)).unwrap();
    let choice = body.tool_choice.unwrap();
    assert_eq!(choice.get("type").unwrap().as_str(), Some("tool"));
    assert_eq!(choice.get("name").unwrap().as_str(), Some("search"));
}

#[test]
fn the_anthropic_key_is_required() {
    let config = AnthropicConfig::from_env(Some("k".into()), None, "fallback").ok().unwrap();
    assert_eq!(config.model, "fallback");
    assert_eq!(config.max_tokens, 4096);
    let error = AnthropicConfig::from_env(None, None, "fallback").err().unwrap();
    assert_eq!(error.to_text(), "Invalid request: ANTHROPIC_API_KEY environment variable is not set");
}
