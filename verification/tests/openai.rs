use agent_framework::completions::{
    is_done, CallTable, ChunkChoice, ChunkFunction, ChunkToolCall, CompletionChoice, CompletionChunk,
    CompletionFunctionCall, CompletionResponse, CompletionToolCall, CompletionUsage,
};
use agent_framework::json::Json;
use agent_framework::openai::{
    handle_openai_chunk, message_to_openai, openai_response_to_chat_response, OpenAIChatClient, OpenAIConfig,
};
use agent_framework::secret::SecretString;
use agent_framework::tools::ToolDefinition;
use agent_framework::types::{
    ChatOptions, Content, FinishReason, Message, ResponseFormat, Role, ToolChoice,
};

fn text_of(content: &Option<Json>) -> Option<&str> {
    content.as_ref().and_then(|v| v.as_str())
}

#[test]
fn tool_role_message_populates_content_field() {
    let msg = Message::tool_result("call_123", "the sky is blue");
    let msgs = message_to_openai(&msg);
    assert_eq!(msgs.len(), 1);
    let oa = &msgs[0];
    assert_eq!(oa.role, "tool");
    assert_eq!(oa.tool_call_id.as_deref(), Some("call_123"));
    assert_eq!(text_of(&oa.content), Some("the sky is blue"));
    assert!(oa.tool_calls.is_none());
}

#[test]
fn chat_client_multiple_tool_results_produce_multiple_messages() {
    let msg = Message::bare(
        Role::Tool,
        vec![Content::tool_result("call_1", "result_1"), Content::tool_result("call_2", "result_2")],
    );
    let msgs = message_to_openai(&msg);
    assert_eq!(msgs.len(), 2);
    assert_eq!(msgs[0].tool_call_id.as_deref(), Some("call_1"));
    assert_eq!(msgs[1].tool_call_id.as_deref(), Some("call_2"));
}

#[test]
fn assistant_message_with_tool_calls_serializes_correctly() {
    let msg = Message::bare(
        Role::Assistant,
        vec![
            Content::text("let me check"),
            Content::tool_call("call_1", "get_weather", Json::parse("{\"city\":\"Seattle\"}").unwrap()),
        ],
    );
    let msgs = message_to_openai(&msg);
    assert_eq!(msgs.len(), 1);
    let oa = &msgs[0];
    assert_eq!(oa.role, "assistant");
    assert_eq!(text_of(&oa.content), Some("let me check"));
    let calls = oa.tool_calls.as_ref().expect("tool_calls should be present");
    assert_eq!(calls.len(), 1);
    assert_eq!(calls[0].id, "call_1");
    assert_eq!(calls[0].function.name, "get_weather");
    assert!(calls[0].function.arguments.contains("Seattle"));
}

#[test]
fn user_message_text_goes_to_content() {
    let msg = Message::user("hello");
    let msgs = message_to_openai(&msg);
    assert_eq!(msgs.len(), 1);
    let oa = &msgs[0];
    assert_eq!(oa.role, "user");
    assert_eq!(text_of(&oa.content), Some("hello"));
    assert!(oa.tool_calls.is_none());
    assert!(oa.tool_call_id.is_none());
}

fn client() -> OpenAIChatClient {
    OpenAIChatClient::new(OpenAIConfig {
        api_key: SecretString::new("sk-test"),
        model: "gpt-4o".into(),
        max_tokens: 100,
        base_url: "https://example.invalid".into(),
        request_timeout: 10_000,
        connect_timeout: 1_000,
    })
}

#[test]
fn tools_from_chat_options_serialize() {
    let options = ChatOptions {
        tools: vec![ToolDefinition::no_params("ping", "Ping").unwrap()],
        ..ChatOptions::default()
    };
    let body = client().build_request_body(&vec![Message::user("hi")], Some(&options));
    let tools = body.tools.expect("tools should be serialized");
    assert_eq!(tools.len(), 1);
    assert_eq!(tools[0].function.name, "ping");
}

fn chunk(calls: Option<Vec<ChunkToolCall>>, finish_reason: Option<&str>) -> CompletionChunk {
    CompletionChunk {
        choices: vec![ChunkChoice {
            content: None,
            tool_calls: calls,
            finish_reason: finish_reason.map(|r| r.to_string()),
        }],
        usage: None,
    }
}

fn piece(id: Option<&str>, name: Option<&str>, arguments: &str) -> Vec<ChunkToolCall> {
    vec![ChunkToolCall {
        index: 0,
        id: id.map(|s| s.to_string()),
        function: Some(ChunkFunction {
            name: name.map(|s| s.to_string()),
            arguments: Some(arguments.to_string()),
        }),
    }]
}

#[test]
fn stream_chunk_accumulates_tool_calls() {
    let mut index = CallTable::new();
    let first = chunk(Some(piece(Some("call_x"), Some("lookup"), "{\"q")), None);
    let updates = handle_openai_chunk(&first, &mut index);
    assert_eq!(updates.len(), 1);
    let tc = updates[0].tool_call.as_ref().unwrap();
    assert_eq!(tc.id, "call_x");
    assert_eq!(tc.name, "lookup");
    assert_eq!(tc.arguments_delta, "{\"q");

    let second = chunk(Some(piece(None, None, "\":1}")), None);
    let updates = handle_openai_chunk(&second, &mut index);
    let tc = updates[0].tool_call.as_ref().unwrap();
    assert_eq!(tc.id, "call_x");
    assert_eq!(tc.name, "lookup");
    assert_eq!(tc.arguments_delta, "\":1}");

    let done = chunk(None, Some("tool_calls"));
    let updates = handle_openai_chunk(&done, &mut index);
    assert!(updates.iter().any(|u| u.finish_reason == Some(FinishReason::ToolUse)));
    assert!(is_done("[DONE]"));
    assert!(!is_done("{}"));
}

#[test]
fn responses_with_calls_are_read_back() {
    let response = CompletionResponse {
        id: Some("chatcmpl-7".into()),
        choices: vec![CompletionChoice {
            content: Some("see".into()),
            tool_calls: Some(vec![CompletionToolCall {
                id: "call_9".into(),
                kind: "function".into(),
                function: CompletionFunctionCall { name: "f".into(), arguments: "{\"a\":[1,-2]}".into() },
            }]),
            finish_reason: Some("tool_calls".into()),
        }],
        usage: Some(CompletionUsage { prompt_tokens: 8, completion_tokens: 9 }),
    };
    let out = openai_response_to_chat_response(&response);
    assert_eq!(out.finish_reason, Some(FinishReason::ToolUse));
    assert_eq!(out.messages[0].text(), "see");
    let calls = out.messages[0].tool_calls();
    assert_eq!(calls[0].0, "call_9");
    assert!(calls[0].2.same(&Json::parse("{\"a\":[1,-2]}").unwrap()));
    assert_eq!(out.usage.unwrap().input_tokens, 8);
}

#[test]
fn media_become_data_urls() {
    let msg = Message::bare(
        Role::User,
        vec![
            Content::text("look"),
            Content::Data { data: vec![104, 105], media_type: "image/png".into() },
            Content::Uri { uri: "https://x/y.png".into(), media_type: None },
        ],
    );
    let content = message_to_openai(&msg)[0].content.as_ref().unwrap().to_text();
    assert!(content.contains("data:image/png;base64,aGk="));
    assert!(content.contains("https://x/y.png"));
}

#[test]
fn formats_and_choices_take_their_wire_form() {
    let options = ChatOptions {
        response_format: Some(ResponseFormat::JsonSchema {
            name: "Out".into(),
            schema: Json::parse("{\"type\":\"object\"}").unwrap(),
            strict: Some(true),
        }),
        tool_choice: Some(ToolChoice::Required),
        stop_sequences: vec!["END".into()],
        ..ChatOptions::default()
    };
    let body = client().build_request_body(&vec![Message::user("x")], Some(&options));
    let format = body.response_format.unwrap();
    assert_eq!(format.get("type").unwrap().as_str(), Some("json_schema"));
    assert_eq!(format.get("json_schema").unwrap().get("name").unwrap().as_str(), Some("Out"));
    assert_eq!(body.tool_choice.unwrap().as_str(), Some("required"));
    assert_eq!(body.stop.unwrap(), vec!["END"]);
    assert_eq!(client().config.completions_url(), "https://example.invalid/chat/completions");
    assert!(!client().config.debug_text().contains("sk-test"));
}

#[test]
fn the_openai_key_is_required() {
    let config = OpenAIConfig::from_env(Some("k".into()), None).ok().unwrap();
    assert_eq!(config.model, "gpt-4o");
    let error = OpenAIConfig::from_env(None, None).err().unwrap();
    assert_eq!(error.to_text(), "Invalid request: OPENAI_API_KEY environment variable is not set");
    let headers = client().build_headers().unwrap();
    assert!(headers.iter().any(|h| h.name == "authorization" && h.value == "Bearer sk-test" && h.sensitive));
}
