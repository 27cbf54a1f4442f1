use agent_framework::json::Json;
use agent_framework::lines::{line_text, LineBuffer};
use agent_framework::ollama::{
    chunk_error, generate_tool_call_id, handle_ollama_chunk, message_to_ollama, ollama_response_to_chat_response,
    on_stream_line,
    OllamaChatClient, OllamaConfig, OllamaFunctionCall, OllamaMessage, OllamaResponse, OllamaStreamChunk,
    OllamaToolCall,
};
use agent_framework::tools::ToolDefinition;
use agent_framework::types::{ChatOptions, Content, F32, FinishReason, Message, Role};

fn object(key: &str, value: &str) -> Json {
    Json::parse(&format!("{{\"{key}\":\"{value}\"}}")).unwrap()
}

fn reply(content: &str, tool_calls: Option<Vec<OllamaToolCall>>) -> OllamaMessage {
    OllamaMessage { role: "assistant".to_string(), content: content.to_string(), tool_calls }
}

fn call(name: &str, arguments: Json) -> OllamaToolCall {
    OllamaToolCall { function: OllamaFunctionCall { name: name.to_string(), arguments } }
}

fn text(s: &str) -> Option<String> {
    Some(s.to_string())
}

#[test]
fn default_config_has_expected_values() {
    let config = OllamaConfig::default();
    assert_eq!(config.base_url, "http://localhost:11434");
    assert_eq!(config.model, "llama3.2");
    assert_eq!(config.request_timeout, 300_000);
    assert_eq!(config.connect_timeout, 10_000);
}

#[test]
fn from_env_uses_defaults_when_vars_unset() {
    let config = OllamaConfig::from_env(None, None);
    assert_eq!(config.base_url, "http://localhost:11434");
    assert_eq!(config.model, "llama3.2");
}

#[test]
fn variables_replace_the_defaults() {
    let config = OllamaConfig::from_env(text("http://h:1"), text("phi3"));
    assert_eq!(config.chat_url(), "http://h:1/api/chat");
    assert_eq!(config.model, "phi3");
}

#[test]
fn user_message_converts_correctly() {
    let msgs = message_to_ollama(&Message::user("hello"));
    assert_eq!(msgs.len(), 1);
    assert_eq!(msgs[0].role, "user");
    assert_eq!(msgs[0].content, "hello");
    assert!(msgs[0].tool_calls.is_none());
}

#[test]
fn system_message_converts_correctly() {
    let msgs = message_to_ollama(&Message::system("you are helpful"));
    assert_eq!(msgs.len(), 1);
    assert_eq!(msgs[0].role, "system");
    assert_eq!(msgs[0].content, "you are helpful");
}

#[test]
fn assistant_message_with_text_converts_correctly() {
    let msgs = message_to_ollama(&Message::assistant("sure, let me help"));
    assert_eq!(msgs.len(), 1);
    assert_eq!(msgs[0].role, "assistant");
    assert_eq!(msgs[0].content, "sure, let me help");
    assert!(msgs[0].tool_calls.is_none());
}

#[test]
fn assistant_message_with_tool_calls_converts_correctly() {
    let msg = Message::bare(
        Role::Assistant,
        vec![
            Content::text("let me check"),
            Content::tool_call("call_1", "get_weather", object("city", "Seattle")),
        ],
    );
    let msgs = message_to_ollama(&msg);
    assert_eq!(msgs.len(), 1);
    let m = &msgs[0];
    assert_eq!(m.role, "assistant");
    assert_eq!(m.content, "let me check");
    let calls = m.tool_calls.as_ref().expect("tool_calls should be present");
    assert_eq!(calls.len(), 1);
    assert_eq!(calls[0].function.name, "get_weather");
    assert!(calls[0].function.arguments.same(&object("city", "Seattle")));
}

#[test]
fn tool_result_message_converts_correctly() {
    let msgs = message_to_ollama(&Message::tool_result("call_123", "the sky is blue"));
    assert_eq!(msgs.len(), 1);
    assert_eq!(msgs[0].role, "tool");
    assert_eq!(msgs[0].content, "the sky is blue");
}

#[test]
fn lib_multiple_tool_results_produce_multiple_messages() {
    let msg = Message::bare(
        Role::Tool,
        vec![Content::tool_result("call_1", "result_1"), Content::tool_result("call_2", "result_2")],
    );
    let msgs = message_to_ollama(&msg);
    assert_eq!(msgs.len(), 2);
    assert_eq!(msgs[0].content, "result_1");
    assert_eq!(msgs[1].content, "result_2");
}

#[test]
fn a_tool_message_without_results_is_sent_empty() {
    let msgs = message_to_ollama(&Message::bare(Role::Tool, vec![]));
    assert_eq!(msgs.len(), 1);
    assert_eq!(msgs[0].role, "tool");
    assert_eq!(msgs[0].content, "");
}

#[test]
fn ollama_text_response_converts() {
    let resp = OllamaResponse {
        message: reply("Hello!", None),
        done: true,
        eval_count: Some(10),
        prompt_eval_count: Some(5),
        done_reason: text("stop"),
    };
    let chat = ollama_response_to_chat_response(&resp, &mut 0);
    assert_eq!(chat.messages.len(), 1);
    assert_eq!(chat.messages[0].text(), "Hello!");
    assert_eq!(chat.finish_reason, Some(FinishReason::Stop));
    let usage = chat.usage.unwrap();
    assert_eq!(usage.input_tokens, 5);
    assert_eq!(usage.output_tokens, 10);
}

#[test]
fn ollama_tool_call_response_converts() {
    let resp = OllamaResponse {
        message: reply("", Some(vec![call("get_weather", object("city", "Paris"))])),
        done: true,
        eval_count: Some(20),
        prompt_eval_count: Some(15),
        done_reason: text("stop"),
    };
    let mut counter = 4;
    let chat = ollama_response_to_chat_response(&resp, &mut counter);
    assert_eq!(chat.messages.len(), 1);
    let calls = chat.messages[0].tool_calls();
    assert_eq!(calls.len(), 1);
    assert_eq!(calls[0].0, "ollama_get_weather_4");
    assert_eq!(calls[0].1, "get_weather");
    assert_eq!(chat.finish_reason, Some(FinishReason::ToolUse));
    assert_eq!(counter, 5);
}

#[test]
fn ollama_length_finish_reason() {
    let resp = OllamaResponse {
        message: reply("truncated", None),
        done: true,
        eval_count: None,
        prompt_eval_count: None,
        done_reason: text("length"),
    };
    let chat = ollama_response_to_chat_response(&resp, &mut 0);
    assert_eq!(chat.finish_reason, Some(FinishReason::MaxTokens));
    assert!(chat.usage.is_none());
}

#[test]
fn an_unknown_reason_is_a_stop_even_with_calls() {
    let resp = OllamaResponse {
        message: reply("", Some(vec![call("f", Json::Null)])),
        done: true,
        eval_count: Some(1),
        prompt_eval_count: None,
        done_reason: text("load"),
    };
    let chat = ollama_response_to_chat_response(&resp, &mut 0);
    assert_eq!(chat.finish_reason, Some(FinishReason::Stop));
    assert!(chat.usage.is_none());
}

#[test]
fn build_request_body_uses_config_model() {
    let config = OllamaConfig { model: "codellama".to_string(), ..OllamaConfig::default() };
    let client = OllamaChatClient::new(config);
    let body = client.build_request_body(&vec![Message::user("hi")], None, false);
    assert_eq!(body.model, "codellama");
    assert!(!body.stream);
}

#[test]
fn build_request_body_respects_option_overrides() {
    let client = OllamaChatClient::new(OllamaConfig::default());
    let opts = ChatOptions {
        model: text("phi3"),
        temperature: Some(F32 { bits: 0.5f32.to_bits() }),
        max_tokens: Some(100),
        ..Default::default()
    };
    let body = client.build_request_body(&vec![Message::user("hi")], Some(&opts), true);
    assert_eq!(body.model, "phi3");
    assert!(body.stream);
    let options = body.options.unwrap();
    assert_eq!(options.temperature.map(|t| f32::from_bits(t.bits)), Some(0.5));
    assert_eq!(options.num_predict, Some(100));
}

#[test]
fn seeds_keep_their_low_bits() {
    let client = OllamaChatClient::new(OllamaConfig::default());
    let opts = ChatOptions { seed: Some(0x1_0000_0007), max_tokens: Some(u32::MAX), ..Default::default() };
    let body = client.build_request_body(&vec![], Some(&opts), false);
    let options = body.options.unwrap();
    assert_eq!(options.seed, Some(7));
    assert_eq!(options.num_predict, Some(-1));
}

#[test]
fn build_request_body_includes_tools() {
    let client = OllamaChatClient::new(OllamaConfig::default());
    let opts = ChatOptions {
        tools: vec![ToolDefinition::no_params("ping", "Ping the server").unwrap()],
        ..Default::default()
    };
    let body = client.build_request_body(&vec![Message::user("hi")], Some(&opts), false);
    let tools = body.tools.expect("tools should be present");
    assert_eq!(tools.len(), 1);
    assert_eq!(tools[0].function.name, "ping");
    assert_eq!(tools[0].kind, "function");
}

#[test]
fn build_request_body_omits_empty_options() {
    let client = OllamaChatClient::new(OllamaConfig::default());
    let opts = ChatOptions::default();
    let body = client.build_request_body(&vec![Message::user("hi")], Some(&opts), false);
    assert!(body.options.is_none());
    assert!(body.tools.is_none());
}

#[test]
fn stream_chunk_with_text() {
    let chunk = OllamaStreamChunk {
        message: reply("Hello", None),
        done: false,
        eval_count: None,
        prompt_eval_count: None,
        done_reason: None,
    };
    let mut acc = Vec::new();
    let updates = handle_ollama_chunk(&chunk, &mut acc, &mut 0);
    assert_eq!(updates.len(), 1);
    assert_eq!(updates[0].text.as_deref(), Some("Hello"));
    assert!(updates[0].finish_reason.is_none());
}

#[test]
fn stream_chunk_done_sends_finish_reason() {
    let chunk = OllamaStreamChunk {
        message: reply("", None),
        done: true,
        eval_count: Some(42),
        prompt_eval_count: Some(10),
        done_reason: text("stop"),
    };
    let mut acc = Vec::new();
    let updates = handle_ollama_chunk(&chunk, &mut acc, &mut 0);
    assert_eq!(updates.len(), 1);
    assert_eq!(updates[0].finish_reason, Some(FinishReason::Stop));
    let usage = updates[0].usage.as_ref().unwrap();
    assert_eq!(usage.input_tokens, 10);
    assert_eq!(usage.output_tokens, 42);
}

#[test]
fn stream_chunk_with_tool_calls_sets_tool_use_finish() {
    let tool_chunk = OllamaStreamChunk {
        message: reply("", Some(vec![call("search", object("q", "rust"))])),
        done: false,
        eval_count: None,
        prompt_eval_count: None,
        done_reason: None,
    };
    let mut acc = Vec::new();
    let mut counter = 0;
    let updates = handle_ollama_chunk(&tool_chunk, &mut acc, &mut counter);
    assert_eq!(updates.len(), 1);
    let tc = updates[0].tool_call.as_ref().unwrap();
    assert_eq!(tc.name, "search");
    assert_eq!(tc.arguments_delta, "{\"q\":\"rust\"}");

    let done_chunk = OllamaStreamChunk {
        message: reply("", None),
        done: true,
        eval_count: Some(30),
        prompt_eval_count: Some(20),
        done_reason: text("stop"),
    };
    let updates = handle_ollama_chunk(&done_chunk, &mut acc, &mut counter);
    assert!(updates.iter().any(|u| u.finish_reason == Some(FinishReason::ToolUse)));
}

#[test]
fn generate_tool_call_id_is_unique() {
    let mut counter = 0;
    let id1 = generate_tool_call_id("test", &mut counter);
    let id2 = generate_tool_call_id("test", &mut counter);
    assert_ne!(id1, id2);
    assert!(id1.starts_with("ollama_test_"));
}

#[test]
fn the_counter_starts_over_at_its_end() {
    let mut counter = u64::MAX;
    assert_eq!(generate_tool_call_id("t", &mut counter), "ollama_t_18446744073709551615");
    assert_eq!(generate_tool_call_id("t", &mut counter), "ollama_t_0");
}

#[test]
fn client_constructs_successfully() {
    let client = OllamaChatClient::new(OllamaConfig::default());
    assert_eq!(client.config.model, "llama3.2");
}

#[test]
fn unreadable_lines_are_reported() {
    assert!(chunk_error("eof").to_text().contains("failed to parse Ollama stream chunk: eof"));
}

#[test]
fn lines_come_out_whole_however_they_are_cut() {
    let bytes = b"one\n\ntwo\nthree".to_vec();
    for cut in 0..=bytes.len() {
        let mut buffer = LineBuffer::new();
        let mut lines = Vec::new();
        for part in [bytes[..cut].to_vec(), bytes[cut..].to_vec()] {
            buffer.push(&part);
            while let Some(line) = buffer.next_line() {
                lines.push(line);
            }
        }
        assert_eq!(lines, vec![b"one\n".to_vec(), b"\n".to_vec(), b"two\n".to_vec()]);
        assert_eq!(buffer.pending, b"three".to_vec());
    }
}

#[test]
fn blank_lines_have_no_text() {
    assert_eq!(line_text(&b" \r\n".to_vec()), None);
    assert_eq!(line_text(&b"  {\"a\":1}\r\n".to_vec()).as_deref(), Some("{\"a\":1}"));
    assert_eq!(line_text(&vec![0x61, 0xff]).as_deref(), Some("a\u{fffd}"));
}

#[test]
fn a_stream_stops_at_its_final_chunk_and_its_rest() {
    let chunk = |done: bool| OllamaStreamChunk {
        message: OllamaMessage {
            role: "assistant".to_string(),
            content: "hi".to_string(),
            tool_calls: None,
        },
        done,
        eval_count: None,
        prompt_eval_count: None,
        done_reason: None,
    };
    let (mut calls, mut counter) = (Vec::new(), 0);
    let (updates, stop) = on_stream_line(Ok(chunk(false)), false, &mut calls, &mut counter).unwrap();
    assert_eq!((updates.len(), stop), (1, false));
    let (updates, stop) = on_stream_line(Ok(chunk(true)), false, &mut calls, &mut counter).unwrap();
    assert_eq!((updates.len(), stop), (2, true));
    let (updates, stop) = on_stream_line(Ok(chunk(false)), true, &mut calls, &mut counter).unwrap();
    assert_eq!((updates.len(), stop), (1, true));
    let (updates, stop) = on_stream_line(Err("eof".to_string()), true, &mut calls, &mut counter).unwrap();
    assert_eq!((updates.len(), stop), (0, true));
    let error = on_stream_line(Err("eof".to_string()), false, &mut calls, &mut counter).unwrap_err();
    assert_eq!(error.to_text(), "Invalid response: failed to parse Ollama stream chunk: eof");
}

#[test]
fn ids_of_two_tools_differ() {
    let (mut one, mut other) = (2, 12);
    assert_ne!(generate_tool_call_id("a_1", &mut one), generate_tool_call_id("a", &mut other));
}
