use agent_framework::delegating::{is_retryable, RetryAgent, RetryStep};
use agent_framework::error::AgentError;
use agent_framework::http::{
    body_text, check_content_length, error_body_text, error_for_status, valid_header_value, BoundedBody,
};
use agent_framework::json::{Json, JsonObject, RESERVED_MEMBER};
use agent_framework::lines::{line_text, LineBuffer};
use agent_framework::structured_output::{structured_error, structured_options};
use agent_framework::text::{contains, decimal_of_signed, padded_of, split, trim};
use agent_framework::tools::{valid_tool_name, ToolDefinition};
use agent_framework::types::{AgentRunOptions, ChatOptions, Content, Message, ResponseFormat, Role};

#[test]
fn transient_errors_are_tried_again_with_growing_delays() {
    let agent = RetryAgent::new(3);
    let busy = AgentError::provider("busy", Some(503));
    assert!(matches!(agent.after_failure(0, &busy), RetryStep::Retry { delay_ms: 100 }));
    assert!(matches!(agent.after_failure(2, &busy), RetryStep::Retry { delay_ms: 400 }));
    assert!(matches!(agent.after_failure(3, &busy), RetryStep::GiveUp));
    let wrong = AgentError::invalid_request("x");
    assert!(matches!(agent.after_failure(0, &wrong), RetryStep::GiveUp));
    assert!(is_retryable(&AgentError::HttpError("x".to_string())));
    assert!(!is_retryable(&wrong));
}

#[test]
fn structured_calls_keep_the_options_of_the_caller() {
    let options = AgentRunOptions::new()
        .with_chat_options(ChatOptions { max_tokens: Some(7), ..ChatOptions::default() })
        .with_additional_instructions("i");
    let out = structured_options(Some(&options), "Out", Json::parse("{}").unwrap());
    let chat = out.chat_options.unwrap();
    assert_eq!(chat.max_tokens, Some(7));
    assert_eq!(out.additional_instructions.as_deref(), Some("i"));
    assert!(matches!(chat.response_format, Some(ResponseFormat::JsonSchema { name, strict: Some(true), .. }) if name == "Out"));
    assert!(structured_error("T", "eof").to_text().ends_with("failed to deserialize structured output as T: eof"));
}

#[test]
fn bodies_are_bounded() {
    assert!(check_content_length(Some(10), 10).is_ok());
    assert!(check_content_length(None, 10).is_ok());
    assert_eq!(
        check_content_length(Some(11), 10).unwrap_err().to_text(),
        "HTTP error: response Content-Length 11 exceeds limit 10"
    );
    let mut body = BoundedBody::new(3);
    assert!(body.push(&b"ab".to_vec()).is_ok());
    assert!(body.push(&b"cd".to_vec()).is_err());
    assert_eq!(body.bytes, b"ab");
    assert_eq!(body_text(&b"a\xffb".to_vec()), "a\u{fffd}b");
}

#[test]
fn error_bodies_are_scrubbed() {
    let error = error_for_status("API error", "401 Unauthorized", 401, "key sk-abcdefghijklmnop is bad");
    let text = error.to_text();
    assert!(text.contains("401 Unauthorized"));
    assert!(!text.contains("sk-abcdefghijklmnop"));
    assert!(matches!(error, AgentError::ProviderError { status_code: Some(401), .. }));
}

#[test]
fn header_values_have_no_control_characters() {
    assert!(valid_header_value("Bearer x y\tz"));
    assert!(!valid_header_value("a\nb"));
    assert!(!valid_header_value("\u{7f}"));
}

#[test]
fn documents_are_read_back() {
    let text = "{\"a\":[1,-2,0.5,true,null,\"\\u00e4\"],\"b\":{}}";
    let value = Json::parse(text).unwrap();
    assert!(Json::parse(&value.to_text()).unwrap().same(&value));
    assert!(Json::from_value(value.to_value()).same(&value));
    assert_eq!(value.to_value()["a"][0], serde_json::Value::from(1));
    assert!(Json::parse("{\"a\":").is_err());
    let object = JsonObject::new().with("k", Json::text("1")).with("k", Json::text("2"));
    assert_eq!(object.get("k").unwrap().as_str(), Some("2"));
    assert_eq!(Json::Object(object).to_text(), "{\"k\":\"2\"}");
}

#[test]
fn tool_names_are_checked() {
    assert!(valid_tool_name("get_weather-2"));
    assert!(!valid_tool_name(""));
    assert!(!valid_tool_name("a b"));
    assert!(!valid_tool_name("caf\u{e9}"));
    assert!(ToolDefinition::new("bad name", "d", Json::parse("{}").unwrap()).is_err());
    let tool = ToolDefinition::no_params("ping", "Ping").unwrap();
    assert_eq!(tool.parameters_schema.get("type").unwrap().as_str(), Some("object"));
}

#[test]
fn messages_hold_texts_calls_and_results() {
    let message = Message::bare(
        Role::Assistant,
        vec![Content::text("a"), Content::tool_call("i", "n", Json::Null), Content::text("b")],
    );
    assert_eq!(message.text(), "ab");
    assert_eq!(message.tool_calls().len(), 1);
    assert_eq!(Message::tool_result("i", "r").role, Role::Tool);
    assert_eq!(Message::of_role_name("tool", "x").text(), "x");
}

#[test]
fn errors_read_as_they_should() {
    assert_eq!(AgentError::tool("t", "m").to_text(), "Tool invocation error for 't': m");
    assert_eq!(AgentError::SerializationError("s".to_string()).to_text(), "Serialization error: s");
    assert_eq!(AgentError::Unimplemented("u".to_string()).to_text(), "Not implemented: u");
    assert_eq!(AgentError::InvalidResponse("r".to_string()).to_text(), "Invalid response: r");
}

#[test]
fn lines_do_not_depend_on_the_chunks() {
    let mut buffer = LineBuffer::new();
    let mut lines = Vec::new();
    for chunk in [&b"a"[..], &b"b\nc"[..], &b"\n\nd"[..]] {
        buffer.push(&chunk.to_vec());
        while let Some(line) = buffer.next_line() {
            lines.push(line_text(&line));
        }
    }
    let texts: Vec<Option<&str>> = lines.iter().map(|l| l.as_deref()).collect();
    assert_eq!(texts, vec![Some("ab"), Some("c"), None]);
    assert_eq!(buffer.pending, b"d");
}

#[test]
fn texts_are_taken_apart() {
    assert!(contains("hello", "ell"));
    assert!(contains("x", ""));
    assert_eq!(trim(" \u{a0}a b\n"), "a b");
    assert_eq!(split("a,,b", ','), vec!["a", "", "b"]);
    assert_eq!(padded_of(7, 2), "07");
    assert_eq!(decimal_of_signed(i64::MIN), "-9223372036854775808");
}

#[test]
fn the_body_of_a_failure_is_read_as_far_as_it_came() {
    assert_eq!(error_body_text(None), "");
    assert_eq!(error_body_text(Some(&vec![111, 107])), "ok");
}

#[test]
fn documents_are_compared_by_what_they_hold() {
    let json = |text: &str| Json::parse(text).unwrap();
    assert!(json("{\"a\":[1,{}],\"b\":null}").same(&json("{\"b\":null,\"a\":[1,{}]}")));
    assert!(!json("{\"a\":1}").same(&json("{\"a\":2}")));
    assert!(!json("1").same(&json("1.0")));
    assert!(json("0.0").same(&json("-0.0")));
    assert_eq!((json("0.0").to_text(), json("-0.0").to_text()), ("0.0".to_string(), "-0.0".to_string()));
}

#[test]
fn a_member_of_the_reserved_name_is_not_read_back() {
    let object = Json::Object(JsonObject::new().with(RESERVED_MEMBER, Json::text("1")));
    let text = object.to_text();
    assert!(text.starts_with('{'));
    assert_eq!(Json::parse(&text).unwrap().to_text(), "1");
    let nested = Json::Object(JsonObject::new().with("a", Json::array(vec![Json::Null, Json::Unsigned(7)])));
    assert!(Json::parse(&nested.to_text()).unwrap().same(&nested));
}
