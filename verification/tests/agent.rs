use agent_framework::agent::{
    collect_calls, find_tool, tool_answer, AgentRun, ChatClientAgent, RunStep, ToolOutcome, ToolSource,
    DEFAULT_MAX_TOOL_ROUNDS,
};
use agent_framework::context::AIContext;
use agent_framework::error::AgentError;
use agent_framework::json::{Json, JsonObject};
use agent_framework::middleware::{chain_step, wrap_order, ChainStep};
use agent_framework::session::AgentSession;
use agent_framework::streaming::{collect_text, StreamRound, StreamRun};
use agent_framework::tools::ToolDefinition;
use agent_framework::types::{
    AgentResponseUpdate, AgentRunOptions, ChatOptions, ChatResponse, ChatResponseUpdate, Content, FinishReason,
    Message, Role, ToolCallUpdate, Usage, F32,
};

fn response(messages: Vec<Message>, finish_reason: FinishReason) -> ChatResponse {
    ChatResponse { messages, response_id: None, finish_reason: Some(finish_reason), usage: None }
}

fn echo_call() -> Message {
    let args = Json::Object(JsonObject::new().with("msg", Json::text("hi")));
    Message::bare(Role::Assistant, vec![Content::tool_call("call_1", "echo", args)])
}

fn echo_tool() -> ToolDefinition {
    ToolDefinition::new("echo", "Echo input", Json::parse("{\"type\":\"object\"}").unwrap()).unwrap()
}

#[test]
fn test_basic_agent_run() {
    let agent = ChatClientAgent::builder()
        .client()
        .name("TestAgent")
        .instructions("You are a test assistant.")
        .build()
        .unwrap();
    assert_eq!(agent.name.as_deref(), Some("TestAgent"));

    let input = vec![Message::user("Hi")];
    let conversation = agent.build_messages(None, &vec![], &vec![], &input);
    let mut run = AgentRun::start(input, conversation, agent.max_tool_rounds);
    assert!(matches!(run.next_step(), RunStep::CallModel));
    let end = run
        .on_response(ChatResponse {
            messages: vec![Message::assistant("Hello! How can I help you?")],
            response_id: Some("test-123".to_string()),
            finish_reason: Some(FinishReason::Stop),
            usage: None,
        })
        .unwrap();
    assert_eq!(end.response.text, "Hello! How can I help you?");
    assert_eq!(end.response.finish_reason, Some(FinishReason::Stop));
    assert_eq!(end.history.len(), 2);
    assert_eq!(end.history[0].text(), "Hi");
}

#[test]
fn test_builder_requires_client() {
    let result = ChatClientAgent::builder().name("NoClient").build();
    assert!(result.is_err());
    assert_eq!(result.unwrap_err().to_text(), "Invalid request: A ChatClient is required");
}

#[test]
fn function_middleware_wraps_tool_invocation_in_order() {
    let labels = ["outer", "inner"];
    let mut log: Vec<String> = Vec::new();
    let mut run = AgentRun::start(vec![Message::user("go")], vec![Message::user("go")], DEFAULT_MAX_TOOL_ROUNDS);
    assert!(run.on_response(response(vec![echo_call()], FinishReason::ToolUse)).is_none());
    assert!(matches!(run.next_step(), RunStep::InvokeTool));
    let mut entered: Vec<usize> = Vec::new();
    while let ChainStep::Middleware(i) = chain_step(entered.len(), labels.len()) {
        log.push(format!("{}:before", labels[i]));
        entered.push(i);
    }
    assert!(matches!(chain_step(entered.len(), labels.len()), ChainStep::Terminal));
    while let Some(i) = entered.pop() {
        log.push(format!("{}:after", labels[i]));
    }
    let echoed = Json::Object(JsonObject::new().with("echoed", Json::text("hi")));
    run.on_tool_result(&tool_answer("echo", &ToolOutcome::Returned(echoed)));
    assert!(matches!(run.next_step(), RunStep::CallModel));
    let end = run.on_response(response(vec![Message::assistant("done")], FinishReason::Stop)).unwrap();
    assert_eq!(end.response.text, "done");
    assert_eq!(log, vec!["outer:before", "inner:before", "inner:after", "outer:after"]);
    let answer = &end.history[2];
    assert_eq!(answer.role, Role::Tool);
    assert_eq!(answer.name.as_deref(), Some("echo"));
    assert!(matches!(&answer.content[0], Content::ToolResult { tool_call_id, content }
        if tool_call_id == "call_1" && content == "{\"echoed\":\"hi\"}"));
}

#[test]
fn agent_middleware_wraps_run_in_order() {
    let labels = ["A", "B"];
    let mut log: Vec<String> = Vec::new();
    let mut entered: Vec<usize> = Vec::new();
    while let ChainStep::Middleware(i) = chain_step(entered.len(), labels.len()) {
        log.push(format!("{}:enter", labels[i]));
        entered.push(i);
    }
    while let Some(i) = entered.pop() {
        log.push(format!("{}:exit", labels[i]));
    }
    assert_eq!(log, vec!["A:enter", "B:enter", "B:exit", "A:exit"]);
}

#[test]
fn decorators_are_laid_on_from_the_last() {
    assert_eq!(wrap_order(3), vec![2, 1, 0]);
    assert_eq!(wrap_order(0), Vec::<usize>::new());
}

fn update(text: Option<&str>, call: Option<ToolCallUpdate>, reason: Option<FinishReason>) -> ChatResponseUpdate {
    ChatResponseUpdate { text: text.map(|t| t.to_string()), tool_call: call, finish_reason: reason, usage: None }
}

#[test]
fn run_stream_yields_text_and_runs_tool_loop() {
    let round1 = vec![
        update(Some("let me check "), None, None),
        update(
            None,
            Some(ToolCallUpdate {
                id: "call_1".into(),
                name: "echo".into(),
                arguments_delta: "{\"msg\":\"hi\"}".into(),
            }),
            None,
        ),
        update(None, None, Some(FinishReason::ToolUse)),
    ];
    let round2 = vec![update(Some("result: hi"), None, None), update(None, None, Some(FinishReason::Stop))];
    let mut passed = Vec::new();
    let mut run = StreamRun::start(vec![Message::user("go")], vec![Message::user("go")], 10);

    let mut round = StreamRound::new();
    for u in round1 {
        passed.push(round.on_update(u));
    }
    assert!(run.on_stream_end(round).is_none());
    assert!(matches!(run.next_step(), RunStep::InvokeTool));
    let args = run.pending_input().unwrap();
    assert_eq!(args.get("msg").unwrap().as_str(), Some("hi"));
    run.on_tool_result("{\"echoed\":\"hi\"}");
    assert!(matches!(run.next_step(), RunStep::CallModel));

    let mut round = StreamRound::new();
    for u in round2 {
        passed.push(round.on_update(u));
    }
    let history = run.on_stream_end(round).unwrap();
    assert_eq!(history.len(), 4);
    assert_eq!(history[1].text(), "let me check ");
    assert_eq!(history[3].text(), "result: hi");

    let text = collect_text(passed).unwrap();
    assert!(text.contains("let me check"));
    assert!(text.contains("result: hi"));
    assert_eq!(text, "let me check result: hi");
}

#[test]
fn collecting_stops_at_the_first_error() {
    let elements = vec![
        Ok(AgentResponseUpdate::from_update(ChatResponseUpdate::of_text("a"))),
        Err(AgentError::Other("first".to_string())),
        Err(AgentError::Other("second".to_string())),
    ];
    assert_eq!(collect_text(elements).unwrap_err().to_text(), "first");
}

#[test]
fn pieces_of_mixed_calls_are_put_together() {
    let mut round = StreamRound::new();
    for (id, name, delta) in [("a", "f", "{\"x\""), ("b", "g", "{}"), ("a", "", ":1}"), ("", "", " ")] {
        round.on_update(ChatResponseUpdate::of_call(id, name, delta)).unwrap();
    }
    assert_eq!(round.calls.len(), 2);
    assert_eq!(round.calls[0].name, "f");
    assert_eq!(round.calls[0].arguments, "{\"x\":1}");
    assert_eq!(round.calls[1].id, "b");
    assert_eq!(round.calls[1].arguments, "{} ");
}

#[test]
fn arguments_that_are_no_json_are_answered_with_the_error() {
    let mut run = StreamRun::start(vec![], vec![], 1);
    let mut round = StreamRound::new();
    round.on_update(ChatResponseUpdate::of_call("c", "f", "{oops")).unwrap();
    round.on_update(update(None, None, Some(FinishReason::ToolUse))).unwrap();
    assert!(run.on_stream_end(round).is_none());
    assert!(run.pending_input().unwrap_err().starts_with("Error: invalid JSON arguments: "));
    assert!(matches!(&run.produced[0].content[0], Content::ToolCall { arguments, .. }
        if arguments.as_str() == Some("{oops")));
    run.on_tool_result("x");
    match run.next_step() {
        RunStep::Fail(error) => assert!(error.to_text().contains('1')),
        _ => panic!("the rounds are used up"),
    }
}

#[test]
fn a_round_that_grows_too_large_is_refused() {
    let mut round = StreamRound::new();
    let chunk = "x".repeat(33_554_432);
    assert!(round.on_update(ChatResponseUpdate::of_text(&chunk)).is_ok());
    let error = round.on_update(ChatResponseUpdate::of_text("y")).unwrap_err();
    assert_eq!(error.to_text(), "Invalid response: streaming state exceeded 33554432 bytes");
}

fn f32_of(x: f32) -> Option<F32> {
    Some(F32 { bits: x.to_bits() })
}

#[test]
fn per_call_chat_options_override_agent_defaults() {
    let defaults = ChatOptions { temperature: f32_of(0.2), max_tokens: Some(100), ..ChatOptions::default() };
    let agent = ChatClientAgent::builder().client().options(defaults).build().unwrap();
    let overrides = ChatOptions { temperature: f32_of(0.9), ..ChatOptions::default() };
    let run_opts = AgentRunOptions::new().with_chat_options(overrides);
    let seen = agent.effective_options(Some(&run_opts), &vec![]);
    assert_eq!(seen.temperature, f32_of(0.9), "override should replace default");
    assert_eq!(seen.max_tokens, Some(100), "untouched field should be preserved");
}

#[test]
fn per_call_additional_instructions_are_prepended() {
    let agent = ChatClientAgent::builder().client().instructions("be concise").build().unwrap();
    let run_opts = AgentRunOptions::new().with_additional_instructions("also: be cheerful");
    let seen = agent.build_messages(
        run_opts.additional_instructions.as_deref(),
        &vec![],
        &vec![],
        &vec![Message::user("hi")],
    );
    let system_texts: Vec<String> = seen.iter().filter(|m| m.role == Role::System).map(|m| m.text()).collect();
    assert_eq!(system_texts.len(), 2, "both default + additional instructions present");
    assert_eq!(system_texts[0], "be concise");
    assert_eq!(system_texts[1], "also: be cheerful");
    assert_eq!(seen[2].text(), "hi");
}

#[test]
fn context_stands_between_instructions_and_history() {
    let agent = ChatClientAgent::builder().client().instructions("i").build().unwrap();
    let context = AIContext {
        instructions: Some("c".to_string()),
        messages: vec![Message::user("known")],
        tools: vec![echo_tool()],
    };
    let seen = agent.build_messages(Some(""), &vec![context], &vec![Message::assistant("h")], &vec![Message::user("q")]);
    let texts: Vec<String> = seen.iter().map(|m| m.text()).collect();
    assert_eq!(texts, vec!["i", "c", "known", "h", "q"]);
}

#[test]
fn tools_of_one_name_are_offered_once() {
    let agent = ChatClientAgent::builder().client().tool(echo_tool()).build().unwrap();
    let options = agent.effective_options(None, &vec![echo_tool(), ToolDefinition::no_params("other", "d").unwrap()]);
    assert_eq!(options.tools.len(), 2);
    assert_eq!(options.tools[1].name, "other");
    assert_eq!(find_tool(&options.tools, "other"), Some(1));
    let context_tools = vec![ToolDefinition::no_params("mine", "d").unwrap()];
    assert!(matches!(agent.locate_tool(&context_tools, "echo"), ToolSource::Agent(0)));
    assert!(matches!(agent.locate_tool(&context_tools, "mine"), ToolSource::Context(0)));
    assert!(matches!(agent.locate_tool(&context_tools, "none"), ToolSource::Nowhere));
}

#[test]
fn answers_of_tools_are_texts() {
    assert_eq!(tool_answer("t", &ToolOutcome::Returned(Json::text("plain"))), "\"plain\"");
    assert_eq!(
        tool_answer("t", &ToolOutcome::Failed(AgentError::tool("t", "boom"))),
        "Error: Tool invocation error for 't': boom"
    );
    assert_eq!(tool_answer("t", &ToolOutcome::Unknown), "Error: unknown tool 't'");
}

#[test]
fn rounds_are_bounded_and_usage_adds_up() {
    let mut run = AgentRun::start(vec![], vec![], 1);
    let mut with_usage = response(vec![echo_call()], FinishReason::ToolUse);
    with_usage.usage = Some(Usage { input_tokens: 3, output_tokens: 4 });
    assert!(run.accepts_usage(&with_usage));
    assert!(run.on_response(with_usage).is_none());
    assert_eq!(run.usage.input_tokens, 3);
    run.on_tool_result("r");
    match run.next_step() {
        RunStep::Fail(error) => {
            assert_eq!(error.to_text(), "Invalid response: Exceeded maximum tool rounds (1)")
        }
        _ => panic!("the rounds are used up"),
    }
    let mut huge = response(vec![], FinishReason::Stop);
    huge.usage = Some(Usage { input_tokens: u32::MAX, output_tokens: 0 });
    assert!(!run.accepts_usage(&huge));
}

#[test]
fn calls_are_collected_in_order() {
    let calls = collect_calls(&vec![Message::user("x"), echo_call(), echo_call()]);
    assert_eq!(calls.len(), 2);
    assert_eq!(calls[0].id, "call_1");
    assert_eq!(calls[1].name, "echo");
}

#[test]
fn a_session_has_an_identifier_of_its_own() {
    let session = AgentSession::new();
    assert_eq!(session.session_id.len(), 36);
    assert_ne!(session.session_id, AgentSession::new().session_id);
    assert_eq!(AgentSession::with_id(Some("mine".to_string())).session_id, "mine");
}
