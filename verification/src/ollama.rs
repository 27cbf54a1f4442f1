//! The Ollama chat API.

use vstd::prelude::*;

use crate::completions::{given, nonempty, nonempty_texts, tools_to_completion, wire_tools, CompletionTool, CompletionToolView};
use crate::counter::{count_after, law_counts_differ, next_count, take_count};
use crate::error::{AgentError, AgentResult, ErrorView};
use crate::http::variable_or;
use crate::json::{rendered, Json, JsonView};
use crate::text::{cat2, cat4, decimal, decimal_of, lemma_decimal_differs, lemma_decimal_digits, str_eq};
use crate::types::{
    bare_message, call_update, calls_of, end_update, law_calls_of_blocks, law_text_of_blocks, law_updates_carry_one_thing,
    role_name, text_of, text_update, ChatOptions, ChatOptionsView, ChatResponse,
    ChatResponseUpdate, ChatResponseView, Content, ContentView, FinishReason, Message, MessageView, Role, UpdateView,
    Usage, F32,
};

verus! {

/// Overall request timeout, in milliseconds.
pub const DEFAULT_REQUEST_TIMEOUT: u64 = 300000;

/// TCP connect timeout, in milliseconds.
pub const DEFAULT_CONNECT_TIMEOUT: u64 = 10000;

/// Configuration for the Ollama chat client.
#[derive(Debug)]
pub struct OllamaConfig {
    /// Base URL of the server.
    pub base_url: String,
    /// Model identifier.
    pub model: String,
    /// Overall request timeout, in milliseconds.
    pub request_timeout: u64,
    /// TCP connect timeout, in milliseconds.
    pub connect_timeout: u64,
}

impl Default for OllamaConfig {
    fn default() -> (config: Self)
        ensures
            config.base_url@ == "http://localhost:11434"@,
            config.model@ == "llama3.2"@,
            config.request_timeout == DEFAULT_REQUEST_TIMEOUT == 300000,
            config.connect_timeout == DEFAULT_CONNECT_TIMEOUT == 10000,
    {
        OllamaConfig {
            base_url: "http://localhost:11434".to_owned(),
            model: "llama3.2".to_owned(),
            request_timeout: DEFAULT_REQUEST_TIMEOUT,
            connect_timeout: DEFAULT_CONNECT_TIMEOUT,
        }
    }
}

impl OllamaConfig {
    /// Create a config from the values of the environment variables
    /// `OLLAMA_BASE_URL` and `OLLAMA_MODEL`.
    pub fn from_env(base_url: Option<String>, model: Option<String>) -> (config: Self)
        ensures
            config.base_url@ == match base_url.deep_view() {
                Some(text) => text,
                None => "http://localhost:11434"@,
            },
            config.model@ == match model.deep_view() {
                Some(text) => text,
                None => "llama3.2"@,
            },
            config.request_timeout == DEFAULT_REQUEST_TIMEOUT == 300000,
            config.connect_timeout == DEFAULT_CONNECT_TIMEOUT == 10000,
    {
        OllamaConfig {
            base_url: variable_or(base_url, "http://localhost:11434"),
            model: variable_or(model, "llama3.2"),
            request_timeout: DEFAULT_REQUEST_TIMEOUT,
            connect_timeout: DEFAULT_CONNECT_TIMEOUT,
        }
    }

    /// The URL that requests are sent to.
    pub fn chat_url(&self) -> (url: String)
        ensures
            url@ == self.base_url@ + "/api/chat"@,
    {
        cat2(self.base_url.as_str(), "/api/chat")
    }
}

// ---------------------------------------------------------------------------
// Wire types
// ---------------------------------------------------------------------------

/// The function that a tool call calls.
#[derive(Debug)]
pub struct OllamaFunctionCall {
    pub name: String,
    pub arguments: Json,
}

/// A tool call on the wire. It has no id.
#[derive(Debug)]
pub struct OllamaToolCall {
    pub function: OllamaFunctionCall,
}

/// What a tool call on the wire holds.
#[verifier::ext_equal]
pub struct OllamaToolCallView {
    pub name: Seq<char>,
    pub arguments: JsonView,
}

impl View for OllamaToolCall {
    type V = OllamaToolCallView;

    open spec fn view(&self) -> OllamaToolCallView {
        OllamaToolCallView { name: self.function.name@, arguments: self.function.arguments@ }
    }
}

impl DeepView for OllamaToolCall {
    type V = OllamaToolCallView;

    open spec fn deep_view(&self) -> OllamaToolCallView {
        self@
    }
}

impl Clone for OllamaToolCall {
    fn clone(&self) -> (copy: Self)
        ensures
            copy@ == self@,
    {
        OllamaToolCall {
            function: OllamaFunctionCall {
                name: self.function.name.clone(),
                arguments: self.function.arguments.clone(),
            },
        }
    }
}

/// A message on the wire.
#[derive(Debug)]
pub struct OllamaMessage {
    pub role: String,
    pub content: String,
    pub tool_calls: Option<Vec<OllamaToolCall>>,
}

/// What a message on the wire holds.
#[verifier::ext_equal]
pub struct OllamaMessageView {
    pub role: Seq<char>,
    pub content: Seq<char>,
    pub tool_calls: Option<Seq<OllamaToolCallView>>,
}

impl View for OllamaMessage {
    type V = OllamaMessageView;

    open spec fn view(&self) -> OllamaMessageView {
        OllamaMessageView {
            role: self.role@,
            content: self.content@,
            tool_calls: self.tool_calls.deep_view(),
        }
    }
}

impl DeepView for OllamaMessage {
    type V = OllamaMessageView;

    open spec fn deep_view(&self) -> OllamaMessageView {
        self@
    }
}

/// The options of a request. What is `None` is left out.
#[derive(Debug)]
pub struct OllamaOptions {
    pub temperature: Option<F32>,
    pub top_p: Option<F32>,
    pub top_k: Option<u32>,
    pub seed: Option<i32>,
    pub num_predict: Option<i32>,
    pub stop: Option<Vec<String>>,
    pub frequency_penalty: Option<F32>,
    pub presence_penalty: Option<F32>,
}

/// What the options of a request hold.
#[verifier::ext_equal]
pub struct OllamaOptionsView {
    pub temperature: Option<F32>,
    pub top_p: Option<F32>,
    pub top_k: Option<u32>,
    pub seed: Option<i32>,
    pub num_predict: Option<i32>,
    pub stop: Option<Seq<Seq<char>>>,
    pub frequency_penalty: Option<F32>,
    pub presence_penalty: Option<F32>,
}

impl View for OllamaOptions {
    type V = OllamaOptionsView;

    open spec fn view(&self) -> OllamaOptionsView {
        OllamaOptionsView {
            temperature: self.temperature,
            top_p: self.top_p,
            top_k: self.top_k,
            seed: self.seed,
            num_predict: self.num_predict,
            stop: self.stop.deep_view(),
            frequency_penalty: self.frequency_penalty,
            presence_penalty: self.presence_penalty,
        }
    }
}

impl DeepView for OllamaOptions {
    type V = OllamaOptionsView;

    open spec fn deep_view(&self) -> OllamaOptionsView {
        self@
    }
}

/// The body of a request. What is `None` is left out.
#[derive(Debug)]
pub struct OllamaRequest {
    pub model: String,
    pub messages: Vec<OllamaMessage>,
    pub stream: bool,
    pub tools: Option<Vec<CompletionTool>>,
    pub options: Option<OllamaOptions>,
}

/// What the body of a request holds.
#[verifier::ext_equal]
pub struct OllamaRequestView {
    pub model: Seq<char>,
    pub messages: Seq<OllamaMessageView>,
    pub stream: bool,
    pub tools: Option<Seq<CompletionToolView>>,
    pub options: Option<OllamaOptionsView>,
}

impl View for OllamaRequest {
    type V = OllamaRequestView;

    open spec fn view(&self) -> OllamaRequestView {
        OllamaRequestView {
            model: self.model@,
            messages: self.messages.deep_view(),
            stream: self.stream,
            tools: self.tools.deep_view(),
            options: self.options.deep_view(),
        }
    }
}

/// The body of a response.
#[derive(Debug)]
pub struct OllamaResponse {
    pub message: OllamaMessage,
    pub done: bool,
    pub eval_count: Option<u32>,
    pub prompt_eval_count: Option<u32>,
    pub done_reason: Option<String>,
}

/// What the body of a response holds.
#[verifier::ext_equal]
pub struct OllamaResponseView {
    pub message: OllamaMessageView,
    pub done: bool,
    pub eval_count: Option<u32>,
    pub prompt_eval_count: Option<u32>,
    pub done_reason: Option<Seq<char>>,
}

impl View for OllamaResponse {
    type V = OllamaResponseView;

    open spec fn view(&self) -> OllamaResponseView {
        OllamaResponseView {
            message: self.message@,
            done: self.done,
            eval_count: self.eval_count,
            prompt_eval_count: self.prompt_eval_count,
            done_reason: self.done_reason.deep_view(),
        }
    }
}

/// One line of a streamed response.
pub type OllamaStreamChunk = OllamaResponse;

// ---------------------------------------------------------------------------
// Requests
// ---------------------------------------------------------------------------

/// One message for each tool result.
pub open spec fn result_messages(content: Seq<ContentView>) -> Seq<OllamaMessageView>
    decreases content.len(),
{
    if content.len() == 0 {
        Seq::empty()
    } else {
        let before = result_messages(content.drop_last());
        match content.last() {
            ContentView::ToolResult { content, .. } => before.push(
                OllamaMessageView { role: "tool"@, content, tool_calls: None },
            ),
            _ => before,
        }
    }
}

/// The tool calls among content blocks, on the wire.
pub open spec fn wire_calls(content: Seq<ContentView>) -> Seq<OllamaToolCallView>
    decreases content.len(),
{
    if content.len() == 0 {
        Seq::empty()
    } else {
        let before = wire_calls(content.drop_last());
        match content.last() {
            ContentView::ToolCall { name, arguments, .. } => before.push(OllamaToolCallView { name, arguments }),
            _ => before,
        }
    }
}

/// The messages on the wire that a message becomes: one for each result of a tool
/// message, and otherwise one.
pub open spec fn ollama_messages(message: MessageView) -> Seq<OllamaMessageView> {
    if message.role == Role::Tool {
        if result_messages(message.content).len() == 0 {
            seq![OllamaMessageView { role: "tool"@, content: Seq::empty(), tool_calls: None }]
        } else {
            result_messages(message.content)
        }
    } else {
        seq![
            OllamaMessageView {
                role: role_name(message.role),
                content: text_of(message.content),
                tool_calls: nonempty(wire_calls(message.content)),
            },
        ]
    }
}

/// The messages on the wire that a conversation becomes.
pub open spec fn ollama_conversation(messages: Seq<MessageView>) -> Seq<OllamaMessageView>
    decreases messages.len(),
{
    if messages.len() == 0 {
        Seq::empty()
    } else {
        ollama_conversation(messages.drop_last()) + ollama_messages(messages.last())
    }
}

/// The options on the wire. The seed and the limit keep their low 32 bits.
pub open spec fn wire_options(options: ChatOptionsView) -> OllamaOptionsView {
    OllamaOptionsView {
        temperature: options.temperature,
        top_p: options.top_p,
        top_k: options.top_k,
        seed: match options.seed {
            Some(s) => Some(s as i32),
            None => None,
        },
        num_predict: match options.max_tokens {
            Some(n) => Some(n as i32),
            None => None,
        },
        stop: nonempty(options.stop_sequences),
        frequency_penalty: options.frequency_penalty,
        presence_penalty: options.presence_penalty,
    }
}

/// Options that set nothing.
pub open spec fn unset() -> OllamaOptionsView {
    OllamaOptionsView {
        temperature: None,
        top_p: None,
        top_k: None,
        seed: None,
        num_predict: None,
        stop: None,
        frequency_penalty: None,
        presence_penalty: None,
    }
}

/// The body of a request. Options that set nothing are left out.
pub open spec fn ollama_request(
    model: Seq<char>,
    messages: Seq<MessageView>,
    options: ChatOptionsView,
    stream: bool,
) -> OllamaRequestView {
    OllamaRequestView {
        model: match options.model {
            Some(m) => m,
            None => model,
        },
        messages: ollama_conversation(messages),
        stream,
        tools: wire_tools(options.tools),
        options: if wire_options(options) == unset() {
            None
        } else {
            Some(wire_options(options))
        },
    }
}

fn convert_results(content: &Vec<Content>) -> (out: Vec<OllamaMessage>)
    ensures
        out.deep_view() == result_messages(content.deep_view()),
{
    let mut out: Vec<OllamaMessage> = Vec::new();
    let ghost all = content.deep_view();
    let mut i: usize = 0;
    assert(out.deep_view() =~= Seq::empty());
    while i < content.len()
        invariant
            i <= content@.len(),
            all == content.deep_view(),
            out.deep_view() == result_messages(all.take(i as int)),
        decreases content@.len() - i,
    {
        assert(all.take(i + 1).drop_last() =~= all.take(i as int));
        if let Content::ToolResult { content: text, .. } = &content[i] {
            let ghost before = out.deep_view();
            let message = OllamaMessage { role: "tool".to_owned(), content: text.clone(), tool_calls: None };
            let ghost pushed = message@;
            out.push(message);
            assert(out.deep_view() =~= before.push(pushed));
        }
        i += 1;
    }
    assert(all.take(i as int) =~= all);
    out
}

fn convert_calls(content: &Vec<Content>) -> (out: Vec<OllamaToolCall>)
    ensures
        out.deep_view() == wire_calls(content.deep_view()),
{
    let mut out: Vec<OllamaToolCall> = Vec::new();
    let ghost all = content.deep_view();
    let mut i: usize = 0;
    assert(out.deep_view() =~= Seq::empty());
    while i < content.len()
        invariant
            i <= content@.len(),
            all == content.deep_view(),
            out.deep_view() == wire_calls(all.take(i as int)),
        decreases content@.len() - i,
    {
        assert(all.take(i + 1).drop_last() =~= all.take(i as int));
        if let Content::ToolCall { name, arguments, .. } = &content[i] {
            let ghost before = out.deep_view();
            let call = OllamaToolCall {
                function: OllamaFunctionCall { name: name.clone(), arguments: arguments.clone() },
            };
            let ghost pushed = call@;
            out.push(call);
            assert(out.deep_view() =~= before.push(pushed));
        }
        i += 1;
    }
    assert(all.take(i as int) =~= all);
    out
}

/// The messages on the wire that a message becomes.
pub fn message_to_ollama(message: &Message) -> (out: Vec<OllamaMessage>)
    ensures
        out.deep_view() == ollama_messages(message@),
{
    let mut out: Vec<OllamaMessage> = Vec::new();
    if message.role == Role::Tool {
        let results = convert_results(&message.content);
        if results.len() > 0 {
            return results;
        }
        let empty = String::new();
        out.push(OllamaMessage { role: "tool".to_owned(), content: empty, tool_calls: None });
        assert(empty@ =~= Seq::empty());
        assert(out.deep_view() =~= ollama_messages(message@));
        return out;
    }
    let calls = convert_calls(&message.content);
    out.push(
        OllamaMessage {
            role: message.role.name().to_owned(),
            content: message.text(),
            tool_calls: if calls.len() == 0 {
                None
            } else {
                Some(calls)
            },
        },
    );
    assert(out.deep_view() =~= ollama_messages(message@));
    out
}

fn convert_messages(messages: &Vec<Message>) -> (out: Vec<OllamaMessage>)
    ensures
        out.deep_view() == ollama_conversation(messages.deep_view()),
{
    let mut out: Vec<OllamaMessage> = Vec::new();
    let ghost all = messages.deep_view();
    let mut i: usize = 0;
    assert(out.deep_view() =~= Seq::empty());
    while i < messages.len()
        invariant
            i <= messages@.len(),
            all == messages.deep_view(),
            out.deep_view() == ollama_conversation(all.take(i as int)),
        decreases messages@.len() - i,
    {
        assert(all.take(i + 1).drop_last() =~= all.take(i as int));
        let ghost before = out.deep_view();
        let mut more = message_to_ollama(&messages[i]);
        let ghost m = more.deep_view();
        out.append(&mut more);
        assert(out.deep_view() =~= before + m);
        i += 1;
    }
    assert(all.take(i as int) =~= all);
    out
}

fn convert_options(options: &ChatOptions) -> (out: Option<OllamaOptions>)
    ensures
        out.deep_view() == if wire_options(options@) == unset() {
            None
        } else {
            Some(wire_options(options@))
        },
{
    let converted = OllamaOptions {
        temperature: options.temperature,
        top_p: options.top_p,
        top_k: options.top_k,
        seed: match options.seed {
            Some(s) => Some(#[verifier::truncate] (s as i32)),
            None => None,
        },
        num_predict: match options.max_tokens {
            Some(n) => Some(#[verifier::truncate] (n as i32)),
            None => None,
        },
        stop: nonempty_texts(&options.stop_sequences),
        frequency_penalty: options.frequency_penalty,
        presence_penalty: options.presence_penalty,
    };
    assert(converted@ == wire_options(options@));
    let set = converted.temperature.is_some() || converted.top_p.is_some() || converted.top_k.is_some()
        || converted.seed.is_some() || converted.num_predict.is_some() || converted.stop.is_some()
        || converted.frequency_penalty.is_some() || converted.presence_penalty.is_some();
    if set {
        Some(converted)
    } else {
        assert(converted@ =~= unset());
        None
    }
}

/// A client for the Ollama chat API: what it sends and how it reads what comes back.
pub struct OllamaChatClient {
    pub config: OllamaConfig,
}

impl OllamaChatClient {
    /// A client with the given configuration.
    pub fn new(config: OllamaConfig) -> (client: Self)
        ensures
            client.config == config,
    {
        OllamaChatClient { config }
    }

    /// Build the request body.
    pub fn build_request_body(
        &self,
        messages: &Vec<Message>,
        options: Option<&ChatOptions>,
        stream: bool,
    ) -> (body: OllamaRequest)
        ensures
            body@ == ollama_request(self.config.model@, messages.deep_view(), given(options), stream),
    {
        match options {
            Some(o) => request_with(self.config.model.as_str(), messages, o, stream),
            None => request_with(self.config.model.as_str(), messages, &ChatOptions::default(), stream),
        }
    }
}

fn request_with(model: &str, messages: &Vec<Message>, options: &ChatOptions, stream: bool) -> (body: OllamaRequest)
    ensures
        body@ == ollama_request(model@, messages.deep_view(), options@, stream),
{
    OllamaRequest {
        model: match &options.model {
            Some(m) => m.clone(),
            None => model.to_owned(),
        },
        messages: convert_messages(messages),
        stream,
        tools: tools_to_completion(&options.tools),
        options: convert_options(options),
    }
}

// ---------------------------------------------------------------------------
// Tool call ids
// ---------------------------------------------------------------------------

/// The id of a tool call: the name of the tool and the number of the call.
pub open spec fn tool_call_id(name: Seq<char>, count: u64) -> Seq<char> {
    "ollama_"@ + name + "_"@ + decimal(count as nat)
}

/// Make an id for a tool call, since Ollama gives it none. The counter goes on by one.
pub fn generate_tool_call_id(name: &str, counter: &mut u64) -> (id: String)
    ensures
        id@ == tool_call_id(name@, *old(counter)),
        *final(counter) == next_count(*old(counter)),
{
    let count: u64 = take_count(counter);
    cat4("ollama_", name, "_", decimal_of(count).as_str())
}

// ---------------------------------------------------------------------------
// Responses
// ---------------------------------------------------------------------------

/// The blocks of an answer: its text unless that is empty, then its tool calls,
/// which are numbered from `count` on.
pub open spec fn answer_blocks(message: OllamaMessageView, count: u64) -> Seq<ContentView> {
    let text = if message.content.len() > 0 {
        seq![ContentView::Text { text: message.content }]
    } else {
        Seq::empty()
    };
    match message.tool_calls {
        Some(calls) => text + Seq::new(
            calls.len(),
            |i: int|
                ContentView::ToolCall {
                    id: tool_call_id(calls[i].name, count_after(count, i as nat)),
                    name: calls[i].name,
                    arguments: calls[i].arguments,
                },
        ),
        None => text,
    }
}

/// How many tool calls a message makes.
pub open spec fn call_count(message: OllamaMessageView) -> nat {
    match message.tool_calls {
        Some(calls) => calls.len(),
        None => 0,
    }
}

/// Why an answer that is done has ended: a natural stop counts as a request for
/// tools where there were tool calls.
pub open spec fn done_reason(reason: Option<Seq<char>>, has_calls: bool) -> FinishReason {
    if (reason is None || reason == Some("stop"@)) && has_calls {
        FinishReason::ToolUse
    } else if reason == Some("length"@) {
        FinishReason::MaxTokens
    } else {
        FinishReason::Stop
    }
}

/// The usage, if both counts are there.
pub open spec fn usage_of(prompt_eval_count: Option<u32>, eval_count: Option<u32>) -> Option<Usage> {
    match (prompt_eval_count, eval_count) {
        (Some(input_tokens), Some(output_tokens)) => Some(Usage { input_tokens, output_tokens }),
        _ => None,
    }
}

/// The chat response that a response on the wire stands for.
pub open spec fn chat_response_of(response: OllamaResponseView, count: u64) -> ChatResponseView {
    ChatResponseView {
        messages: seq![bare_message(Role::Assistant, answer_blocks(response.message, count))],
        response_id: None,
        finish_reason: if response.done {
            Some(done_reason(response.done_reason, call_count(response.message) > 0))
        } else {
            None
        },
        usage: usage_of(response.prompt_eval_count, response.eval_count),
    }
}

/// Why an answer that is done has ended.
fn finish_of(reason: &Option<String>, has_calls: bool) -> (finish: FinishReason)
    ensures
        finish == done_reason(reason.deep_view(), has_calls),
{
    match reason {
        None => if has_calls {
            FinishReason::ToolUse
        } else {
            FinishReason::Stop
        },
        Some(r) => if str_eq(r.as_str(), "stop") && has_calls {
            FinishReason::ToolUse
        } else if str_eq(r.as_str(), "length") {
            proof {
                reveal_strlit("stop");
                reveal_strlit("length");
            }
            FinishReason::MaxTokens
        } else {
            FinishReason::Stop
        },
    }
}

fn usage_from(prompt_eval_count: Option<u32>, eval_count: Option<u32>) -> (usage: Option<Usage>)
    ensures
        usage == usage_of(prompt_eval_count, eval_count),
{
    match (prompt_eval_count, eval_count) {
        (Some(input_tokens), Some(output_tokens)) => Some(Usage { input_tokens, output_tokens }),
        _ => None,
    }
}

/// The blocks of an answer. The counter goes on by the number of tool calls.
fn convert_answer(message: &OllamaMessage, counter: &mut u64) -> (blocks: Vec<Content>)
    ensures
        blocks.deep_view() == answer_blocks(message@, *old(counter)),
        *final(counter) == count_after(*old(counter), call_count(message@)),
{
    let ghost count = *counter;
    let mut blocks: Vec<Content> = Vec::new();
    assert(blocks.deep_view() =~= Seq::empty());
    if !message.content.as_str().is_empty() {
        blocks.push(Content::text(message.content.as_str()));
        assert(blocks.deep_view() =~= seq![ContentView::Text { text: message.content@ }]);
    }
    let ghost start = blocks.deep_view();
    if let Some(calls) = &message.tool_calls {
        let ghost views = calls.deep_view();
        let ghost all = Seq::new(
            views.len(),
            |i: int|
                ContentView::ToolCall {
                    id: tool_call_id(views[i].name, count_after(count, i as nat)),
                    name: views[i].name,
                    arguments: views[i].arguments,
                },
        );
        let mut i: usize = 0;
        assert(start + all.take(0) =~= start);
        while i < calls.len()
            invariant
                i <= calls@.len(),
                views == calls.deep_view(),
                all == Seq::new(
                    views.len(),
                    |i: int|
                        ContentView::ToolCall {
                            id: tool_call_id(views[i].name, count_after(count, i as nat)),
                            name: views[i].name,
                            arguments: views[i].arguments,
                        },
                ),
                *counter == count_after(count, i as nat),
                blocks.deep_view() == start + all.take(i as int),
            decreases calls@.len() - i,
        {
            let ghost before = blocks.deep_view();
            let id = generate_tool_call_id(calls[i].function.name.as_str(), counter);
            blocks.push(
                Content::tool_call(
                    id.as_str(),
                    calls[i].function.name.as_str(),
                    calls[i].function.arguments.clone(),
                ),
            );
            assert(views[i as int] == calls@[i as int]@);
            assert(blocks.deep_view() =~= before.push(all[i as int]));
            assert(start + all.take(i + 1) =~= before.push(all[i as int]));
            i += 1;
        }
        assert(all.take(i as int) =~= all);
    }
    blocks
}

/// The chat response that a response on the wire stands for. Tool calls get ids,
/// numbered by the counter.
pub fn ollama_response_to_chat_response(response: &OllamaResponse, counter: &mut u64) -> (out: ChatResponse)
    ensures
        out@ == chat_response_of(response@, *old(counter)),
        *final(counter) == count_after(*old(counter), call_count(response@.message)),
{
    let ghost count = *counter;
    let content = convert_answer(&response.message, counter);
    let has_calls = match &response.message.tool_calls {
        Some(calls) => calls.len() > 0,
        None => false,
    };
    let mut messages: Vec<Message> = Vec::new();
    messages.push(Message::bare(Role::Assistant, content));
    assert(messages.deep_view() =~= seq![bare_message(Role::Assistant, answer_blocks(response.message@, count))]);
    ChatResponse {
        messages,
        response_id: None,
        finish_reason: if response.done {
            Some(finish_of(&response.done_reason, has_calls))
        } else {
            None
        },
        usage: usage_from(response.prompt_eval_count, response.eval_count),
    }
}

// ---------------------------------------------------------------------------
// Streaming
// ---------------------------------------------------------------------------

/// The updates that a line of a stream gives, where the calls are numbered from
/// `count` on and `had_calls` says whether there were calls before: one for the
/// text unless it is empty, one for each tool call, and one at the end.
pub open spec fn chunk_updates(chunk: OllamaResponseView, count: u64, had_calls: bool) -> Seq<UpdateView> {
    let text = if chunk.message.content.len() > 0 {
        seq![text_update(chunk.message.content)]
    } else {
        Seq::empty()
    };
    let with_calls = match chunk.message.tool_calls {
        Some(calls) => text + Seq::new(
            calls.len(),
            |i: int|
                call_update(
                    tool_call_id(calls[i].name, count_after(count, i as nat)),
                    calls[i].name,
                    rendered(calls[i].arguments),
                ),
        ),
        None => text,
    };
    if chunk.done {
        with_calls.push(
            end_update(
                Some(done_reason(chunk.done_reason, had_calls || call_count(chunk.message) > 0)),
                usage_of(chunk.prompt_eval_count, chunk.eval_count),
            ),
        )
    } else {
        with_calls
    }
}

/// The tool calls of a message.
pub open spec fn calls_of_message(message: OllamaMessageView) -> Seq<OllamaToolCallView> {
    match message.tool_calls {
        Some(calls) => calls,
        None => Seq::empty(),
    }
}

/// The updates that a line of a stream gives. The tool calls are kept, since a
/// stream with tool calls ends in another way, and numbered by the counter.
pub fn handle_ollama_chunk(
    chunk: &OllamaStreamChunk,
    accumulated_tool_calls: &mut Vec<OllamaToolCall>,
    counter: &mut u64,
) -> (updates: Vec<ChatResponseUpdate>)
    ensures
        updates.deep_view() == chunk_updates(chunk@, *old(counter), old(accumulated_tool_calls)@.len() > 0),
        final(accumulated_tool_calls).deep_view() == old(accumulated_tool_calls).deep_view() + calls_of_message(
            chunk@.message,
        ),
        *final(counter) == count_after(*old(counter), call_count(chunk@.message)),
{
    let ghost count = *counter;
    let ghost had = accumulated_tool_calls.deep_view();
    let mut updates: Vec<ChatResponseUpdate> = Vec::new();
    assert(updates.deep_view() =~= Seq::empty());
    if !chunk.message.content.as_str().is_empty() {
        updates.push(ChatResponseUpdate::of_text(chunk.message.content.as_str()));
        assert(updates.deep_view() =~= seq![text_update(chunk.message.content@)]);
    }
    let ghost start = updates.deep_view();
    assert(had + Seq::<OllamaToolCallView>::empty() =~= had);
    if let Some(calls) = &chunk.message.tool_calls {
        let ghost views = calls.deep_view();
        let ghost all = Seq::new(
            views.len(),
            |i: int|
                call_update(
                    tool_call_id(views[i].name, count_after(count, i as nat)),
                    views[i].name,
                    rendered(views[i].arguments),
                ),
        );
        let mut i: usize = 0;
        assert(start + all.take(0) =~= start);
        assert(had + views.take(0) =~= had);
        while i < calls.len()
            invariant
                i <= calls@.len(),
                views == calls.deep_view(),
                all == Seq::new(
                    views.len(),
                    |i: int|
                        call_update(
                            tool_call_id(views[i].name, count_after(count, i as nat)),
                            views[i].name,
                            rendered(views[i].arguments),
                        ),
                ),
                *counter == count_after(count, i as nat),
                updates.deep_view() == start + all.take(i as int),
                accumulated_tool_calls.deep_view() == had + views.take(i as int),
            decreases calls@.len() - i,
        {
            let ghost before = updates.deep_view();
            let ghost kept = accumulated_tool_calls.deep_view();
            accumulated_tool_calls.push(calls[i].clone());
            assert(views[i as int] == calls@[i as int]@);
            assert(accumulated_tool_calls.deep_view() =~= kept.push(views[i as int]));
            assert(had + views.take(i + 1) =~= kept.push(views[i as int]));
            let id = generate_tool_call_id(calls[i].function.name.as_str(), counter);
            let arguments = calls[i].function.arguments.to_text();
            updates.push(
                ChatResponseUpdate::of_call(id.as_str(), calls[i].function.name.as_str(), arguments.as_str()),
            );
            assert(updates.deep_view() =~= before.push(all[i as int]));
            assert(start + all.take(i + 1) =~= before.push(all[i as int]));
            i += 1;
        }
        assert(all.take(i as int) =~= all);
        assert(views.take(i as int) =~= views);
    }
    if chunk.done {
        let has_calls = accumulated_tool_calls.len() > 0;
        assert(accumulated_tool_calls@.len() == accumulated_tool_calls.deep_view().len());
        assert(had.len() == old(accumulated_tool_calls)@.len());
        let finish = finish_of(&chunk.done_reason, has_calls);
        let usage = usage_from(chunk.prompt_eval_count, chunk.eval_count);
        let ghost before = updates.deep_view();
        updates.push(ChatResponseUpdate::of_end(Some(finish), usage));
        assert(updates.deep_view() =~= before.push(end_update(Some(finish), usage)));
    }
    updates
}

/// The error for a line of a stream that cannot be read.
pub fn chunk_error(message: &str) -> (error: AgentError)
    ensures
        error@ == unreadable(message@),
{
    AgentError::InvalidResponse(cat2("failed to parse Ollama stream chunk: ", message))
}

/// The error for a line of a stream that cannot be read.
pub open spec fn unreadable(message: Seq<char>) -> ErrorView {
    ErrorView::InvalidResponse("failed to parse Ollama stream chunk: "@ + message)
}

/// What has come out of a stream, whether it has stopped, and with which error: the
/// updates, the number of the next call and whether there were calls.
#[verifier::ext_equal]
pub struct OllamaStreamView {
    pub updates: Seq<UpdateView>,
    pub count: u64,
    pub had_calls: bool,
    pub stopped: bool,
    pub error: Option<ErrorView>,
}

/// A stream of which nothing has come.
pub open spec fn stream_start(count: u64, had_calls: bool) -> OllamaStreamView {
    OllamaStreamView { updates: Seq::empty(), count, had_calls, stopped: false, error: None }
}

/// The stream after a line, or after the rest that follows the last line, as it was read
/// or with the message of the error. It stops at the final chunk and at the rest. A line
/// that cannot be read fails the stream, and a rest that cannot be read is ignored. A
/// stream that has stopped takes nothing more.
pub open spec fn line_taken(
    stream: OllamaStreamView,
    line: Result<OllamaResponseView, Seq<char>>,
    is_rest: bool,
) -> OllamaStreamView {
    if stream.stopped {
        stream
    } else {
        match line {
            Ok(chunk) => OllamaStreamView {
                updates: stream.updates + chunk_updates(chunk, stream.count, stream.had_calls),
                count: count_after(stream.count, call_count(chunk.message)),
                had_calls: stream.had_calls || call_count(chunk.message) > 0,
                stopped: chunk.done || is_rest,
                error: None,
            },
            Err(message) => if is_rest {
                OllamaStreamView { stopped: true, ..stream }
            } else {
                OllamaStreamView { stopped: true, error: Some(unreadable(message)), ..stream }
            },
        }
    }
}

/// What a line that was read or not holds.
pub open spec fn line_view(line: Result<OllamaStreamChunk, String>) -> Result<OllamaResponseView, Seq<char>> {
    match line {
        Ok(chunk) => Ok(chunk@),
        Err(message) => Err(message@),
    }
}

/// Take in a line of a stream that goes on, or the rest that follows the last line. What
/// comes out is the updates and whether the stream stops, or the error that it stops with.
pub fn on_stream_line(
    line: Result<OllamaStreamChunk, String>,
    is_rest: bool,
    accumulated_tool_calls: &mut Vec<OllamaToolCall>,
    counter: &mut u64,
) -> (result: AgentResult<(Vec<ChatResponseUpdate>, bool)>)
    ensures
        ({
            let after = line_taken(
                stream_start(*old(counter), old(accumulated_tool_calls)@.len() > 0),
                line_view(line),
                is_rest,
            );
            &&& *final(counter) == after.count
            &&& (final(accumulated_tool_calls)@.len() > 0) == after.had_calls
            &&& match after.error {
                Some(error) => result is Err && result->Err_0@ == error,
                None => {
                    &&& result is Ok
                    &&& result->Ok_0.0.deep_view() == after.updates
                    &&& result->Ok_0.1 == after.stopped
                },
            }
        }),
        final(accumulated_tool_calls).deep_view() == match line {
            Ok(chunk) => old(accumulated_tool_calls).deep_view() + calls_of_message(chunk@.message),
            Err(_) => old(accumulated_tool_calls).deep_view(),
        },
{
    let ghost empty = Seq::<UpdateView>::empty();
    match line {
        Ok(chunk) => {
            let updates = handle_ollama_chunk(&chunk, accumulated_tool_calls, counter);
            assert(updates.deep_view() =~= empty + updates.deep_view());
            assert(accumulated_tool_calls@.len() == accumulated_tool_calls.deep_view().len());
            assert(old(accumulated_tool_calls)@.len() == old(accumulated_tool_calls).deep_view().len());
            Ok((updates, chunk.done || is_rest))
        },
        Err(message) => if is_rest {
            let updates: Vec<ChatResponseUpdate> = Vec::new();
            assert(updates.deep_view() =~= empty);
            Ok((updates, true))
        } else {
            Err(chunk_error(message.as_str()))
        },
    }
}

/// The stream after several lines.
pub open spec fn lines_taken(
    stream: OllamaStreamView,
    lines: Seq<Result<OllamaResponseView, Seq<char>>>,
) -> OllamaStreamView
    decreases lines.len(),
{
    if lines.len() == 0 {
        stream
    } else {
        line_taken(lines_taken(stream, lines.drop_last()), lines.last(), false)
    }
}

/// The number of tool calls in chunks.
pub open spec fn calls_among(chunks: Seq<OllamaResponseView>) -> nat
    decreases chunks.len(),
{
    if chunks.len() == 0 {
        0
    } else {
        calls_among(chunks.drop_last()) + call_count(chunks.last().message)
    }
}

/// The updates of chunks one after the other, where the calls are numbered from `count` on.
pub open spec fn updates_among(chunks: Seq<OllamaResponseView>, count: u64) -> Seq<UpdateView>
    decreases chunks.len(),
{
    if chunks.len() == 0 {
        Seq::empty()
    } else {
        let before = chunks.drop_last();
        updates_among(before, count) + chunk_updates(
            chunks.last(),
            count_after(count, calls_among(before)),
            calls_among(before) > 0,
        )
    }
}

/// Lines that were all read.
pub open spec fn as_lines(chunks: Seq<OllamaResponseView>) -> Seq<Result<OllamaResponseView, Seq<char>>> {
    Seq::new(chunks.len(), |i: int| Ok(chunks[i]))
}

proof fn lemma_count_after_more(count: u64, a: nat, b: nat)
    ensures
        count_after(count_after(count, a), b) == count_after(count, a + b),
    decreases b,
{
    if b > 0 {
        lemma_count_after_more(count, a, (b - 1) as nat);
    }
}

proof fn lemma_stream_goes_on(count: u64, chunks: Seq<OllamaResponseView>)
    requires
        forall|i: int| 0 <= i < chunks.len() ==> !(#[trigger] chunks[i]).done,
    ensures
        lines_taken(stream_start(count, false), as_lines(chunks)) == (OllamaStreamView {
            updates: updates_among(chunks, count),
            count: count_after(count, calls_among(chunks)),
            had_calls: calls_among(chunks) > 0,
            stopped: false,
            error: None,
        }),
    decreases chunks.len(),
{
    if chunks.len() > 0 {
        let before = chunks.drop_last();
        assert forall|i: int| 0 <= i < before.len() implies !(#[trigger] before[i]).done by {
            assert(before[i] == chunks[i]);
        }
        lemma_stream_goes_on(count, before);
        assert(as_lines(chunks).drop_last() =~= as_lines(before));
        assert(!chunks[chunks.len() - 1].done);
        lemma_count_after_more(count, calls_among(before), call_count(chunks.last().message));
    }
}

proof fn lemma_stopped_stream(stream: OllamaStreamView, lines: Seq<Result<OllamaResponseView, Seq<char>>>, k: int)
    requires
        0 <= k <= lines.len(),
        lines_taken(stream, lines.take(k)).stopped,
    ensures
        lines_taken(stream, lines) == lines_taken(stream, lines.take(k)),
    decreases lines.len(),
{
    if k == lines.len() {
        assert(lines.take(k) =~= lines);
    } else {
        assert(lines.drop_last().take(k) =~= lines.take(k));
        lemma_stopped_stream(stream, lines.drop_last(), k);
    }
}

/// A stream ends at its final chunk: the updates of all lines up to and with it come
/// out, in order, and nothing of what follows, be it lines or a rest.
pub proof fn law_stream_ends_at_its_final_chunk(
    count: u64,
    chunks: Seq<OllamaResponseView>,
    last: OllamaResponseView,
    more: Seq<Result<OllamaResponseView, Seq<char>>>,
    rest: Result<OllamaResponseView, Seq<char>>,
)
    requires
        forall|i: int| 0 <= i < chunks.len() ==> !(#[trigger] chunks[i]).done,
        last.done,
    ensures
        ({
            let stream = lines_taken(stream_start(count, false), as_lines(chunks.push(last)) + more);
            &&& stream.updates == updates_among(chunks.push(last), count)
            &&& stream.stopped
            &&& stream.error is None
            &&& line_taken(stream, rest, true) == stream
        }),
{
    let all = as_lines(chunks.push(last)) + more;
    let k = chunks.len() + 1;
    lemma_stream_goes_on(count, chunks);
    assert(all.take(k as int) =~= as_lines(chunks.push(last)));
    assert(as_lines(chunks.push(last)).drop_last() =~= as_lines(chunks));
    assert(chunks.push(last).drop_last() =~= chunks);
    lemma_stopped_stream(stream_start(count, false), all, k as int);
}

/// A line that cannot be read fails a stream: the updates of all lines before it come
/// out, then its error, and nothing of what follows.
pub proof fn law_unreadable_line_fails_a_stream(
    count: u64,
    chunks: Seq<OllamaResponseView>,
    message: Seq<char>,
    more: Seq<Result<OllamaResponseView, Seq<char>>>,
    rest: Result<OllamaResponseView, Seq<char>>,
)
    requires
        forall|i: int| 0 <= i < chunks.len() ==> !(#[trigger] chunks[i]).done,
    ensures
        ({
            let stream = lines_taken(stream_start(count, false), as_lines(chunks).push(Err(message)) + more);
            &&& stream.updates == updates_among(chunks, count)
            &&& stream.stopped
            &&& stream.error == Some(unreadable(message))
            &&& line_taken(stream, rest, true) == stream
        }),
{
    let read = as_lines(chunks).push(Err(message));
    let all = read + more;
    lemma_stream_goes_on(count, chunks);
    assert(all.take(read.len() as int) =~= read);
    assert(read.drop_last() =~= as_lines(chunks));
    lemma_stopped_stream(stream_start(count, false), all, read.len() as int);
}

/// A stream without a final chunk brings the updates of all its lines, then those of its
/// rest if that can be read.
pub proof fn law_rest_ends_a_stream(
    count: u64,
    chunks: Seq<OllamaResponseView>,
    rest: Result<OllamaResponseView, Seq<char>>,
)
    requires
        forall|i: int| 0 <= i < chunks.len() ==> !(#[trigger] chunks[i]).done,
    ensures
        ({
            let stream = line_taken(lines_taken(stream_start(count, false), as_lines(chunks)), rest, true);
            &&& stream.updates == match rest {
                Ok(chunk) => updates_among(chunks.push(chunk), count),
                Err(_) => updates_among(chunks, count),
            }
            &&& stream.stopped
            &&& stream.error is None
        }),
{
    lemma_stream_goes_on(count, chunks);
    match rest {
        Ok(chunk) => {
            assert(chunks.push(chunk).drop_last() =~= chunks);
        },
        Err(_) => {},
    }
}

/// An id tells the tool and the number of its call.
proof fn lemma_call_id_is_unique(first: Seq<char>, a: u64, second: Seq<char>, b: u64)
    requires
        tool_call_id(first, a) == tool_call_id(second, b),
    ensures
        first == second,
        a == b,
{
    let id = tool_call_id(first, a);
    let x = decimal(a as nat);
    let y = decimal(b as nat);
    reveal_strlit("ollama_");
    reveal_strlit("_");
    lemma_decimal_digits(a as nat);
    lemma_decimal_digits(b as nat);
    assert(id[id.len() - x.len() - 1] == '_');
    assert(tool_call_id(second, b)[id.len() - y.len() - 1] == '_');
    if x.len() < y.len() {
        assert(tool_call_id(second, b)[id.len() - x.len() - 1] == y[y.len() - x.len() - 1]);
    }
    if y.len() < x.len() {
        assert(id[id.len() - y.len() - 1] == x[x.len() - y.len() - 1]);
    }
    assert(id.skip(id.len() - x.len()) =~= x);
    assert(tool_call_id(second, b).skip(id.len() - x.len()) =~= y);
    if a != b {
        lemma_decimal_differs(a as nat, b as nat);
    }
    assert(id.subrange(7, 7 + first.len() as int) =~= first);
    assert(tool_call_id(second, b).subrange(7, 7 + second.len() as int) =~= second);
}

/// The ids that calls get differ from each other until the counter starts over, be
/// the tools the same or not; and ids of two tools always differ.
pub proof fn law_call_ids_differ(first: Seq<char>, second: Seq<char>, count: u64, i: nat, j: nat)
    requires
        i <= j,
    ensures
        (i < j && j - i < 0x1_0000_0000_0000_0000) || first != second ==> tool_call_id(first, count_after(count, i)) != tool_call_id(
            second,
            count_after(count, j),
        ),
{
    let a = count_after(count, i);
    let b = count_after(count, j);
    if i < j && j - i < 0x1_0000_0000_0000_0000 {
        law_counts_differ(count, i, j);
    }
    if tool_call_id(first, a) == tool_call_id(second, b) {
        lemma_call_id_is_unique(first, a, second, b);
    }
}

// ---------------------------------------------------------------------------
// What the client is for
// ---------------------------------------------------------------------------

/// What goes on the wire of a message's blocks: every tool result as a tool's message
/// that says it, and every call by its name with its arguments, in the order of the
/// blocks.
pub proof fn law_calls_and_results_are_sent(first: Seq<ContentView>, block: ContentView)
    ensures
        result_messages(Seq::empty()).len() == 0,
        wire_calls(Seq::empty()).len() == 0,
        block is ToolResult ==> {
            let sent = result_messages(first.push(block));
            &&& sent.len() == result_messages(first).len() + 1
            &&& sent.drop_last() == result_messages(first)
            &&& sent.last().role == "tool"@
            &&& sent.last().content == block->content
            &&& sent.last().tool_calls is None
        },
        !(block is ToolResult) ==> result_messages(first.push(block)) == result_messages(first),
        block is ToolCall ==> {
            let sent = wire_calls(first.push(block));
            &&& sent.len() == wire_calls(first).len() + 1
            &&& sent.drop_last() == wire_calls(first)
            &&& sent.last().name == block->name
            &&& sent.last().arguments == block->arguments
        },
        !(block is ToolCall) ==> wire_calls(first.push(block)) == wire_calls(first),
{
    assert(first.push(block).drop_last() =~= first);
    if block is ToolResult {
        assert(result_messages(first.push(block)).drop_last() =~= result_messages(first));
    }
    if block is ToolCall {
        assert(wire_calls(first.push(block)).drop_last() =~= wire_calls(first));
    }
}

/// A message that is no tool's becomes one message in its role, which says its text and
/// makes its calls. A tool's message becomes one for each result, or an empty one. A
/// conversation is sent message by message.
pub proof fn law_conversation_is_sent(first: Seq<MessageView>, message: MessageView)
    ensures
        message.role != Role::Tool ==> {
            let sent = ollama_messages(message);
            &&& sent.len() == 1
            &&& sent[0].role == match message.role {
                Role::System => "system"@,
                Role::User => "user"@,
                Role::Assistant => "assistant"@,
                Role::Tool => "tool"@,
            }
            &&& sent[0].content == text_of(message.content)
            &&& wire_calls(message.content).len() == 0 ==> sent[0].tool_calls is None
            &&& wire_calls(message.content).len() > 0 ==> sent[0].tool_calls == Some(wire_calls(message.content))
        },
        message.role == Role::Tool && result_messages(message.content).len() > 0 ==> ollama_messages(message)
            == result_messages(message.content),
        message.role == Role::Tool && result_messages(message.content).len() == 0 ==> {
            let sent = ollama_messages(message);
            sent.len() == 1 && sent[0].role == "tool"@ && sent[0].content.len() == 0 && sent[0].tool_calls is None
        },
        ollama_conversation(Seq::empty()).len() == 0,
        ollama_conversation(first.push(message)) == ollama_conversation(first) + ollama_messages(message),
{
    assert(first.push(message).drop_last() =~= first);
}

/// A request asks the model of the options, or the configured one, and sends the
/// conversation, the tools and the options that are set; options that set nothing are
/// not sent at all.
pub proof fn law_request_follows_the_options(
    model: Seq<char>,
    messages: Seq<MessageView>,
    options: ChatOptionsView,
    stream: bool,
)
    ensures
        ({
            let body = ollama_request(model, messages, options, stream);
            let nothing = options.temperature is None && options.top_p is None && options.top_k is None
                && options.seed is None && options.max_tokens is None && options.stop_sequences.len() == 0
                && options.frequency_penalty is None && options.presence_penalty is None;
            &&& options.model is Some ==> body.model == options.model->0
            &&& options.model is None ==> body.model == model
            &&& body.messages == ollama_conversation(messages)
            &&& body.stream == stream
            &&& body.tools == wire_tools(options.tools)
            &&& body.options is None <==> nothing
            &&& body.options is Some ==> {
                let sent = body.options->0;
                &&& sent.temperature == options.temperature
                &&& sent.top_p == options.top_p
                &&& sent.top_k == options.top_k
                &&& sent.frequency_penalty == options.frequency_penalty
                &&& sent.presence_penalty == options.presence_penalty
                &&& sent.seed is Some <==> options.seed is Some
                &&& options.seed is Some && i32::MIN <= options.seed->0 <= i32::MAX ==> sent.seed->0
                    == options.seed->0
                &&& sent.num_predict is Some <==> options.max_tokens is Some
                &&& options.max_tokens is Some && options.max_tokens->0 <= i32::MAX ==> sent.num_predict->0
                    == options.max_tokens->0
                &&& options.stop_sequences.len() == 0 ==> sent.stop is None
                &&& options.stop_sequences.len() > 0 ==> sent.stop == Some(options.stop_sequences)
            }
        }),
{
}

/// The id of a call names the tool and numbers the call.
pub proof fn law_call_ids(name: Seq<char>, count: u64)
    ensures
        tool_call_id(name, count) == "ollama_"@ + name + "_"@ + decimal(count as nat),
{
}

/// An answer says its text and makes its calls, in order, each by its name with its
/// arguments and under an id of its own.
pub proof fn law_answer_is_read(message: OllamaMessageView, count: u64)
    ensures
        ({
            let blocks = answer_blocks(message, count);
            let calls = match message.tool_calls {
                Some(calls) => calls,
                None => Seq::empty(),
            };
            &&& call_count(message) == calls.len()
            &&& calls_of_message(message) == calls
            &&& text_of(blocks) == message.content
            &&& calls_of(blocks).len() == calls.len()
            &&& forall|i: int|
                #![trigger calls[i]]
                0 <= i < calls.len() ==> {
                    &&& calls_of(blocks)[i].0 == tool_call_id(calls[i].name, count_after(count, i as nat))
                    &&& calls_of(blocks)[i].1 == calls[i].name
                    &&& calls_of(blocks)[i].2 == calls[i].arguments
                }
            &&& blocks.len() == calls.len() + if message.content.len() > 0 { 1int } else { 0int }
            &&& message.content.len() > 0 ==> blocks[0] == (ContentView::Text { text: message.content })
        }),
{
    let calls = match message.tool_calls {
        Some(calls) => calls,
        None => Seq::empty(),
    };
    let text = if message.content.len() > 0 {
        seq![ContentView::Text { text: message.content }]
    } else {
        Seq::empty()
    };
    let tail = numbered_blocks(calls, count);
    assert(answer_blocks(message, count) =~= text + tail);
    lemma_numbered_blocks(calls, count);
    law_text_of_blocks(text, ContentView::Text { text: message.content }, tail);
    law_calls_of_blocks(text, ContentView::Text { text: message.content }, tail);
    assert(text_of(text) =~= message.content);
    assert(calls_of(text).len() == 0);
    assert(message.content + Seq::<char>::empty() =~= message.content);
    assert(calls_of(text) + calls_of(tail) =~= calls_of(tail));
}

spec fn numbered_blocks(calls: Seq<OllamaToolCallView>, count: u64) -> Seq<ContentView> {
    Seq::new(
        calls.len(),
        |i: int|
            ContentView::ToolCall {
                id: tool_call_id(calls[i].name, count_after(count, i as nat)),
                name: calls[i].name,
                arguments: calls[i].arguments,
            },
    )
}

proof fn lemma_numbered_blocks(calls: Seq<OllamaToolCallView>, count: u64)
    ensures
        text_of(numbered_blocks(calls, count)) == Seq::<char>::empty(),
        calls_of(numbered_blocks(calls, count)).len() == calls.len(),
        forall|i: int|
            #![trigger calls[i]]
            0 <= i < calls.len() ==> calls_of(numbered_blocks(calls, count))[i] == (
                tool_call_id(calls[i].name, count_after(count, i as nat)),
                calls[i].name,
                calls[i].arguments,
            ),
    decreases calls.len(),
{
    let blocks = numbered_blocks(calls, count);
    if calls.len() > 0 {
        let rest = calls.drop_last();
        lemma_numbered_blocks(rest, count);
        assert(blocks.drop_last() =~= numbered_blocks(rest, count));
        assert forall|i: int| #![trigger calls[i]] 0 <= i < calls.len() implies calls_of(blocks)[i] == (
            tool_call_id(calls[i].name, count_after(count, i as nat)),
            calls[i].name,
            calls[i].arguments,
        ) by {
            if i < rest.len() {
                assert(rest[i] == calls[i]);
            }
        }
    }
}

/// An answer that is done has stopped at the limit, if it says so, or to use tools, if
/// it made calls and says nothing else, or by itself. The usage comes only as a whole.
pub proof fn law_answers_end(reason: Option<Seq<char>>, has_calls: bool, input: Option<u32>, output: Option<u32>)
    ensures
        done_reason(Some("length"@), has_calls) == FinishReason::MaxTokens,
        done_reason(None, true) == FinishReason::ToolUse,
        done_reason(Some("stop"@), true) == FinishReason::ToolUse,
        !has_calls && reason != Some("length"@) ==> done_reason(reason, has_calls) == FinishReason::Stop,
        reason is Some && reason->0 != "length"@ && reason->0 != "stop"@ ==> done_reason(reason, has_calls)
            == FinishReason::Stop,
        input is Some && output is Some ==> usage_of(input, output) is Some && usage_of(input, output)->0.input_tokens
            == input->0 && usage_of(input, output)->0.output_tokens == output->0,
        input is None || output is None ==> usage_of(input, output) is None,
{
    reveal_strlit("length");
    reveal_strlit("stop");
    assert("length"@.len() != "stop"@.len());
}

/// A response is read as one message of the assistant, which is done only where it says
/// so.
pub proof fn law_response_is_read(response: OllamaResponseView, count: u64)
    ensures
        ({
            let read = chat_response_of(response, count);
            &&& read.messages.len() == 1
            &&& read.messages[0].role == Role::Assistant
            &&& read.messages[0].content == answer_blocks(response.message, count)
            &&& read.messages[0].name is None
            &&& read.response_id is None
            &&& !response.done ==> read.finish_reason is None
            &&& response.done ==> read.finish_reason == Some(
                done_reason(response.done_reason, calls_of_message(response.message).len() > 0),
            )
            &&& read.usage == usage_of(response.prompt_eval_count, response.eval_count)
        }),
{
}

/// A line of a stream passes on its text, unless that is empty, then each call, by its
/// name with its arguments as JSON text and under the id of its number, and at the end
/// why it stopped and what it used.
pub proof fn law_lines_are_passed_on(chunk: OllamaResponseView, count: u64, had_calls: bool)
    ensures
        ({
            let updates = chunk_updates(chunk, count, had_calls);
            let calls = match chunk.message.tool_calls {
                Some(calls) => calls,
                None => Seq::empty(),
            };
            let t: int = if chunk.message.content.len() > 0 { 1 } else { 0 };
            let n = calls.len() as int;
            &&& updates.len() == t + n + if chunk.done { 1int } else { 0int }
            &&& t == 1 ==> updates[0].text == Some(chunk.message.content) && updates[0].tool_call is None
            &&& forall|k: int|
                t <= k < t + n ==> {
                    &&& (#[trigger] updates[k]).tool_call is Some
                    &&& updates[k].tool_call->0.id == tool_call_id(calls[k - t].name, count_after(count, (k - t) as nat))
                    &&& updates[k].tool_call->0.name == calls[k - t].name
                    &&& updates[k].tool_call->0.arguments_delta == rendered(calls[k - t].arguments)
                    &&& updates[k].text is None
                }
            &&& chunk.done ==> {
                &&& updates.last().finish_reason == Some(done_reason(chunk.done_reason, had_calls || n > 0))
                &&& updates.last().usage == usage_of(chunk.prompt_eval_count, chunk.eval_count)
                &&& updates.last().text is None && updates.last().tool_call is None
            }
        }),
{
}

/// A line that is read adds its updates and numbers its calls on; the stream stops at a
/// final chunk and at the rest. A line that cannot be read stops it with an error that
/// says why, and a rest that cannot be read without one. A stream starts with nothing.
pub proof fn law_stream_takes_lines(
    stream: OllamaStreamView,
    chunk: OllamaResponseView,
    message: Seq<char>,
    is_rest: bool,
    count: u64,
    had_calls: bool,
)
    requires
        !stream.stopped,
    ensures
        ({
            let after = line_taken(stream, Ok(chunk), is_rest);
            let calls = calls_of_message(chunk.message).len();
            &&& after.updates == stream.updates + chunk_updates(chunk, stream.count, stream.had_calls)
            &&& after.count == count_after(stream.count, calls)
            &&& after.had_calls == (stream.had_calls || calls > 0)
            &&& after.stopped == (chunk.done || is_rest)
            &&& after.error is None
        }),
        line_taken(stream, Err(message), false).stopped,
        line_taken(stream, Err(message), false).error == Some(
            ErrorView::InvalidResponse("failed to parse Ollama stream chunk: "@ + message),
        ),
        line_taken(stream, Err(message), false).updates == stream.updates,
        line_taken(stream, Err(message), true) == (OllamaStreamView { stopped: true, ..stream }),
        stream_start(count, had_calls).updates.len() == 0,
        stream_start(count, had_calls).count == count,
        stream_start(count, had_calls).had_calls == had_calls,
        !stream_start(count, had_calls).stopped,
        stream_start(count, had_calls).error is None,
{
}

/// The models of what goes over the wire have all its fields.
pub proof fn law_wire_models_are_complete(
    call: OllamaToolCall,
    message: OllamaMessage,
    options: OllamaOptions,
    request: OllamaRequest,
    response: OllamaResponse,
)
    ensures
        call@.name == call.function.name@,
        call@.arguments == call.function.arguments@,
        message@.role == message.role@,
        message@.content == message.content@,
        message@.tool_calls == message.tool_calls.deep_view(),
        options@.temperature == options.temperature,
        options@.top_p == options.top_p,
        options@.top_k == options.top_k,
        options@.seed == options.seed,
        options@.num_predict == options.num_predict,
        options@.stop == options.stop.deep_view(),
        options@.frequency_penalty == options.frequency_penalty,
        options@.presence_penalty == options.presence_penalty,
        request@.model == request.model@,
        request@.messages == request.messages.deep_view(),
        request@.stream == request.stream,
        request@.tools == request.tools.deep_view(),
        request@.options == request.options.deep_view(),
        response@.message == response.message@,
        response@.done == response.done,
        response@.eval_count == response.eval_count,
        response@.prompt_eval_count == response.prompt_eval_count,
        response@.done_reason == response.done_reason.deep_view(),
{
}

} // verus!
