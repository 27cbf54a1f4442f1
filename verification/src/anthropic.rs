//! The Anthropic Messages API: requests, responses and stream events.

use vstd::prelude::*;

use crate::debug::{duration, duration_text, quote, quoted, record, record_text};
use crate::error::{AgentError, AgentResult, ErrorView};
use crate::http::{
    is_header_value, json_content_type, missing_variable, plain_header, required_variable, secret_header,
    valid_header_value, variable_or, Header, HeaderView,
};
use crate::json::{Json, JsonObject, JsonView};
use crate::secret::SecretString;
use crate::table::IndexTable;
use crate::text::{cat2, cat3, decimal, decimal_of, join, joined, str_eq};
use crate::tools::{ToolDefinition, ToolDefinitionView};
use crate::types::{
    bare_message, call_update, clone_opt_string, clone_strings, end_update, law_updates_carry_one_thing, text_update, ChatOptions, ChatOptionsView,
    ChatResponse, ChatResponseUpdate, ChatResponseView, Content, ContentView, FinishReason, Message, MessageView, Role,
    ToolChoice, ToolChoiceView, UpdateView, Usage, F32,
};

verus! {

/// Overall request timeout, in milliseconds.
pub const DEFAULT_REQUEST_TIMEOUT: u64 = 120000;

/// TCP connect timeout, in milliseconds.
pub const DEFAULT_CONNECT_TIMEOUT: u64 = 10000;

/// Maximum tokens to generate unless the options say otherwise.
pub const DEFAULT_MAX_TOKENS: u32 = 4096;

/// Configuration for the Anthropic chat client.
pub struct AnthropicConfig {
    /// Anthropic API key.
    pub api_key: SecretString,
    /// Model identifier.
    pub model: String,
    /// Maximum tokens to generate.
    pub max_tokens: u32,
    /// Base URL for the API.
    pub base_url: String,
    /// Overall request timeout, in milliseconds.
    pub request_timeout: u64,
    /// TCP connect timeout, in milliseconds.
    pub connect_timeout: u64,
    /// Value of the `anthropic-version` header.
    pub api_version: String,
}

impl AnthropicConfig {
    /// Create a config from the values of the environment variables
    /// `ANTHROPIC_API_KEY` (required) and `ANTHROPIC_MODEL`, in place of which the
    /// default model is taken if it is not set.
    pub fn from_env(api_key: Option<String>, model: Option<String>, default_model: &str) -> (result: AgentResult<Self>)
        ensures
            match result {
                Ok(config) => {
                    &&& api_key.deep_view() == Some(config.api_key@)
                    &&& config.model@ == match model.deep_view() {
                        Some(text) => text,
                        None => default_model@,
                    }
                    &&& config.max_tokens == DEFAULT_MAX_TOKENS == 4096
                    &&& config.base_url@ == "https://api.anthropic.com"@
                    &&& config.request_timeout == DEFAULT_REQUEST_TIMEOUT == 120000
                    &&& config.connect_timeout == DEFAULT_CONNECT_TIMEOUT == 10000
                    &&& config.api_version@ == "2023-06-01"@
                },
                Err(error) => api_key is None && error@ == missing_variable("ANTHROPIC_API_KEY"@),
            },
    {
        let key = match required_variable("ANTHROPIC_API_KEY", api_key) {
            Ok(key) => key,
            Err(error) => return Err(error),
        };
        Ok(
            AnthropicConfig {
                api_key: SecretString::new(key.as_str()),
                model: variable_or(model, default_model),
                max_tokens: DEFAULT_MAX_TOKENS,
                base_url: "https://api.anthropic.com".to_owned(),
                request_timeout: DEFAULT_REQUEST_TIMEOUT,
                connect_timeout: DEFAULT_CONNECT_TIMEOUT,
                api_version: "2023-06-01".to_owned(),
            },
        )
    }

    /// The URL that requests are sent to.
    pub fn messages_url(&self) -> (url: String)
        ensures
            url@ == self.base_url@ + "/v1/messages"@,
    {
        cat2(self.base_url.as_str(), "/v1/messages")
    }

    /// What a log shows of the configuration: everything but the key.
    pub fn debug_text(&self) -> (text: String)
        ensures
            text@ == record(
                "AnthropicConfig"@,
                seq![
                    ("api_key"@, "SecretString([REDACTED])"@),
                    ("model"@, quoted(self.model@)),
                    ("max_tokens"@, decimal(self.max_tokens as nat)),
                    ("base_url"@, quoted(self.base_url@)),
                    ("request_timeout"@, duration(self.request_timeout as nat)),
                    ("connect_timeout"@, duration(self.connect_timeout as nat)),
                    ("api_version"@, quoted(self.api_version@)),
                ],
            ),
    {
        let mut fields: Vec<(&str, String)> = Vec::new();
        fields.push(("api_key", self.api_key.debug_text()));
        fields.push(("model", quote(self.model.as_str())));
        fields.push(("max_tokens", decimal_of(self.max_tokens as u64)));
        fields.push(("base_url", quote(self.base_url.as_str())));
        fields.push(("request_timeout", duration_text(self.request_timeout)));
        fields.push(("connect_timeout", duration_text(self.connect_timeout)));
        fields.push(("api_version", quote(self.api_version.as_str())));
        assert(fields.deep_view() =~= seq![
            ("api_key"@, "SecretString([REDACTED])"@),
            ("model"@, quoted(self.model@)),
            ("max_tokens"@, decimal(self.max_tokens as nat)),
            ("base_url"@, quoted(self.base_url@)),
            ("request_timeout"@, duration(self.request_timeout as nat)),
            ("connect_timeout"@, duration(self.connect_timeout as nat)),
            ("api_version"@, quoted(self.api_version@)),
        ]);
        record_text("AnthropicConfig", &fields)
    }
}

// ---------------------------------------------------------------------------
// Wire types
// ---------------------------------------------------------------------------

/// A content block on the wire.
#[derive(Debug)]
pub enum AnthropicContent {
    Text { text: String },
    ToolUse { id: String, name: String, input: Json },
    ToolResult { tool_use_id: String, content: String },
}

/// What a content block on the wire holds.
#[verifier::ext_equal]
pub enum AnthropicContentView {
    Text { text: Seq<char> },
    ToolUse { id: Seq<char>, name: Seq<char>, input: JsonView },
    ToolResult { tool_use_id: Seq<char>, content: Seq<char> },
}

impl View for AnthropicContent {
    type V = AnthropicContentView;

    open spec fn view(&self) -> AnthropicContentView {
        match self {
            AnthropicContent::Text { text } => AnthropicContentView::Text { text: text@ },
            AnthropicContent::ToolUse { id, name, input } => AnthropicContentView::ToolUse {
                id: id@,
                name: name@,
                input: input@,
            },
            AnthropicContent::ToolResult { tool_use_id, content } => AnthropicContentView::ToolResult {
                tool_use_id: tool_use_id@,
                content: content@,
            },
        }
    }
}

impl DeepView for AnthropicContent {
    type V = AnthropicContentView;

    open spec fn deep_view(&self) -> AnthropicContentView {
        self@
    }
}

/// A message on the wire.
#[derive(Debug)]
pub struct AnthropicMessage {
    pub role: String,
    pub content: Vec<AnthropicContent>,
}

/// What a message on the wire holds.
#[verifier::ext_equal]
pub struct AnthropicMessageView {
    pub role: Seq<char>,
    pub content: Seq<AnthropicContentView>,
}

impl View for AnthropicMessage {
    type V = AnthropicMessageView;

    open spec fn view(&self) -> AnthropicMessageView {
        AnthropicMessageView { role: self.role@, content: self.content.deep_view() }
    }
}

impl DeepView for AnthropicMessage {
    type V = AnthropicMessageView;

    open spec fn deep_view(&self) -> AnthropicMessageView {
        self@
    }
}

/// A tool on the wire.
#[derive(Debug)]
pub struct AnthropicTool {
    pub name: String,
    pub description: String,
    pub input_schema: Json,
}

/// What a tool on the wire holds.
#[verifier::ext_equal]
pub struct AnthropicToolView {
    pub name: Seq<char>,
    pub description: Seq<char>,
    pub input_schema: JsonView,
}

impl View for AnthropicTool {
    type V = AnthropicToolView;

    open spec fn view(&self) -> AnthropicToolView {
        AnthropicToolView { name: self.name@, description: self.description@, input_schema: self.input_schema@ }
    }
}

impl DeepView for AnthropicTool {
    type V = AnthropicToolView;

    open spec fn deep_view(&self) -> AnthropicToolView {
        self@
    }
}

/// The body of a request. What is `None` is left out.
#[derive(Debug)]
pub struct AnthropicRequest {
    pub model: String,
    pub max_tokens: u32,
    pub system: Option<String>,
    pub messages: Vec<AnthropicMessage>,
    pub tools: Option<Vec<AnthropicTool>>,
    pub tool_choice: Option<Json>,
    pub temperature: Option<F32>,
    pub top_p: Option<F32>,
    pub top_k: Option<u32>,
    /// The user identifier in the metadata.
    pub user_id: Option<String>,
    pub stop_sequences: Option<Vec<String>>,
    pub stream: Option<bool>,
}

/// What the body of a request holds.
#[verifier::ext_equal]
pub struct AnthropicRequestView {
    pub model: Seq<char>,
    pub max_tokens: u32,
    pub system: Option<Seq<char>>,
    pub messages: Seq<AnthropicMessageView>,
    pub tools: Option<Seq<AnthropicToolView>>,
    pub tool_choice: Option<JsonView>,
    pub temperature: Option<F32>,
    pub top_p: Option<F32>,
    pub top_k: Option<u32>,
    pub user_id: Option<Seq<char>>,
    pub stop_sequences: Option<Seq<Seq<char>>>,
    pub stream: Option<bool>,
}

impl View for AnthropicRequest {
    type V = AnthropicRequestView;

    open spec fn view(&self) -> AnthropicRequestView {
        AnthropicRequestView {
            model: self.model@,
            max_tokens: self.max_tokens,
            system: self.system.deep_view(),
            messages: self.messages.deep_view(),
            tools: self.tools.deep_view(),
            tool_choice: self.tool_choice.deep_view(),
            temperature: self.temperature,
            top_p: self.top_p,
            top_k: self.top_k,
            user_id: self.user_id.deep_view(),
            stop_sequences: self.stop_sequences.deep_view(),
            stream: self.stream,
        }
    }
}

/// The usage in a response.
#[derive(Debug, Clone, Copy)]
pub struct AnthropicUsage {
    pub input_tokens: u32,
    pub output_tokens: u32,
}

/// The body of a response.
#[derive(Debug)]
pub struct AnthropicResponse {
    pub id: String,
    pub content: Vec<AnthropicContent>,
    pub stop_reason: Option<String>,
    pub usage: Option<AnthropicUsage>,
}

// ---------------------------------------------------------------------------
// Requests
// ---------------------------------------------------------------------------

/// The role of a message on the wire: tool results are sent by the user.
pub open spec fn wire_role(role: Role) -> Seq<char> {
    match role {
        Role::Assistant => "assistant"@,
        _ => "user"@,
    }
}

/// A block on the wire. Binary data and references are sent as a note.
pub open spec fn wire_block(block: ContentView) -> AnthropicContentView {
    match block {
        ContentView::Text { text } => AnthropicContentView::Text { text },
        ContentView::ToolCall { id, name, arguments } => AnthropicContentView::ToolUse { id, name, input: arguments },
        ContentView::ToolResult { tool_call_id, content } => AnthropicContentView::ToolResult {
            tool_use_id: tool_call_id,
            content,
        },
        ContentView::Data { media_type, .. } => AnthropicContentView::Text {
            text: "[binary data: "@ + media_type + "]"@,
        },
        ContentView::Uri { uri, .. } => AnthropicContentView::Text { text: "[uri: "@ + uri + "]"@ },
    }
}

/// Blocks on the wire.
pub open spec fn wire_blocks(content: Seq<ContentView>) -> Seq<AnthropicContentView> {
    Seq::new(content.len(), |i: int| wire_block(content[i]))
}

/// A message on the wire.
pub open spec fn wire_message(message: MessageView) -> AnthropicMessageView {
    AnthropicMessageView { role: wire_role(message.role), content: wire_blocks(message.content) }
}

/// The messages on the wire: system messages are left out, and messages of one
/// role that follow each other are put together.
pub open spec fn wire_messages(messages: Seq<MessageView>) -> Seq<AnthropicMessageView>
    decreases messages.len(),
{
    if messages.len() == 0 {
        Seq::empty()
    } else {
        let before = wire_messages(messages.drop_last());
        let message = wire_message(messages.last());
        if messages.last().role == Role::System {
            before
        } else if before.len() > 0 && before.last().role == message.role {
            before.drop_last().push(
                AnthropicMessageView { role: message.role, content: before.last().content + message.content },
            )
        } else {
            before.push(message)
        }
    }
}

/// The texts of the text blocks, one by one.
pub open spec fn text_blocks(content: Seq<ContentView>) -> Seq<Seq<char>>
    decreases content.len(),
{
    if content.len() == 0 {
        Seq::empty()
    } else {
        match content.last() {
            ContentView::Text { text } => text_blocks(content.drop_last()).push(text),
            _ => text_blocks(content.drop_last()),
        }
    }
}

/// The texts of the system messages, one by one.
pub open spec fn system_texts(messages: Seq<MessageView>) -> Seq<Seq<char>>
    decreases messages.len(),
{
    if messages.len() == 0 {
        Seq::empty()
    } else if messages.last().role == Role::System {
        system_texts(messages.drop_last()) + text_blocks(messages.last().content)
    } else {
        system_texts(messages.drop_last())
    }
}

/// The system prompt: the texts of the system messages with blank lines between them.
pub open spec fn system_prompt(messages: Seq<MessageView>) -> Option<Seq<char>> {
    if system_texts(messages).len() == 0 {
        None
    } else {
        Some(joined(system_texts(messages), "\n\n"@))
    }
}

/// A tool on the wire.
pub open spec fn wire_tool(tool: ToolDefinitionView) -> AnthropicToolView {
    AnthropicToolView {
        name: tool.name,
        description: tool.description,
        input_schema: tool.parameters_schema,
    }
}

/// The tools on the wire, `None` where there are none.
pub open spec fn wire_tools(tools: Seq<ToolDefinitionView>) -> Option<Seq<AnthropicToolView>> {
    if tools.len() == 0 {
        None
    } else {
        Some(Seq::new(tools.len(), |i: int| wire_tool(tools[i])))
    }
}

/// The tool choice on the wire.
pub open spec fn wire_tool_choice(choice: Option<ToolChoiceView>) -> Option<JsonView> {
    let empty = Map::<Seq<char>, JsonView>::empty();
    match choice {
        None => None,
        Some(ToolChoiceView::Forbidden) => None,
        Some(ToolChoiceView::Auto) => Some(JsonView::Object(empty.insert("type"@, JsonView::Text("auto"@)))),
        Some(ToolChoiceView::Required) => Some(JsonView::Object(empty.insert("type"@, JsonView::Text("any"@)))),
        Some(ToolChoiceView::Specific { name }) => Some(
            JsonView::Object(
                empty.insert("type"@, JsonView::Text("tool"@)).insert("name"@, JsonView::Text(name)),
            ),
        ),
    }
}

/// The body of a request. To forbid tool calls, no tools are sent.
pub open spec fn request_body(
    model: Seq<char>,
    max_tokens: u32,
    messages: Seq<MessageView>,
    options: Option<ChatOptionsView>,
) -> AnthropicRequestView {
    let base = AnthropicRequestView {
        model,
        max_tokens,
        system: system_prompt(messages),
        messages: wire_messages(messages),
        tools: None,
        tool_choice: None,
        temperature: None,
        top_p: None,
        top_k: None,
        user_id: None,
        stop_sequences: None,
        stream: None,
    };
    match options {
        None => base,
        Some(o) => AnthropicRequestView {
            model: match o.model {
                Some(m) => m,
                None => model,
            },
            max_tokens: match o.max_tokens {
                Some(n) => n,
                None => max_tokens,
            },
            tools: if o.tool_choice == Some(ToolChoiceView::Forbidden) {
                None
            } else {
                wire_tools(o.tools)
            },
            tool_choice: wire_tool_choice(o.tool_choice),
            temperature: o.temperature,
            top_p: o.top_p,
            top_k: o.top_k,
            user_id: o.user,
            stop_sequences: if o.stop_sequences.len() == 0 {
                None
            } else {
                Some(o.stop_sequences)
            },
            ..base
        },
    }
}

/// A block on the wire.
fn block_to_anthropic(block: &Content) -> (out: AnthropicContent)
    ensures
        out@ == wire_block(block@),
        block@ is Text ==> out@ is Text && out@->text == block@->Text_text,
        block@ is ToolCall ==> out@ is ToolUse && out@->id == block@->id && out@->name == block@->name && out@->input
            == block@->arguments,
        block@ is ToolResult ==> out@ is ToolResult && out@->tool_use_id == block@->tool_call_id && out@->content
            == block@->content,
{
    match block {
        Content::Text { text } => AnthropicContent::Text { text: text.clone() },
        Content::ToolCall { id, name, arguments } => AnthropicContent::ToolUse {
            id: id.clone(),
            name: name.clone(),
            input: arguments.clone(),
        },
        Content::ToolResult { tool_call_id, content } => AnthropicContent::ToolResult {
            tool_use_id: tool_call_id.clone(),
            content: content.clone(),
        },
        Content::Data { media_type, .. } => AnthropicContent::Text {
            text: cat3("[binary data: ", media_type.as_str(), "]"),
        },
        Content::Uri { uri, .. } => AnthropicContent::Text { text: cat3("[uri: ", uri.as_str(), "]") },
    }
}

/// A message on the wire.
pub fn message_to_anthropic(message: &Message) -> (out: AnthropicMessage)
    ensures
        out@ == wire_message(message@),
{
    let role = match message.role {
        Role::Assistant => "assistant",
        _ => "user",
    };
    let mut content: Vec<AnthropicContent> = Vec::new();
    let ghost all = wire_blocks(message@.content);
    let mut i: usize = 0;
    assert(content.deep_view() =~= all.take(0));
    while i < message.content.len()
        invariant
            i <= message.content@.len(),
            all == wire_blocks(message.content.deep_view()),
            content.deep_view() == all.take(i as int),
        decreases message.content@.len() - i,
    {
        let ghost before = content.deep_view();
        content.push(block_to_anthropic(&message.content[i]));
        assert(content.deep_view() =~= before.push(all[i as int]));
        assert(all.take(i + 1) =~= before.push(all[i as int]));
        i += 1;
    }
    assert(all.take(i as int) =~= all);
    AnthropicMessage { role: role.to_owned(), content }
}

/// Append a message, or put it together with the last one if that has its role.
fn push_message(out: &mut Vec<AnthropicMessage>, message: AnthropicMessage)
    ensures
        final(out).deep_view() == if old(out).deep_view().len() > 0 && old(out).deep_view().last().role == message@.role {
            old(out).deep_view().drop_last().push(
                AnthropicMessageView {
                    role: message@.role,
                    content: old(out).deep_view().last().content + message@.content,
                },
            )
        } else {
            old(out).deep_view().push(message@)
        },
{
    let ghost before = out.deep_view();
    if out.len() > 0 && str_eq(out[out.len() - 1].role.as_str(), message.role.as_str()) {
        let popped = out.pop();
        match popped {
            Some(last) => {
                let ghost last_view = last@;
                assert(out.deep_view() =~= before.drop_last());
                let mut content = last.content;
                let mut more = message.content;
                let ghost c = content.deep_view();
                let ghost m = more.deep_view();
                content.append(&mut more);
                assert(content.deep_view() =~= c + m);
                let ghost rest = out.deep_view();
                out.push(AnthropicMessage { role: message.role, content });
                assert(out.deep_view() =~= rest.push(
                    AnthropicMessageView { role: message@.role, content: c + m },
                ));
            },
            None => {},
        }
    } else {
        out.push(message);
        assert(out.deep_view() =~= before.push(message@));
    }
}

/// The messages on the wire.
fn convert_messages(messages: &Vec<Message>) -> (out: Vec<AnthropicMessage>)
    ensures
        out.deep_view() == wire_messages(messages.deep_view()),
{
    let mut out: Vec<AnthropicMessage> = Vec::new();
    let ghost all = messages.deep_view();
    let mut i: usize = 0;
    assert(out.deep_view() =~= Seq::empty());
    while i < messages.len()
        invariant
            i <= messages@.len(),
            all == messages.deep_view(),
            out.deep_view() == wire_messages(all.take(i as int)),
        decreases messages@.len() - i,
    {
        assert(all.take(i + 1).drop_last() =~= all.take(i as int));
        if messages[i].role != Role::System {
            push_message(&mut out, message_to_anthropic(&messages[i]));
        }
        i += 1;
    }
    assert(all.take(i as int) =~= all);
    out
}

/// Append the texts of text blocks, one by one.
fn push_text_blocks(out: &mut Vec<String>, content: &Vec<Content>)
    ensures
        final(out).deep_view() == old(out).deep_view() + text_blocks(content.deep_view()),
{
    let ghost start = out.deep_view();
    let ghost all = content.deep_view();
    let mut i: usize = 0;
    assert(start + Seq::<Seq<char>>::empty() =~= start);
    while i < content.len()
        invariant
            i <= content@.len(),
            all == content.deep_view(),
            out.deep_view() == start + text_blocks(all.take(i as int)),
        decreases content@.len() - i,
    {
        assert(all.take(i + 1).drop_last() =~= all.take(i as int));
        if let Some(text) = content[i].as_text() {
            let ghost before = out.deep_view();
            out.push(text.to_owned());
            assert(out.deep_view() =~= before.push(text@));
            assert(out.deep_view() =~= start + text_blocks(all.take(i as int)).push(text@));
        }
        i += 1;
    }
    assert(all.take(i as int) =~= all);
}

/// The system prompt.
fn system_field(messages: &Vec<Message>) -> (system: Option<String>)
    ensures
        system.deep_view() == system_prompt(messages.deep_view()),
{
    let mut texts: Vec<String> = Vec::new();
    let ghost all = messages.deep_view();
    let mut i: usize = 0;
    assert(texts.deep_view() =~= Seq::empty());
    while i < messages.len()
        invariant
            i <= messages@.len(),
            all == messages.deep_view(),
            texts.deep_view() == system_texts(all.take(i as int)),
        decreases messages@.len() - i,
    {
        assert(all.take(i + 1).drop_last() =~= all.take(i as int));
        if messages[i].role == Role::System {
            push_text_blocks(&mut texts, &messages[i].content);
        }
        i += 1;
    }
    assert(all.take(i as int) =~= all);
    if texts.len() == 0 {
        None
    } else {
        Some(join(&texts, "\n\n"))
    }
}

/// The tools on the wire, `None` where there are none.
fn convert_tools(tools: &Vec<ToolDefinition>) -> (out: Option<Vec<AnthropicTool>>)
    ensures
        out.deep_view() == wire_tools(tools.deep_view()),
{
    if tools.len() == 0 {
        return None;
    }
    let mut out: Vec<AnthropicTool> = Vec::new();
    let ghost all = wire_tools(tools.deep_view())->0;
    let mut i: usize = 0;
    assert(out.deep_view() =~= all.take(0));
    while i < tools.len()
        invariant
            i <= tools@.len(),
            tools@.len() > 0,
            all == wire_tools(tools.deep_view())->0,
            out.deep_view() == all.take(i as int),
        decreases tools@.len() - i,
    {
        let ghost before = out.deep_view();
        out.push(
            AnthropicTool {
                name: tools[i].name.clone(),
                description: tools[i].description.clone(),
                input_schema: tools[i].parameters_schema.clone(),
            },
        );
        assert(out.deep_view() =~= before.push(all[i as int]));
        assert(all.take(i + 1) =~= before.push(all[i as int]));
        i += 1;
    }
    assert(all.take(i as int) =~= all);
    Some(out)
}

/// The tool choice on the wire.
fn convert_tool_choice(choice: &Option<ToolChoice>) -> (out: Option<Json>)
    ensures
        out.deep_view() == wire_tool_choice(choice.deep_view()),
{
    match choice {
        None => None,
        Some(ToolChoice::Forbidden) => None,
        Some(ToolChoice::Auto) => Some(Json::Object(JsonObject::new().with("type", Json::text("auto")))),
        Some(ToolChoice::Required) => Some(Json::Object(JsonObject::new().with("type", Json::text("any")))),
        Some(ToolChoice::Specific { name }) => Some(
            Json::Object(
                JsonObject::new().with("type", Json::text("tool")).with("name", Json::text(name.as_str())),
            ),
        ),
    }
}

/// A client for the Anthropic Messages API: what it sends and how it reads what
/// comes back.
pub struct AnthropicChatClient {
    pub config: AnthropicConfig,
}

impl AnthropicChatClient {
    /// A client with the given configuration.
    pub fn new(config: AnthropicConfig) -> (client: Self)
        ensures
            client.config == config,
    {
        AnthropicChatClient { config }
    }

    /// Build the request body for the Anthropic Messages API.
    pub fn build_request_body(
        &self,
        messages: &Vec<Message>,
        options: Option<&ChatOptions>,
    ) -> (result: AgentResult<AnthropicRequest>)
        ensures
            result is Ok,
            result->Ok_0@ == request_body(
                self.config.model@,
                self.config.max_tokens,
                messages.deep_view(),
                match options {
                    Some(o) => Some(o@),
                    None => None,
                },
            ),
    {
        let system = system_field(messages);
        let api_messages = convert_messages(messages);
        match options {
            None => Ok(
                AnthropicRequest {
                    model: self.config.model.clone(),
                    max_tokens: self.config.max_tokens,
                    system,
                    messages: api_messages,
                    tools: None,
                    tool_choice: None,
                    temperature: None,
                    top_p: None,
                    top_k: None,
                    user_id: None,
                    stop_sequences: None,
                    stream: None,
                },
            ),
            Some(o) => {
                let forbidden = match &o.tool_choice {
                    Some(ToolChoice::Forbidden) => true,
                    _ => false,
                };
                Ok(
                    AnthropicRequest {
                        model: match &o.model {
                            Some(m) => m.clone(),
                            None => self.config.model.clone(),
                        },
                        max_tokens: match o.max_tokens {
                            Some(n) => n,
                            None => self.config.max_tokens,
                        },
                        system,
                        messages: api_messages,
                        tools: if forbidden {
                            None
                        } else {
                            convert_tools(&o.tools)
                        },
                        tool_choice: convert_tool_choice(&o.tool_choice),
                        temperature: o.temperature,
                        top_p: o.top_p,
                        top_k: o.top_k,
                        user_id: clone_opt_string(&o.user),
                        stop_sequences: if o.stop_sequences.len() == 0 {
                            None
                        } else {
                            Some(clone_strings(&o.stop_sequences))
                        },
                        stream: None,
                    },
                )
            },
        }
    }

    /// Build the HTTP headers of every request.
    pub fn build_headers(&self) -> (result: AgentResult<Vec<Header>>)
        ensures
            match result {
                Ok(headers) => {
                    &&& is_header_value(self.config.api_key@)
                    &&& is_header_value(self.config.api_version@)
                    &&& headers.deep_view() == seq![
                        json_content_type(),
                        HeaderView { name: "x-api-key"@, value: self.config.api_key@, sensitive: true },
                        HeaderView {
                            name: "anthropic-version"@,
                            value: self.config.api_version@,
                            sensitive: false,
                        },
                    ]
                },
                Err(error) => if is_header_value(self.config.api_key@) {
                    &&& !is_header_value(self.config.api_version@)
                    &&& error@ == ErrorView::InvalidRequest("anthropic_version contains invalid characters"@)
                } else {
                    error@ == ErrorView::InvalidRequest("ANTHROPIC_API_KEY contains invalid characters"@)
                },
            },
    {
        if !valid_header_value(self.config.api_key.expose()) {
            return Err(AgentError::invalid_request("ANTHROPIC_API_KEY contains invalid characters"));
        }
        if !valid_header_value(self.config.api_version.as_str()) {
            return Err(AgentError::invalid_request("anthropic_version contains invalid characters"));
        }
        let mut headers: Vec<Header> = Vec::new();
        headers.push(plain_header("content-type", "application/json"));
        headers.push(secret_header("x-api-key", self.config.api_key.expose()));
        headers.push(plain_header("anthropic-version", self.config.api_version.as_str()));
        assert(headers.deep_view() =~= seq![
            json_content_type(),
            HeaderView { name: "x-api-key"@, value: self.config.api_key@, sensitive: true },
            HeaderView { name: "anthropic-version"@, value: self.config.api_version@, sensitive: false },
        ]);
        Ok(headers)
    }
}

// ---------------------------------------------------------------------------
// Responses
// ---------------------------------------------------------------------------

/// The finish reason that a stop reason stands for. Unknown ones count as a natural stop.
pub open spec fn finish_reason_of(reason: Seq<char>) -> FinishReason {
    if reason == "max_tokens"@ {
        FinishReason::MaxTokens
    } else if reason == "tool_use"@ {
        FinishReason::ToolUse
    } else {
        FinishReason::Stop
    }
}

/// The finish reason that a stop reason stands for.
pub fn map_stop_reason(reason: &str) -> (finish: FinishReason)
    ensures
        finish == finish_reason_of(reason@),
{
    if str_eq(reason, "max_tokens") {
        FinishReason::MaxTokens
    } else if str_eq(reason, "tool_use") {
        FinishReason::ToolUse
    } else {
        FinishReason::Stop
    }
}

/// The finish reason of a response.
pub open spec fn opt_finish_reason(reason: Option<Seq<char>>) -> Option<FinishReason> {
    match reason {
        Some(r) => Some(finish_reason_of(r)),
        None => None,
    }
}

fn map_opt_reason(reason: &Option<String>) -> (finish: Option<FinishReason>)
    ensures
        finish == opt_finish_reason(reason.deep_view()),
{
    match reason {
        Some(r) => Some(map_stop_reason(r.as_str())),
        None => None,
    }
}

/// The blocks of a response: texts and tool calls, in order. Tool results are left out.
pub open spec fn response_blocks(content: Seq<AnthropicContentView>) -> Seq<ContentView>
    decreases content.len(),
{
    if content.len() == 0 {
        Seq::empty()
    } else {
        let before = response_blocks(content.drop_last());
        match content.last() {
            AnthropicContentView::Text { text } => before.push(ContentView::Text { text }),
            AnthropicContentView::ToolUse { id, name, input } => before.push(
                ContentView::ToolCall { id, name, arguments: input },
            ),
            AnthropicContentView::ToolResult { .. } => before,
        }
    }
}

/// The chat response that a response on the wire stands for.
pub open spec fn chat_response_of(
    id: Seq<char>,
    content: Seq<AnthropicContentView>,
    stop_reason: Option<Seq<char>>,
    usage: Option<AnthropicUsage>,
) -> ChatResponseView {
    ChatResponseView {
        messages: seq![bare_message(Role::Assistant, response_blocks(content))],
        response_id: Some(id),
        finish_reason: opt_finish_reason(stop_reason),
        usage: match usage {
            Some(u) => Some(Usage { input_tokens: u.input_tokens, output_tokens: u.output_tokens }),
            None => None,
        },
    }
}

/// The chat response that a response on the wire stands for.
pub fn anthropic_response_to_chat_response(response: AnthropicResponse) -> (out: ChatResponse)
    ensures
        out@ == chat_response_of(
            response.id@,
            response.content.deep_view(),
            response.stop_reason.deep_view(),
            response.usage,
        ),
{
    let mut items: Vec<Content> = Vec::new();
    let ghost all = response.content.deep_view();
    let mut i: usize = 0;
    assert(items.deep_view() =~= Seq::empty());
    while i < response.content.len()
        invariant
            i <= response.content@.len(),
            all == response.content.deep_view(),
            items.deep_view() == response_blocks(all.take(i as int)),
        decreases response.content@.len() - i,
    {
        assert(all.take(i + 1).drop_last() =~= all.take(i as int));
        let ghost before = items.deep_view();
        match &response.content[i] {
            AnthropicContent::Text { text } => {
                items.push(Content::text(text.as_str()));
                assert(items.deep_view() =~= before.push(ContentView::Text { text: text@ }));
            },
            AnthropicContent::ToolUse { id, name, input } => {
                items.push(Content::tool_call(id.as_str(), name.as_str(), input.clone()));
                assert(items.deep_view() =~= before.push(
                    ContentView::ToolCall { id: id@, name: name@, arguments: input@ },
                ));
            },
            AnthropicContent::ToolResult { .. } => {},
        }
        i += 1;
    }
    assert(all.take(i as int) =~= all);
    let finish_reason = map_opt_reason(&response.stop_reason);
    let usage = match response.usage {
        Some(u) => Some(Usage { input_tokens: u.input_tokens, output_tokens: u.output_tokens }),
        None => None,
    };
    let mut messages: Vec<Message> = Vec::new();
    messages.push(Message::bare(Role::Assistant, items));
    assert(messages.deep_view() =~= seq![bare_message(Role::Assistant, response_blocks(all))]);
    ChatResponse { messages, response_id: Some(response.id), finish_reason, usage }
}

// ---------------------------------------------------------------------------
// Streaming
// ---------------------------------------------------------------------------

/// A piece of a content block in a stream.
#[derive(Debug)]
pub enum AnthropicDelta {
    TextDelta { text: String },
    InputJsonDelta { partial_json: String },
}

/// What a kind of stream event carries.
#[derive(Debug, Clone, Copy, PartialEq, Eq, Structural)]
pub enum AnthropicEventKind {
    BlockStart,
    BlockDelta,
    MessageDelta,
    Error,
    /// Nothing that makes an update. Unknown kinds are ignored too.
    Ignored,
}

/// The kind that the name of a stream event stands for.
pub open spec fn event_kind_of(name: Seq<char>) -> AnthropicEventKind {
    if name == "content_block_start"@ {
        AnthropicEventKind::BlockStart
    } else if name == "content_block_delta"@ {
        AnthropicEventKind::BlockDelta
    } else if name == "message_delta"@ {
        AnthropicEventKind::MessageDelta
    } else if name == "error"@ {
        AnthropicEventKind::Error
    } else {
        AnthropicEventKind::Ignored
    }
}

/// The kind that the name of a stream event stands for.
pub fn event_kind(name: &str) -> (kind: AnthropicEventKind)
    ensures
        kind == event_kind_of(name@),
{
    if str_eq(name, "content_block_start") {
        AnthropicEventKind::BlockStart
    } else if str_eq(name, "content_block_delta") {
        AnthropicEventKind::BlockDelta
    } else if str_eq(name, "message_delta") {
        AnthropicEventKind::MessageDelta
    } else if str_eq(name, "error") {
        AnthropicEventKind::Error
    } else {
        AnthropicEventKind::Ignored
    }
}

/// A stream event.
#[derive(Debug)]
pub enum AnthropicEvent {
    BlockStart { index: u32, content_block: AnthropicContent },
    BlockDelta { index: u32, delta: AnthropicDelta },
    MessageDelta { stop_reason: Option<String>, output_tokens: Option<u32> },
    Error { error_type: String, message: String },
    Ignored,
}

/// What a piece of a content block holds.
#[verifier::ext_equal]
pub enum AnthropicDeltaView {
    TextDelta { text: Seq<char> },
    InputJsonDelta { partial_json: Seq<char> },
}

impl View for AnthropicDelta {
    type V = AnthropicDeltaView;

    open spec fn view(&self) -> AnthropicDeltaView {
        match self {
            AnthropicDelta::TextDelta { text } => AnthropicDeltaView::TextDelta { text: text@ },
            AnthropicDelta::InputJsonDelta { partial_json } => AnthropicDeltaView::InputJsonDelta {
                partial_json: partial_json@,
            },
        }
    }
}

/// What a stream event holds.
#[verifier::ext_equal]
pub enum AnthropicEventView {
    BlockStart { index: u32, content_block: AnthropicContentView },
    BlockDelta { index: u32, delta: AnthropicDeltaView },
    MessageDelta { stop_reason: Option<Seq<char>>, output_tokens: Option<u32> },
    Error { error_type: Seq<char>, message: Seq<char> },
    Ignored,
}

impl View for AnthropicEvent {
    type V = AnthropicEventView;

    open spec fn view(&self) -> AnthropicEventView {
        match self {
            AnthropicEvent::BlockStart { index, content_block } => AnthropicEventView::BlockStart {
                index: *index,
                content_block: content_block@,
            },
            AnthropicEvent::BlockDelta { index, delta } => AnthropicEventView::BlockDelta {
                index: *index,
                delta: delta@,
            },
            AnthropicEvent::MessageDelta { stop_reason, output_tokens } => AnthropicEventView::MessageDelta {
                stop_reason: stop_reason.deep_view(),
                output_tokens: *output_tokens,
            },
            AnthropicEvent::Error { error_type, message } => AnthropicEventView::Error {
                error_type: error_type@,
                message: message@,
            },
            AnthropicEvent::Ignored => AnthropicEventView::Ignored,
        }
    }
}

/// The content blocks that a stream has opened, by their index: the id and the
/// name of the tool call, if the block is one.
pub type StreamBlocks = IndexTable<Option<(String, String)>>;

/// The blocks that are open after an event.
pub open spec fn blocks_after(
    blocks: Map<u32, Option<(Seq<char>, Seq<char>)>>,
    event: AnthropicEventView,
) -> Map<u32, Option<(Seq<char>, Seq<char>)>> {
    match event {
        AnthropicEventView::BlockStart { index, content_block } => match content_block {
            AnthropicContentView::ToolUse { id, name, .. } => blocks.insert(index, Some((id, name))),
            _ => blocks.insert(index, None),
        },
        _ => blocks,
    }
}

/// What an event makes: an update, nothing, or an error. A piece of arguments
/// belongs to the tool call of its block and is dropped if there is none.
pub open spec fn event_outcome(
    blocks: Map<u32, Option<(Seq<char>, Seq<char>)>>,
    event: AnthropicEventView,
) -> Result<Option<UpdateView>, ErrorView> {
    match event {
        AnthropicEventView::BlockStart { content_block, .. } => match content_block {
            AnthropicContentView::ToolUse { id, name, .. } => Ok(Some(call_update(id, name, Seq::empty()))),
            _ => Ok(None),
        },
        AnthropicEventView::BlockDelta { index, delta } => match delta {
            AnthropicDeltaView::TextDelta { text } => Ok(Some(text_update(text))),
            AnthropicDeltaView::InputJsonDelta { partial_json } => if blocks.dom().contains(index) {
                match blocks[index] {
                    Some((id, name)) => Ok(Some(call_update(id, name, partial_json))),
                    None => Ok(None),
                }
            } else {
                Ok(None)
            },
        },
        AnthropicEventView::MessageDelta { stop_reason, output_tokens } => if stop_reason is None
            && output_tokens is None {
            Ok(None)
        } else {
            Ok(
                Some(
                    end_update(
                        opt_finish_reason(stop_reason),
                        match output_tokens {
                            Some(n) => Some(Usage { input_tokens: 0, output_tokens: n }),
                            None => None,
                        },
                    ),
                ),
            )
        },
        AnthropicEventView::Error { error_type, message } => Err(
            ErrorView::ProviderError {
                message: "Anthropic stream error ("@ + error_type + "): "@ + message,
                status_code: None,
            },
        ),
        AnthropicEventView::Ignored => Ok(None),
    }
}

/// Convert a stream event into an update, if it makes one, and keep track of the
/// blocks that are open.
pub fn handle_anthropic_event(
    event: AnthropicEvent,
    blocks: &mut StreamBlocks,
) -> (result: AgentResult<Option<ChatResponseUpdate>>)
    ensures
        final(blocks)@ == blocks_after(old(blocks)@, event@),
        event_outcome(old(blocks)@, event@) == (match result {
            Ok(update) => Ok(update.deep_view()),
            Err(error) => Err(error@),
        }),
{
    match event {
        AnthropicEvent::BlockStart { index, content_block } => match content_block {
            AnthropicContent::ToolUse { id, name, .. } => {
                let update = ChatResponseUpdate::of_call(id.as_str(), name.as_str(), "");
                proof {
                    reveal_strlit("");
                    assert(""@ =~= Seq::<char>::empty());
                }
                blocks.insert(index, Some((id, name)));
                Ok(Some(update))
            },
            _ => {
                blocks.insert(index, None);
                Ok(None)
            },
        },
        AnthropicEvent::BlockDelta { index, delta } => match delta {
            AnthropicDelta::TextDelta { text } => Ok(Some(ChatResponseUpdate::of_text(text.as_str()))),
            AnthropicDelta::InputJsonDelta { partial_json } => match blocks.get(index) {
                Some(Some(tool)) => Ok(
                    Some(ChatResponseUpdate::of_call(tool.0.as_str(), tool.1.as_str(), partial_json.as_str())),
                ),
                _ => Ok(None),
            },
        },
        AnthropicEvent::MessageDelta { stop_reason, output_tokens } => {
            let finish_reason = map_opt_reason(&stop_reason);
            let usage = match output_tokens {
                Some(n) => Some(Usage { input_tokens: 0, output_tokens: n }),
                None => None,
            };
            if finish_reason.is_none() && usage.is_none() {
                Ok(None)
            } else {
                Ok(Some(ChatResponseUpdate::of_end(finish_reason, usage)))
            }
        },
        AnthropicEvent::Error { error_type, message } => {
            let mut text = cat3("Anthropic stream error (", error_type.as_str(), "): ");
            text.append(message.as_str());
            Err(AgentError::ProviderError { message: text, status_code: None })
        },
        AnthropicEvent::Ignored => Ok(None),
    }
}

// ---------------------------------------------------------------------------
// Laws
// ---------------------------------------------------------------------------

/// All blocks of messages, one after the other.
pub open spec fn all_blocks(messages: Seq<AnthropicMessageView>) -> Seq<AnthropicContentView>
    decreases messages.len(),
{
    if messages.len() == 0 {
        Seq::empty()
    } else {
        all_blocks(messages.drop_last()) + messages.last().content
    }
}

/// The blocks of the messages that are no system messages, as they go on the wire.
pub open spec fn sent_blocks(messages: Seq<MessageView>) -> Seq<AnthropicContentView>
    decreases messages.len(),
{
    if messages.len() == 0 {
        Seq::empty()
    } else if messages.last().role == Role::System {
        sent_blocks(messages.drop_last())
    } else {
        sent_blocks(messages.drop_last()) + wire_blocks(messages.last().content)
    }
}

/// The roles of the messages on the wire alternate, and nothing is lost: their
/// blocks are those of the messages that are no system messages, in order.
pub proof fn law_roles_alternate(messages: Seq<MessageView>)
    ensures
        forall|i: int|
            0 <= i < wire_messages(messages).len() - 1 ==> (#[trigger] wire_messages(messages)[i]).role
                != wire_messages(messages)[i + 1].role,
        all_blocks(wire_messages(messages)) == sent_blocks(messages),
    decreases messages.len(),
{
    if messages.len() > 0 {
        let before = wire_messages(messages.drop_last());
        let after = wire_messages(messages);
        let message = wire_message(messages.last());
        law_roles_alternate(messages.drop_last());
        if messages.last().role != Role::System {
            if before.len() > 0 && before.last().role == message.role {
                assert(after.drop_last() =~= before.drop_last());
                assert(all_blocks(after) =~= all_blocks(before) + message.content);
                assert forall|i: int| 0 <= i < after.len() - 1 implies (#[trigger] after[i]).role != after[i + 1].role by {
                    assert(before[i].role != before[i + 1].role);
                }
            } else {
                assert(after.drop_last() =~= before);
                assert forall|i: int| 0 <= i < after.len() - 1 implies (#[trigger] after[i]).role != after[i + 1].role by {
                    if i < before.len() - 1 {
                        assert(before[i].role != before[i + 1].role);
                    }
                }
            }
        }
    }
}

/// A tool call survives the way to the wire and back.
pub proof fn law_tool_calls_survive(content: Seq<ContentView>)
    requires
        forall|i: int| 0 <= i < content.len() ==> (#[trigger] content[i]) is Text || content[i] is ToolCall,
    ensures
        response_blocks(wire_blocks(content)) == content,
    decreases content.len(),
{
    if content.len() > 0 {
        assert(wire_blocks(content).drop_last() =~= wire_blocks(content.drop_last()));
        assert forall|i: int| 0 <= i < content.drop_last().len() implies (#[trigger] content.drop_last()[i]) is Text
            || content.drop_last()[i] is ToolCall by {
            assert(content[i] is Text || content[i] is ToolCall);
        }
        law_tool_calls_survive(content.drop_last());
        assert(content[content.len() - 1] is Text || content[content.len() - 1] is ToolCall);
        assert(response_blocks(wire_blocks(content)) =~= content);
    }
}

/// The blocks of the messages that are no system messages, one after the other.
pub open spec fn conversation_blocks(messages: Seq<MessageView>) -> Seq<ContentView>
    decreases messages.len(),
{
    if messages.len() == 0 {
        Seq::empty()
    } else if messages.last().role == Role::System {
        conversation_blocks(messages.drop_last())
    } else {
        conversation_blocks(messages.drop_last()) + messages.last().content
    }
}

proof fn lemma_sent_blocks(messages: Seq<MessageView>)
    ensures
        sent_blocks(messages) == wire_blocks(conversation_blocks(messages)),
    decreases messages.len(),
{
    if messages.len() == 0 {
        assert(sent_blocks(messages) =~= wire_blocks(conversation_blocks(messages)));
    } else {
        lemma_sent_blocks(messages.drop_last());
        assert(sent_blocks(messages) =~= wire_blocks(conversation_blocks(messages)));
    }
}

/// Every block of a message has its block on the wire, in its place. A text is sent as
/// it is. A call is sent under its id and name with its arguments as the input. A tool
/// result names the call that it answers and carries the result.
pub proof fn law_blocks_keep_their_meaning(message: MessageView)
    ensures
        wire_message(message).content.len() == message.content.len(),
        message.role == Role::Assistant ==> wire_message(message).role == "assistant"@,
        message.role != Role::Assistant ==> wire_message(message).role == "user"@,
        forall|i: int|
            #![trigger message.content[i]]
            #![trigger wire_message(message).content[i]]
            0 <= i < message.content.len() ==> {
                let sent = wire_message(message).content[i];
                match message.content[i] {
                    ContentView::Text { text } => sent is Text && sent->text == text,
                    ContentView::ToolCall { id, name, arguments } => sent is ToolUse && sent->id == id && sent->name
                        == name && sent->input == arguments,
                    ContentView::ToolResult { tool_call_id, content } => sent is ToolResult && sent->tool_use_id
                        == tool_call_id && sent->content == content,
                    ContentView::Data { data, media_type } => sent is Text && sent->text == "[binary data: "@
                        + media_type + "]"@,
                    ContentView::Uri { uri, media_type } => sent is Text && sent->text == "[uri: "@ + uri + "]"@,
                }
            },
{
}

/// The whole conversation is on the wire: block by block, what is sent is what the
/// messages that are no system messages hold, in their order.
pub proof fn law_request_holds_the_conversation(messages: Seq<MessageView>)
    ensures
        all_blocks(wire_messages(messages)).len() == conversation_blocks(messages).len(),
        forall|i: int|
            #![trigger all_blocks(wire_messages(messages))[i]]
            #![trigger conversation_blocks(messages)[i]]
            0 <= i < conversation_blocks(messages).len() ==> {
                let sent = all_blocks(wire_messages(messages))[i];
                match conversation_blocks(messages)[i] {
                    ContentView::Text { text } => sent is Text && sent->text == text,
                    ContentView::ToolCall { id, name, arguments } => sent is ToolUse && sent->id == id && sent->name
                        == name && sent->input == arguments,
                    ContentView::ToolResult { tool_call_id, content } => sent is ToolResult && sent->tool_use_id
                        == tool_call_id && sent->content == content,
                    ContentView::Data { .. } => sent is Text,
                    ContentView::Uri { .. } => sent is Text,
                }
            },
{
    law_roles_alternate(messages);
    lemma_sent_blocks(messages);
}

/// Where every tool result of a conversation answers a call that was made before it,
/// every tool result on the wire names a call that stands on the wire before it.
pub proof fn law_every_sent_result_answers_a_sent_call(messages: Seq<MessageView>)
    requires
        forall|k: int|
            0 <= k < conversation_blocks(messages).len() && (#[trigger] conversation_blocks(
                messages,
            )[k]) is ToolResult ==> exists|j: int|
                0 <= j < k && (#[trigger] conversation_blocks(messages)[j]) is ToolCall && conversation_blocks(
                    messages,
                )[j]->id == conversation_blocks(messages)[k]->tool_call_id,
    ensures
        forall|k: int|
            0 <= k < all_blocks(wire_messages(messages)).len() && (#[trigger] all_blocks(
                wire_messages(messages),
            )[k]) is ToolResult ==> exists|j: int|
                0 <= j < k && (#[trigger] all_blocks(wire_messages(messages))[j]) is ToolUse && all_blocks(
                    wire_messages(messages),
                )[j]->id == all_blocks(wire_messages(messages))[k]->tool_use_id,
{
    law_request_holds_the_conversation(messages);
    let sent = all_blocks(wire_messages(messages));
    let blocks = conversation_blocks(messages);
    assert forall|k: int| 0 <= k < sent.len() && (#[trigger] sent[k]) is ToolResult implies exists|j: int|
        0 <= j < k && (#[trigger] sent[j]) is ToolUse && sent[j]->id == sent[k]->tool_use_id by {
        assert(blocks[k] is ToolResult);
        let j = choose|j: int|
            0 <= j < k && (#[trigger] blocks[j]) is ToolCall && blocks[j]->id == blocks[k]->tool_call_id;
        assert(sent[j] is ToolUse && sent[j]->id == blocks[j]->id);
    }
}

/// Each message is sent under its own role: the last message on the wire is in the role
/// of the last one of the conversation and ends with its blocks. A system message sends
/// nothing there.
pub proof fn law_last_message_is_sent_last(first: Seq<MessageView>, message: MessageView)
    ensures
        wire_messages(Seq::empty()).len() == 0,
        message.role == Role::System ==> wire_messages(first.push(message)) == wire_messages(first),
        message.role != Role::System ==> {
            let sent = wire_messages(first.push(message));
            let n = message.content.len() as int;
            let before = wire_messages(first);
            let role = if message.role == Role::Assistant { "assistant"@ } else { "user"@ };
            let joins = before.len() > 0 && before.last().role == role;
            &&& joins ==> sent.drop_last() == before.drop_last() && sent.last().content == before.last().content
                + wire_message(message).content
            &&& !joins ==> sent.drop_last() == before && sent.last().content == wire_message(message).content
            &&& sent.len() > 0
            &&& sent.last().role == if message.role == Role::Assistant { "assistant"@ } else { "user"@ }
            &&& sent.last().content.len() >= n
            &&& sent.last().content.skip(sent.last().content.len() - n) == wire_message(message).content
        },
{
    assert(first.push(message).drop_last() =~= first);
    if message.role != Role::System {
        let sent = wire_messages(first.push(message));
        let n = message.content.len() as int;
        let before = wire_messages(first);
        if before.len() > 0 && before.last().role == wire_role(message.role) {
            assert(sent.drop_last() =~= before.drop_last());
        } else {
            assert(sent.drop_last() =~= before);
        }
        assert(sent.last().content.skip(sent.last().content.len() - n) =~= wire_message(message).content);
    }
}

/// The system prompt is made of the texts of the system messages alone: every text
/// block of theirs, in order, with a blank line between two of them. Without any there
/// is none, and a single text is the prompt.
pub proof fn law_system_prompt(
    first: Seq<MessageView>,
    message: MessageView,
    blocks: Seq<ContentView>,
    block: ContentView,
)
    ensures
        system_prompt(first) is None <==> system_texts(first).len() == 0,
        system_texts(first).len() > 0 ==> system_prompt(first) == Some(joined(system_texts(first), "\n\n"@)),
        system_texts(Seq::empty()).len() == 0,
        message.role != Role::System ==> system_texts(first.push(message)) == system_texts(first),
        message.role == Role::System ==> system_texts(first.push(message)) == system_texts(first) + text_blocks(
            message.content,
        ),
        text_blocks(Seq::empty()).len() == 0,
        text_blocks(blocks.push(block)) == match block {
            ContentView::Text { text } => text_blocks(blocks).push(text),
            _ => text_blocks(blocks),
        },
{
    assert(first.push(message).drop_last() =~= first);
    assert(blocks.push(block).drop_last() =~= blocks);
}

/// Tools are sent under their names, with their descriptions and schemas, in order. If
/// there are none, none are sent; and none are sent where calling tools is forbidden.
pub proof fn law_tools_are_sent(tools: Seq<ToolDefinitionView>)
    ensures
        tools.len() == 0 ==> wire_tools(tools) is None,
        tools.len() > 0 ==> wire_tools(tools) is Some && wire_tools(tools)->0.len() == tools.len(),
        forall|i: int|
            0 <= i < tools.len() ==> {
                &&& (#[trigger] wire_tools(tools)->0[i]).name == tools[i].name
                &&& wire_tools(tools)->0[i].description == tools[i].description
                &&& wire_tools(tools)->0[i].input_schema == tools[i].parameters_schema
            },
{
}

/// The choice of tools is sent by its type, and a specific tool by its name too; where
/// nothing is chosen or calls are forbidden, none is sent.
pub proof fn law_tool_choice_is_sent(name: Seq<char>)
    ensures
        wire_tool_choice(None) is None,
        wire_tool_choice(Some(ToolChoiceView::Forbidden)) is None,
        wire_tool_choice(Some(ToolChoiceView::Auto)) == Some(
            JsonView::Object(map!["type"@ => JsonView::Text("auto"@)]),
        ),
        wire_tool_choice(Some(ToolChoiceView::Required)) == Some(
            JsonView::Object(map!["type"@ => JsonView::Text("any"@)]),
        ),
        wire_tool_choice(Some(ToolChoiceView::Specific { name })) is Some,
        wire_tool_choice(Some(ToolChoiceView::Specific { name }))->0 is Object,
        wire_tool_choice(Some(ToolChoiceView::Specific { name }))->0->Object_0["type"@] == JsonView::Text("tool"@),
        wire_tool_choice(Some(ToolChoiceView::Specific { name }))->0->Object_0["name"@] == JsonView::Text(name),
{
    reveal_strlit("type");
    reveal_strlit("name");
    assert("type"@[0] != "name"@[0]);
}

/// A request asks the model of the options, or the configured one, and allows as many
/// tokens as the options or the configuration say; the other options are sent as they
/// are set. The conversation and the system prompt do not depend on the options.
pub proof fn law_request_follows_the_options(
    model: Seq<char>,
    max_tokens: u32,
    messages: Seq<MessageView>,
    options: ChatOptionsView,
)
    ensures
        ({
            let plain = request_body(model, max_tokens, messages, None);
            let body = request_body(model, max_tokens, messages, Some(options));
            &&& plain.model == model
            &&& plain.max_tokens == max_tokens
            &&& plain.messages == wire_messages(messages)
            &&& plain.system == system_prompt(messages)
            &&& plain.tools is None && plain.tool_choice is None && plain.temperature is None && plain.top_p is None
            &&& plain.top_k is None && plain.user_id is None && plain.stop_sequences is None && plain.stream is None
            &&& body.messages == plain.messages
            &&& body.system == plain.system
            &&& body.stream is None
            &&& options.model is Some ==> body.model == options.model->0
            &&& options.model is None ==> body.model == model
            &&& options.max_tokens is Some ==> body.max_tokens == options.max_tokens->0
            &&& options.max_tokens is None ==> body.max_tokens == max_tokens
            &&& body.temperature == options.temperature
            &&& body.top_p == options.top_p
            &&& body.top_k == options.top_k
            &&& body.user_id == options.user
            &&& options.stop_sequences.len() > 0 ==> body.stop_sequences == Some(options.stop_sequences)
            &&& options.stop_sequences.len() == 0 ==> body.stop_sequences is None
            &&& body.tool_choice == wire_tool_choice(options.tool_choice)
            &&& options.tool_choice == Some(ToolChoiceView::Forbidden) ==> body.tools is None
            &&& options.tool_choice != Some(ToolChoiceView::Forbidden) ==> body.tools == wire_tools(options.tools)
        }),
{
}

/// A response is one message of the assistant with the texts and the tool calls that
/// came, in order and as they came; its id, its usage and what its stop reason stands
/// for come with it.
pub proof fn law_response_is_read(
    id: Seq<char>,
    first: Seq<AnthropicContentView>,
    block: AnthropicContentView,
    stop_reason: Option<Seq<char>>,
    usage: Option<AnthropicUsage>,
)
    ensures
        ({
            let response = chat_response_of(id, first, stop_reason, usage);
            &&& response.messages.len() == 1
            &&& response.messages[0].role == Role::Assistant
            &&& response.messages[0].content == response_blocks(first)
            &&& response.messages[0].name is None
            &&& response.response_id == Some(id)
            &&& stop_reason is None ==> response.finish_reason is None
            &&& stop_reason is Some ==> response.finish_reason == Some(finish_reason_of(stop_reason->0))
            &&& usage is None ==> response.usage is None
            &&& usage is Some ==> response.usage is Some && response.usage->0.input_tokens == usage->0.input_tokens
                && response.usage->0.output_tokens == usage->0.output_tokens
        }),
        response_blocks(Seq::empty()).len() == 0,
        response_blocks(first.push(block)) == match block {
            AnthropicContentView::Text { text } => response_blocks(first).push(ContentView::Text { text }),
            AnthropicContentView::ToolUse { id, name, input } => response_blocks(first).push(
                ContentView::ToolCall { id, name, arguments: input },
            ),
            AnthropicContentView::ToolResult { .. } => response_blocks(first),
        },
{
    assert(first.push(block).drop_last() =~= first);
}

/// A model that stops to use tools or at the token limit is known by its stop reason,
/// and every other reason is a natural stop.
pub proof fn law_stop_reasons(reason: Seq<char>)
    ensures
        finish_reason_of("tool_use"@) == FinishReason::ToolUse,
        finish_reason_of("max_tokens"@) == FinishReason::MaxTokens,
        reason != "tool_use"@ && reason != "max_tokens"@ ==> finish_reason_of(reason) == FinishReason::Stop,
{
    reveal_strlit("tool_use");
    reveal_strlit("max_tokens");
    assert("tool_use"@.len() != "max_tokens"@.len());
}

/// The kinds of stream events are known by their names, and all others are ignored.
pub proof fn law_event_names(name: Seq<char>)
    ensures
        event_kind_of("content_block_start"@) == AnthropicEventKind::BlockStart,
        event_kind_of("content_block_delta"@) == AnthropicEventKind::BlockDelta,
        event_kind_of("message_delta"@) == AnthropicEventKind::MessageDelta,
        event_kind_of("error"@) == AnthropicEventKind::Error,
        name != "content_block_start"@ && name != "content_block_delta"@ && name != "message_delta"@ && name
            != "error"@ ==> event_kind_of(name) == AnthropicEventKind::Ignored,
{
    reveal_strlit("content_block_start");
    reveal_strlit("content_block_delta");
    reveal_strlit("message_delta");
    reveal_strlit("error");
    assert("content_block_start"@[14] != "content_block_delta"@[14]);
    assert("content_block_start"@.len() != "message_delta"@.len());
    assert("content_block_delta"@.len() != "message_delta"@.len());
    assert("content_block_start"@.len() != "error"@.len());
    assert("content_block_delta"@.len() != "error"@.len());
    assert("message_delta"@.len() != "error"@.len());
}

/// A call that starts in a block is passed on with its id and name, and every piece of
/// arguments that comes for that block belongs to it, until another block starts there;
/// blocks at other places do not matter. Pieces for a block that is no call are dropped.
pub proof fn law_streamed_pieces_belong_to_their_call(
    blocks: Map<u32, Option<(Seq<char>, Seq<char>)>>,
    index: u32,
    id: Seq<char>,
    name: Seq<char>,
    input: JsonView,
    piece: Seq<char>,
    other: AnthropicEventView,
    text: Seq<char>,
)
    requires
        other is BlockStart ==> other->BlockStart_index != index,
    ensures
        ({
            let start = AnthropicEventView::BlockStart {
                index,
                content_block: AnthropicContentView::ToolUse { id, name, input },
            };
            let plain = AnthropicEventView::BlockStart {
                index,
                content_block: AnthropicContentView::Text { text },
            };
            let delta = AnthropicEventView::BlockDelta {
                index,
                delta: AnthropicDeltaView::InputJsonDelta { partial_json: piece },
            };
            let opened = event_outcome(blocks, start);
            let after = blocks_after(blocks_after(blocks, start), other);
            let passed = event_outcome(after, delta);
            &&& opened is Ok && opened->Ok_0 is Some && opened->Ok_0->0.tool_call is Some
            &&& opened->Ok_0->0.tool_call->0.id == id
            &&& opened->Ok_0->0.tool_call->0.name == name
            &&& opened->Ok_0->0.tool_call->0.arguments_delta.len() == 0
            &&& passed is Ok && passed->Ok_0 is Some && passed->Ok_0->0.tool_call is Some
            &&& passed->Ok_0->0.tool_call->0.id == id
            &&& passed->Ok_0->0.tool_call->0.name == name
            &&& passed->Ok_0->0.tool_call->0.arguments_delta == piece
            &&& passed->Ok_0->0.text is None
            &&& event_outcome(blocks, plain) == Ok::<Option<UpdateView>, ErrorView>(None)
            &&& event_outcome(blocks_after(blocks, plain), delta) == Ok::<Option<UpdateView>, ErrorView>(None)
            &&& !blocks.dom().contains(index) ==> event_outcome(blocks, delta) == Ok::<Option<UpdateView>, ErrorView>(
                None,
            )
        }),
{
    law_updates_carry_one_thing(text, id, name, piece, None, None);
}

/// Streamed text is passed on as it comes; the end of a stream carries what its stop
/// reason stands for and the tokens that came out; an error ends it and says which; and
/// nothing else makes an update.
pub proof fn law_stream_events_are_passed_on(
    blocks: Map<u32, Option<(Seq<char>, Seq<char>)>>,
    index: u32,
    text: Seq<char>,
    stop_reason: Option<Seq<char>>,
    output_tokens: Option<u32>,
    error_type: Seq<char>,
    message: Seq<char>,
)
    ensures
        ({
            let said = event_outcome(
                blocks,
                AnthropicEventView::BlockDelta { index, delta: AnthropicDeltaView::TextDelta { text } },
            );
            let ended = event_outcome(blocks, AnthropicEventView::MessageDelta { stop_reason, output_tokens });
            &&& said is Ok && said->Ok_0 is Some && said->Ok_0->0.text == Some(text)
            &&& said->Ok_0->0.tool_call is None && said->Ok_0->0.finish_reason is None
            &&& ended is Ok
            &&& ended->Ok_0 is None <==> stop_reason is None && output_tokens is None
            &&& ended->Ok_0 is Some ==> {
                &&& ended->Ok_0->0.text is None && ended->Ok_0->0.tool_call is None
                &&& stop_reason is None ==> ended->Ok_0->0.finish_reason is None
                &&& stop_reason is Some ==> ended->Ok_0->0.finish_reason == Some(finish_reason_of(stop_reason->0))
                &&& output_tokens is None ==> ended->Ok_0->0.usage is None
                &&& output_tokens is Some ==> ended->Ok_0->0.usage is Some && ended->Ok_0->0.usage->0.output_tokens
                    == output_tokens->0 && ended->Ok_0->0.usage->0.input_tokens == 0
            }
        }),
        event_outcome(blocks, AnthropicEventView::Error { error_type, message }) == Err::<
            Option<UpdateView>,
            ErrorView,
        >(
            ErrorView::ProviderError {
                message: "Anthropic stream error ("@ + error_type + "): "@ + message,
                status_code: None,
            },
        ),
        event_outcome(blocks, AnthropicEventView::Ignored) == Ok::<Option<UpdateView>, ErrorView>(None),
        blocks_after(blocks, AnthropicEventView::Ignored) == blocks,
        blocks_after(blocks, AnthropicEventView::MessageDelta { stop_reason, output_tokens }) == blocks,
{
    law_updates_carry_one_thing(text, text, text, text, None, None);
}

/// The models of what goes over the wire have all its fields.
pub proof fn law_wire_models_are_complete(
    block: AnthropicContent,
    message: AnthropicMessage,
    tool: AnthropicTool,
    request: AnthropicRequest,
)
    ensures
        block is Text ==> block@ is Text && block@->text == block->text@,
        block is ToolUse ==> block@ is ToolUse && block@->id == block->id@ && block@->name == block->name@
            && block@->input == block->input@,
        block is ToolResult ==> block@ is ToolResult && block@->tool_use_id == block->tool_use_id@ && block@->content
            == block->content@,
        message@.role == message.role@,
        message@.content == message.content.deep_view(),
        tool@.name == tool.name@,
        tool@.description == tool.description@,
        tool@.input_schema == tool.input_schema@,
        request@.model == request.model@,
        request@.max_tokens == request.max_tokens,
        request@.system == request.system.deep_view(),
        request@.messages == request.messages.deep_view(),
        request@.tools == request.tools.deep_view(),
        request@.tool_choice == request.tool_choice.deep_view(),
        request@.temperature == request.temperature,
        request@.top_p == request.top_p,
        request@.top_k == request.top_k,
        request@.user_id == request.user_id.deep_view(),
        request@.stop_sequences == request.stop_sequences.deep_view(),
        request@.stream == request.stream,
{
}

} // verus!
