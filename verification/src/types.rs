//! Messages, options and responses: the data that every part of the framework shares.

use vstd::prelude::*;

use crate::json::{Json, JsonObject, JsonView};
use crate::table::Table;
use crate::text::str_eq;
use crate::tools::{ToolDefinition, ToolDefinitionView};

verus! {

/// A single-precision number, carried as its IEEE 754 bit pattern.
#[derive(Debug, Clone, Copy, PartialEq, Eq, Structural)]
pub struct F32 {
    pub bits: u32,
}

impl View for F32 {
    type V = F32;

    open spec fn view(&self) -> F32 {
        *self
    }
}

impl DeepView for F32 {
    type V = F32;

    open spec fn deep_view(&self) -> F32 {
        *self
    }
}

/// The role of a message participant.
#[derive(Debug, Clone, Copy, PartialEq, Eq, Hash, Structural)]
pub enum Role {
    /// A system-level instruction message.
    System,
    /// A user-provided message.
    User,
    /// An assistant (model) response.
    Assistant,
    /// A tool result message.
    Tool,
}

/// The name of a role on the wire.
pub open spec fn role_name(role: Role) -> Seq<char> {
    match role {
        Role::System => "system"@,
        Role::User => "user"@,
        Role::Assistant => "assistant"@,
        Role::Tool => "tool"@,
    }
}

impl Role {
    /// The name of the role on the wire.
    pub fn name(self) -> (name: &'static str)
        ensures
            name@ == role_name(self),
    {
        match self {
            Role::System => "system",
            Role::User => "user",
            Role::Assistant => "assistant",
            Role::Tool => "tool",
        }
    }
}

/// A piece of content within a message.
#[allow(inconsistent_fields)]
#[derive(Debug)]
pub enum Content {
    /// Plain text content.
    Text { text: String },
    /// Binary data content with a media type.
    Data { data: Vec<u8>, media_type: String },
    /// A URI reference to external content.
    Uri { uri: String, media_type: Option<String> },
    /// A tool call requested by the model.
    ToolCall { id: String, name: String, arguments: Json },
    /// The result of a tool invocation.
    ToolResult { tool_call_id: String, content: String },
}

/// What a piece of content holds.
#[allow(inconsistent_fields)]
#[verifier::ext_equal]
pub enum ContentView {
    Text { text: Seq<char> },
    Data { data: Seq<u8>, media_type: Seq<char> },
    Uri { uri: Seq<char>, media_type: Option<Seq<char>> },
    ToolCall { id: Seq<char>, name: Seq<char>, arguments: JsonView },
    ToolResult { tool_call_id: Seq<char>, content: Seq<char> },
}

impl View for Content {
    type V = ContentView;

    open spec fn view(&self) -> ContentView {
        match self {
            Content::Text { text } => ContentView::Text { text: text@ },
            Content::Data { data, media_type } => ContentView::Data { data: data@, media_type: media_type@ },
            Content::Uri { uri, media_type } => ContentView::Uri { uri: uri@, media_type: media_type.deep_view() },
            Content::ToolCall { id, name, arguments } => ContentView::ToolCall {
                id: id@,
                name: name@,
                arguments: arguments@,
            },
            Content::ToolResult { tool_call_id, content } => ContentView::ToolResult {
                tool_call_id: tool_call_id@,
                content: content@,
            },
        }
    }
}

impl DeepView for Content {
    type V = ContentView;

    open spec fn deep_view(&self) -> ContentView {
        self@
    }
}

/// The texts of the text blocks, one after the other.
pub open spec fn text_of(content: Seq<ContentView>) -> Seq<char>
    decreases content.len(),
{
    if content.len() == 0 {
        Seq::empty()
    } else {
        match content.last() {
            ContentView::Text { text } => text_of(content.drop_last()) + text,
            _ => text_of(content.drop_last()),
        }
    }
}

/// The tool calls among the blocks, in order: id, name and arguments.
pub open spec fn calls_of(content: Seq<ContentView>) -> Seq<(Seq<char>, Seq<char>, JsonView)>
    decreases content.len(),
{
    if content.len() == 0 {
        Seq::empty()
    } else {
        match content.last() {
            ContentView::ToolCall { id, name, arguments } => calls_of(content.drop_last()).push((id, name, arguments)),
            _ => calls_of(content.drop_last()),
        }
    }
}

/// A copy of an optional string.
pub fn clone_opt_string(o: &Option<String>) -> (copy: Option<String>)
    ensures
        copy.deep_view() == o.deep_view(),
{
    match o {
        Some(s) => Some(s.clone()),
        None => None,
    }
}

/// A copy of a list of strings.
pub fn clone_strings(v: &Vec<String>) -> (copy: Vec<String>)
    ensures
        copy.deep_view() == v.deep_view(),
{
    let copy = v.clone();
    assert(copy.deep_view() =~= v.deep_view());
    copy
}

impl Clone for Content {
    fn clone(&self) -> (copy: Self)
        ensures
            copy@ == self@,
    {
        match self {
            Content::Text { text } => Content::Text { text: text.clone() },
            Content::Data { data, media_type } => {
                let bytes = data.clone();
                assert(bytes@ =~= data@);
                Content::Data { data: bytes, media_type: media_type.clone() }
            },
            Content::Uri { uri, media_type } => Content::Uri {
                uri: uri.clone(),
                media_type: clone_opt_string(media_type),
            },
            Content::ToolCall { id, name, arguments } => Content::ToolCall {
                id: id.clone(),
                name: name.clone(),
                arguments: arguments.clone(),
            },
            Content::ToolResult { tool_call_id, content } => Content::ToolResult {
                tool_call_id: tool_call_id.clone(),
                content: content.clone(),
            },
        }
    }
}

impl Content {
    /// Create a text content item.
    pub fn text(text: &str) -> (content: Self)
        ensures
            content@ == (ContentView::Text { text: text@ }),
    {
        Content::Text { text: text.to_owned() }
    }

    /// Create a tool call content item.
    pub fn tool_call(id: &str, name: &str, arguments: Json) -> (content: Self)
        ensures
            content@ == (ContentView::ToolCall { id: id@, name: name@, arguments: arguments@ }),
    {
        Content::ToolCall { id: id.to_owned(), name: name.to_owned(), arguments }
    }

    /// Create a tool result content item.
    pub fn tool_result(tool_call_id: &str, content: &str) -> (item: Self)
        ensures
            item@ == (ContentView::ToolResult { tool_call_id: tool_call_id@, content: content@ }),
    {
        Content::ToolResult { tool_call_id: tool_call_id.to_owned(), content: content.to_owned() }
    }

    /// The text of this content, if it is a text block.
    pub fn as_text(&self) -> (found: Option<&str>)
        ensures
            match found {
                Some(text) => self@ == (ContentView::Text { text: text@ }),
                None => !(self@ is Text),
            },
    {
        match self {
            Content::Text { text } => Some(text.as_str()),
            _ => None,
        }
    }

    /// The tool call in this content, if it is one: id, name and arguments.
    pub fn as_tool_call(&self) -> (found: Option<(&str, &str, &Json)>)
        ensures
            match found {
                Some(call) => self@ == (ContentView::ToolCall { id: call.0@, name: call.1@, arguments: call.2@ }),
                None => !(self@ is ToolCall),
            },
    {
        match self {
            Content::ToolCall { id, name, arguments } => Some((id.as_str(), name.as_str(), arguments)),
            _ => None,
        }
    }
}

/// A message in a conversation.
#[derive(Debug)]
pub struct Message {
    /// The role of the message author.
    pub role: Role,
    /// The content blocks in this message.
    pub content: Vec<Content>,
    /// An optional name for the participant.
    pub name: Option<String>,
    /// Arbitrary metadata attached to this message.
    pub metadata: JsonObject,
}

/// What a message holds.
#[verifier::ext_equal]
pub struct MessageView {
    pub role: Role,
    pub content: Seq<ContentView>,
    pub name: Option<Seq<char>>,
    pub metadata: Map<Seq<char>, JsonView>,
}

impl View for Message {
    type V = MessageView;

    open spec fn view(&self) -> MessageView {
        MessageView {
            role: self.role,
            content: self.content.deep_view(),
            name: self.name.deep_view(),
            metadata: self.metadata@,
        }
    }
}

impl DeepView for Message {
    type V = MessageView;

    open spec fn deep_view(&self) -> MessageView {
        self@
    }
}

/// A message without name and metadata.
pub open spec fn bare_message(role: Role, content: Seq<ContentView>) -> MessageView {
    MessageView { role, content, name: None, metadata: Map::empty() }
}

/// A message of one text block.
pub open spec fn text_message(role: Role, text: Seq<char>) -> MessageView {
    bare_message(role, seq![ContentView::Text { text }])
}

impl Clone for Message {
    fn clone(&self) -> (copy: Self)
        ensures
            copy@ == self@,
    {
        let content = self.content.clone();
        assert(content.deep_view() =~= self.content.deep_view());
        Message {
            role: self.role,
            content,
            name: clone_opt_string(&self.name),
            metadata: self.metadata.clone(),
        }
    }
}

/// A copy of a list of messages.
pub fn clone_messages(v: &Vec<Message>) -> (copy: Vec<Message>)
    ensures
        copy.deep_view() == v.deep_view(),
{
    let copy = v.clone();
    assert(copy.deep_view() =~= v.deep_view());
    copy
}

/// Append copies of messages to a list.
pub fn extend_messages(out: &mut Vec<Message>, more: &Vec<Message>)
    ensures
        final(out).deep_view() == old(out).deep_view() + more.deep_view(),
{
    let ghost before = out.deep_view();
    let mut copies = clone_messages(more);
    out.append(&mut copies);
    assert(out.deep_view() =~= before + more.deep_view());
}

impl Message {
    /// A message of the given role and blocks, without name and metadata.
    pub fn bare(role: Role, content: Vec<Content>) -> (message: Self)
        ensures
            message@ == bare_message(role, content.deep_view()),
    {
        Message { role, content, name: None, metadata: JsonObject::new() }
    }

    /// A message of one text block.
    pub fn of_text(role: Role, text: &str) -> (message: Self)
        ensures
            message@ == text_message(role, text@),
    {
        let mut content: Vec<Content> = Vec::new();
        content.push(Content::text(text));
        assert(content.deep_view() =~= seq![ContentView::Text { text: text@ }]);
        Message::bare(role, content)
    }

    /// Create a user message with text content.
    pub fn user(text: &str) -> (message: Self)
        ensures
            message@ == text_message(Role::User, text@),
    {
        Message::of_text(Role::User, text)
    }

    /// Create an assistant message with text content.
    pub fn assistant(text: &str) -> (message: Self)
        ensures
            message@ == text_message(Role::Assistant, text@),
    {
        Message::of_text(Role::Assistant, text)
    }

    /// Create a system message with text content.
    pub fn system(text: &str) -> (message: Self)
        ensures
            message@ == text_message(Role::System, text@),
    {
        Message::of_text(Role::System, text)
    }

    /// Create a tool result message.
    pub fn tool_result(tool_call_id: &str, result: &str) -> (message: Self)
        ensures
            message@ == bare_message(
                Role::Tool,
                seq![ContentView::ToolResult { tool_call_id: tool_call_id@, content: result@ }],
            ),
    {
        let mut content: Vec<Content> = Vec::new();
        content.push(Content::tool_result(tool_call_id, result));
        assert(content.deep_view() =~= seq![
            ContentView::ToolResult { tool_call_id: tool_call_id@, content: result@ },
        ]);
        Message::bare(Role::Tool, content)
    }

    /// All text content of this message, concatenated.
    pub fn text(&self) -> (text: String)
        ensures
            text@ == text_of(self@.content),
    {
        let mut text = String::new();
        push_texts(&mut text, &self.content);
        assert(Seq::<char>::empty() + text_of(self@.content) =~= text_of(self@.content));
        text
    }

    /// All tool calls of this message: id, name and arguments.
    pub fn tool_calls(&self) -> (calls: Vec<(&str, &str, &Json)>)
        ensures
            calls.deep_view() == calls_of(self@.content),
    {
        let mut calls: Vec<(&str, &str, &Json)> = Vec::new();
        let mut i: usize = 0;
        let ghost all = self@.content;
        assert(calls.deep_view() =~= Seq::empty());
        while i < self.content.len()
            invariant
                i <= self.content@.len(),
                all == self.content.deep_view(),
                calls.deep_view() == calls_of(all.take(i as int)),
            decreases self.content@.len() - i,
        {
            let ghost before = calls.deep_view();
            assert(all.take(i + 1).drop_last() =~= all.take(i as int));
            if let Some(call) = self.content[i].as_tool_call() {
                calls.push(call);
                assert(calls.deep_view() =~= before.push(call.deep_view()));
            }
            i += 1;
        }
        assert(all.take(i as int) =~= all);
        calls
    }
}

/// Append the texts of the text blocks to `out`.
pub fn push_texts(out: &mut String, content: &Vec<Content>)
    ensures
        final(out)@ == old(out)@ + text_of(content.deep_view()),
{
    let mut i: usize = 0;
    let ghost start = out@;
    let ghost all = content.deep_view();
    assert(start + Seq::<char>::empty() =~= start);
    while i < content.len()
        invariant
            i <= content@.len(),
            all == content.deep_view(),
            out@ == start + text_of(all.take(i as int)),
        decreases content@.len() - i,
    {
        assert(all.take(i + 1).drop_last() =~= all.take(i as int));
        if let Some(text) = content[i].as_text() {
            let ghost before = text_of(all.take(i as int));
            out.append(text);
            assert(out@ =~= start + (before + text@));
        }
        i += 1;
    }
    assert(all.take(i as int) =~= all);
}

/// Token usage information from a model response.
#[derive(Debug, Clone, Copy, PartialEq, Eq, Structural)]
pub struct Usage {
    /// Number of tokens in the input.
    pub input_tokens: u32,
    /// Number of tokens in the output.
    pub output_tokens: u32,
}

impl DeepView for Usage {
    type V = Usage;

    open spec fn deep_view(&self) -> Usage {
        *self
    }
}

impl Default for Usage {
    fn default() -> (usage: Self)
        ensures
            usage == (Usage { input_tokens: 0, output_tokens: 0 }),
    {
        Usage { input_tokens: 0, output_tokens: 0 }
    }
}

/// Reason the model stopped generating.
#[derive(Debug, Clone, Copy, PartialEq, Eq, Structural)]
pub enum FinishReason {
    /// The model reached a natural stop point.
    Stop,
    /// The model hit the maximum token limit.
    MaxTokens,
    /// The model wants to call one or more tools.
    ToolUse,
    /// The response was filtered by content policy.
    ContentFilter,
}

impl DeepView for FinishReason {
    type V = FinishReason;

    open spec fn deep_view(&self) -> FinishReason {
        *self
    }
}

/// How the model should format its response.
#[derive(Debug)]
pub enum ResponseFormat {
    /// Unconstrained text output.
    Text,
    /// The model must respond with a syntactically valid JSON object.
    JsonObject,
    /// The model must respond with JSON that conforms to the schema.
    JsonSchema { name: String, schema: Json, strict: Option<bool> },
}

/// What a response format holds.
#[verifier::ext_equal]
pub enum ResponseFormatView {
    Text,
    JsonObject,
    JsonSchema { name: Seq<char>, schema: JsonView, strict: Option<bool> },
}

impl View for ResponseFormat {
    type V = ResponseFormatView;

    open spec fn view(&self) -> ResponseFormatView {
        match self {
            ResponseFormat::Text => ResponseFormatView::Text,
            ResponseFormat::JsonObject => ResponseFormatView::JsonObject,
            ResponseFormat::JsonSchema { name, schema, strict } => ResponseFormatView::JsonSchema {
                name: name@,
                schema: schema@,
                strict: *strict,
            },
        }
    }
}

impl DeepView for ResponseFormat {
    type V = ResponseFormatView;

    open spec fn deep_view(&self) -> ResponseFormatView {
        self@
    }
}

impl Clone for ResponseFormat {
    fn clone(&self) -> (copy: Self)
        ensures
            copy@ == self@,
    {
        match self {
            ResponseFormat::Text => ResponseFormat::Text,
            ResponseFormat::JsonObject => ResponseFormat::JsonObject,
            ResponseFormat::JsonSchema { name, schema, strict } => ResponseFormat::JsonSchema {
                name: name.clone(),
                schema: schema.clone(),
                strict: *strict,
            },
        }
    }
}

/// How the model should choose whether to call tools.
#[derive(Debug)]
pub enum ToolChoice {
    /// Let the model decide whether to call tools.
    Auto,
    /// Forbid tool calls this turn.
    Forbidden,
    /// Require the model to call at least one tool this turn.
    Required,
    /// Force the model to call this specific tool by name.
    Specific { name: String },
}

/// What a tool choice holds.
#[verifier::ext_equal]
pub enum ToolChoiceView {
    Auto,
    Forbidden,
    Required,
    Specific { name: Seq<char> },
}

impl View for ToolChoice {
    type V = ToolChoiceView;

    open spec fn view(&self) -> ToolChoiceView {
        match self {
            ToolChoice::Auto => ToolChoiceView::Auto,
            ToolChoice::Forbidden => ToolChoiceView::Forbidden,
            ToolChoice::Required => ToolChoiceView::Required,
            ToolChoice::Specific { name } => ToolChoiceView::Specific { name: name@ },
        }
    }
}

impl DeepView for ToolChoice {
    type V = ToolChoiceView;

    open spec fn deep_view(&self) -> ToolChoiceView {
        self@
    }
}

impl Clone for ToolChoice {
    fn clone(&self) -> (copy: Self)
        ensures
            copy@ == self@,
    {
        match self {
            ToolChoice::Auto => ToolChoice::Auto,
            ToolChoice::Forbidden => ToolChoice::Forbidden,
            ToolChoice::Required => ToolChoice::Required,
            ToolChoice::Specific { name } => ToolChoice::Specific { name: name.clone() },
        }
    }
}

/// Options for a chat completion request.
#[derive(Debug)]
pub struct ChatOptions {
    /// The model identifier to use.
    pub model: Option<String>,
    /// Maximum number of tokens to generate.
    pub max_tokens: Option<u32>,
    /// Sampling temperature.
    pub temperature: Option<F32>,
    /// Nucleus sampling top-p.
    pub top_p: Option<F32>,
    /// Top-k sampling.
    pub top_k: Option<u32>,
    /// Random seed for reproducible sampling.
    pub seed: Option<i64>,
    /// Frequency penalty.
    pub frequency_penalty: Option<F32>,
    /// Presence penalty.
    pub presence_penalty: Option<F32>,
    /// Bias values by token id.
    pub logit_bias: Table<F32>,
    /// Stable end-user identifier for abuse monitoring.
    pub user: Option<String>,
    /// Required response format.
    pub response_format: Option<ResponseFormat>,
    /// How the model should choose whether to call tools.
    pub tool_choice: Option<ToolChoice>,
    /// Stop sequences.
    pub stop_sequences: Vec<String>,
    /// Tools the model may call during this request.
    pub tools: Vec<ToolDefinition>,
    /// Additional provider-specific options.
    pub extra: JsonObject,
}

/// What chat options hold.
#[verifier::ext_equal]
pub struct ChatOptionsView {
    pub model: Option<Seq<char>>,
    pub max_tokens: Option<u32>,
    pub temperature: Option<F32>,
    pub top_p: Option<F32>,
    pub top_k: Option<u32>,
    pub seed: Option<i64>,
    pub frequency_penalty: Option<F32>,
    pub presence_penalty: Option<F32>,
    pub logit_bias: Map<Seq<char>, F32>,
    pub user: Option<Seq<char>>,
    pub response_format: Option<ResponseFormatView>,
    pub tool_choice: Option<ToolChoiceView>,
    pub stop_sequences: Seq<Seq<char>>,
    pub tools: Seq<ToolDefinitionView>,
    pub extra: Map<Seq<char>, JsonView>,
}

impl View for ChatOptions {
    type V = ChatOptionsView;

    open spec fn view(&self) -> ChatOptionsView {
        ChatOptionsView {
            model: self.model.deep_view(),
            max_tokens: self.max_tokens,
            temperature: self.temperature,
            top_p: self.top_p,
            top_k: self.top_k,
            seed: self.seed,
            frequency_penalty: self.frequency_penalty,
            presence_penalty: self.presence_penalty,
            logit_bias: self.logit_bias@,
            user: self.user.deep_view(),
            response_format: self.response_format.deep_view(),
            tool_choice: self.tool_choice.deep_view(),
            stop_sequences: self.stop_sequences.deep_view(),
            tools: self.tools.deep_view(),
            extra: self.extra@,
        }
    }
}

impl DeepView for ChatOptions {
    type V = ChatOptionsView;

    open spec fn deep_view(&self) -> ChatOptionsView {
        self@
    }
}

/// Options that set nothing.
pub open spec fn no_options() -> ChatOptionsView {
    ChatOptionsView {
        model: None,
        max_tokens: None,
        temperature: None,
        top_p: None,
        top_k: None,
        seed: None,
        frequency_penalty: None,
        presence_penalty: None,
        logit_bias: Map::empty(),
        user: None,
        response_format: None,
        tool_choice: None,
        stop_sequences: Seq::empty(),
        tools: Seq::empty(),
        extra: Map::empty(),
    }
}

/// The overriding value if it is set, else the one underneath.
pub open spec fn over<T>(base: Option<T>, overriding: Option<T>) -> Option<T> {
    if overriding is Some {
        overriding
    } else {
        base
    }
}

/// Options with other options laid over them: what the other options set
/// replaces what is underneath, and a collection that is not empty replaces the
/// collection underneath.
pub open spec fn merged(base: ChatOptionsView, overrides: ChatOptionsView) -> ChatOptionsView {
    ChatOptionsView {
        model: over(base.model, overrides.model),
        max_tokens: over(base.max_tokens, overrides.max_tokens),
        temperature: over(base.temperature, overrides.temperature),
        top_p: over(base.top_p, overrides.top_p),
        top_k: over(base.top_k, overrides.top_k),
        seed: over(base.seed, overrides.seed),
        frequency_penalty: over(base.frequency_penalty, overrides.frequency_penalty),
        presence_penalty: over(base.presence_penalty, overrides.presence_penalty),
        logit_bias: if overrides.logit_bias == Map::<Seq<char>, F32>::empty() {
            base.logit_bias
        } else {
            overrides.logit_bias
        },
        user: over(base.user, overrides.user),
        response_format: over(base.response_format, overrides.response_format),
        tool_choice: over(base.tool_choice, overrides.tool_choice),
        stop_sequences: if overrides.stop_sequences.len() == 0 {
            base.stop_sequences
        } else {
            overrides.stop_sequences
        },
        tools: if overrides.tools.len() == 0 {
            base.tools
        } else {
            overrides.tools
        },
        extra: if overrides.extra == Map::<Seq<char>, JsonView>::empty() {
            base.extra
        } else {
            overrides.extra
        },
    }
}

/// A copy of a table of numbers.
pub fn clone_bias(table: &Table<F32>) -> (copy: Table<F32>)
    ensures
        copy@ == table@,
{
    let mut copy: Table<F32> = Table::new();
    let mut i: usize = 0;
    assert(table.entries@.take(0) =~= Seq::empty());
    while i < table.entries.len()
        invariant
            i <= table.entries@.len(),
            copy@ == crate::table::table_model(table.entries@.take(i as int)),
        decreases table.entries@.len() - i,
    {
        assert(table.entries@.take(i + 1).drop_last() =~= table.entries@.take(i as int));
        copy.insert(table.entries[i].0.as_str(), table.entries[i].1);
        i += 1;
    }
    assert(table.entries@.take(i as int) =~= table.entries@);
    copy
}

/// A copy of a list of tool definitions.
pub fn clone_tools(v: &Vec<ToolDefinition>) -> (copy: Vec<ToolDefinition>)
    ensures
        copy.deep_view() == v.deep_view(),
{
    let copy = v.clone();
    assert(copy.deep_view() =~= v.deep_view());
    copy
}

fn clone_format(o: &Option<ResponseFormat>) -> (copy: Option<ResponseFormat>)
    ensures
        copy.deep_view() == o.deep_view(),
{
    match o {
        Some(f) => Some(f.clone()),
        None => None,
    }
}

fn clone_choice(o: &Option<ToolChoice>) -> (copy: Option<ToolChoice>)
    ensures
        copy.deep_view() == o.deep_view(),
{
    match o {
        Some(c) => Some(c.clone()),
        None => None,
    }
}

/// The overriding value if it is set, else the one underneath.
fn pick<T: Copy>(base: Option<T>, overriding: Option<T>) -> (value: Option<T>)
    ensures
        value == over(base, overriding),
{
    if overriding.is_some() {
        overriding
    } else {
        base
    }
}

/// The overriding text if it is set, else the one underneath.
fn pick_string(base: &Option<String>, overriding: &Option<String>) -> (value: Option<String>)
    ensures
        value.deep_view() == over(base.deep_view(), overriding.deep_view()),
{
    if overriding.is_some() {
        clone_opt_string(overriding)
    } else {
        clone_opt_string(base)
    }
}

impl Clone for ChatOptions {
    fn clone(&self) -> (copy: Self)
        ensures
            copy@ == self@,
    {
        ChatOptions {
            model: clone_opt_string(&self.model),
            max_tokens: self.max_tokens,
            temperature: self.temperature,
            top_p: self.top_p,
            top_k: self.top_k,
            seed: self.seed,
            frequency_penalty: self.frequency_penalty,
            presence_penalty: self.presence_penalty,
            logit_bias: clone_bias(&self.logit_bias),
            user: clone_opt_string(&self.user),
            response_format: clone_format(&self.response_format),
            tool_choice: clone_choice(&self.tool_choice),
            stop_sequences: clone_strings(&self.stop_sequences),
            tools: clone_tools(&self.tools),
            extra: self.extra.clone(),
        }
    }
}

impl Default for ChatOptions {
    fn default() -> (options: Self)
        ensures
            options@ == no_options(),
    {
        let options = ChatOptions {
            model: None,
            max_tokens: None,
            temperature: None,
            top_p: None,
            top_k: None,
            seed: None,
            frequency_penalty: None,
            presence_penalty: None,
            logit_bias: Table::new(),
            user: None,
            response_format: None,
            tool_choice: None,
            stop_sequences: Vec::new(),
            tools: Vec::new(),
            extra: JsonObject::new(),
        };
        assert(options@ =~= no_options());
        options
    }
}

impl ChatOptions {
    /// Lay `overrides` over a copy of these options. What is set there replaces
    /// what is set here; a collection replaces the one here unless it is empty.
    pub fn merge(&self, overrides: &ChatOptions) -> (out: Self)
        ensures
            out@ == merged(self@, overrides@),
    {
        ChatOptions {
            model: pick_string(&self.model, &overrides.model),
            max_tokens: pick(self.max_tokens, overrides.max_tokens),
            temperature: pick(self.temperature, overrides.temperature),
            top_p: pick(self.top_p, overrides.top_p),
            top_k: pick(self.top_k, overrides.top_k),
            seed: pick(self.seed, overrides.seed),
            frequency_penalty: pick(self.frequency_penalty, overrides.frequency_penalty),
            presence_penalty: pick(self.presence_penalty, overrides.presence_penalty),
            logit_bias: if overrides.logit_bias.is_empty() {
                clone_bias(&self.logit_bias)
            } else {
                clone_bias(&overrides.logit_bias)
            },
            user: pick_string(&self.user, &overrides.user),
            response_format: if overrides.response_format.is_some() {
                clone_format(&overrides.response_format)
            } else {
                clone_format(&self.response_format)
            },
            tool_choice: if overrides.tool_choice.is_some() {
                clone_choice(&overrides.tool_choice)
            } else {
                clone_choice(&self.tool_choice)
            },
            stop_sequences: if overrides.stop_sequences.len() == 0 {
                clone_strings(&self.stop_sequences)
            } else {
                clone_strings(&overrides.stop_sequences)
            },
            tools: if overrides.tools.len() == 0 {
                clone_tools(&self.tools)
            } else {
                clone_tools(&overrides.tools)
            },
            extra: if overrides.extra.is_empty() {
                self.extra.clone()
            } else {
                overrides.extra.clone()
            },
        }
    }
}

/// Options that set nothing change nothing when they are laid over others, and
/// vanish under any others.
pub proof fn law_merge_identity(options: ChatOptionsView)
    ensures
        merged(options, no_options()) == options,
        merged(no_options(), options) == options,
{
    assert(merged(options, no_options()) =~= options);
    assert(merged(no_options(), options) =~= options);
}

/// Laying options over others one after the other is laying the merged options over them.
pub proof fn law_merge_associative(a: ChatOptionsView, b: ChatOptionsView, c: ChatOptionsView)
    ensures
        merged(merged(a, b), c) == merged(a, merged(b, c)),
{
    assert(merged(merged(a, b), c) =~= merged(a, merged(b, c)));
}

/// A complete response from a chat client.
#[derive(Debug)]
pub struct ChatResponse {
    /// The response messages from the model.
    pub messages: Vec<Message>,
    /// A provider-assigned response identifier.
    pub response_id: Option<String>,
    /// The reason the model stopped generating.
    pub finish_reason: Option<FinishReason>,
    /// Token usage statistics.
    pub usage: Option<Usage>,
}

/// What a chat response holds.
#[verifier::ext_equal]
pub struct ChatResponseView {
    pub messages: Seq<MessageView>,
    pub response_id: Option<Seq<char>>,
    pub finish_reason: Option<FinishReason>,
    pub usage: Option<Usage>,
}

impl View for ChatResponse {
    type V = ChatResponseView;

    open spec fn view(&self) -> ChatResponseView {
        ChatResponseView {
            messages: self.messages.deep_view(),
            response_id: self.response_id.deep_view(),
            finish_reason: self.finish_reason,
            usage: self.usage,
        }
    }
}

impl DeepView for ChatResponse {
    type V = ChatResponseView;

    open spec fn deep_view(&self) -> ChatResponseView {
        self@
    }
}

/// An incremental tool call update during streaming.
#[derive(Debug)]
pub struct ToolCallUpdate {
    /// The tool call id.
    pub id: String,
    /// The tool name.
    pub name: String,
    /// The next piece of the JSON arguments.
    pub arguments_delta: String,
}

/// What a tool call update holds.
#[verifier::ext_equal]
pub struct ToolCallUpdateView {
    pub id: Seq<char>,
    pub name: Seq<char>,
    pub arguments_delta: Seq<char>,
}

impl View for ToolCallUpdate {
    type V = ToolCallUpdateView;

    open spec fn view(&self) -> ToolCallUpdateView {
        ToolCallUpdateView { id: self.id@, name: self.name@, arguments_delta: self.arguments_delta@ }
    }
}

impl DeepView for ToolCallUpdate {
    type V = ToolCallUpdateView;

    open spec fn deep_view(&self) -> ToolCallUpdateView {
        self@
    }
}

impl Clone for ToolCallUpdate {
    fn clone(&self) -> (copy: Self)
        ensures
            copy@ == self@,
    {
        ToolCallUpdate {
            id: self.id.clone(),
            name: self.name.clone(),
            arguments_delta: self.arguments_delta.clone(),
        }
    }
}

/// An incremental update during streaming.
#[derive(Debug)]
pub struct ChatResponseUpdate {
    /// Incremental text content.
    pub text: Option<String>,
    /// A tool call being streamed.
    pub tool_call: Option<ToolCallUpdate>,
    /// The finish reason, if this is the final update.
    pub finish_reason: Option<FinishReason>,
    /// Usage info, typically sent with the final update.
    pub usage: Option<Usage>,
}

/// What a streaming update holds.
#[verifier::ext_equal]
pub struct UpdateView {
    pub text: Option<Seq<char>>,
    pub tool_call: Option<ToolCallUpdateView>,
    pub finish_reason: Option<FinishReason>,
    pub usage: Option<Usage>,
}

impl View for ChatResponseUpdate {
    type V = UpdateView;

    open spec fn view(&self) -> UpdateView {
        UpdateView {
            text: self.text.deep_view(),
            tool_call: self.tool_call.deep_view(),
            finish_reason: self.finish_reason,
            usage: self.usage,
        }
    }
}

impl DeepView for ChatResponseUpdate {
    type V = UpdateView;

    open spec fn deep_view(&self) -> UpdateView {
        self@
    }
}

/// An update that carries text alone.
pub open spec fn text_update(text: Seq<char>) -> UpdateView {
    UpdateView { text: Some(text), tool_call: None, finish_reason: None, usage: None }
}

/// An update that carries a piece of a tool call alone.
pub open spec fn call_update(id: Seq<char>, name: Seq<char>, arguments_delta: Seq<char>) -> UpdateView {
    UpdateView {
        text: None,
        tool_call: Some(ToolCallUpdateView { id, name, arguments_delta }),
        finish_reason: None,
        usage: None,
    }
}

/// An update that carries the end of the stream.
pub open spec fn end_update(finish_reason: Option<FinishReason>, usage: Option<Usage>) -> UpdateView {
    UpdateView { text: None, tool_call: None, finish_reason, usage }
}

impl ChatResponseUpdate {
    /// An update that carries text alone.
    pub fn of_text(text: &str) -> (update: Self)
        ensures
            update@ == text_update(text@),
    {
        ChatResponseUpdate { text: Some(text.to_owned()), tool_call: None, finish_reason: None, usage: None }
    }

    /// An update that carries a piece of a tool call alone.
    pub fn of_call(id: &str, name: &str, arguments_delta: &str) -> (update: Self)
        ensures
            update@ == call_update(id@, name@, arguments_delta@),
    {
        ChatResponseUpdate {
            text: None,
            tool_call: Some(
                ToolCallUpdate {
                    id: id.to_owned(),
                    name: name.to_owned(),
                    arguments_delta: arguments_delta.to_owned(),
                },
            ),
            finish_reason: None,
            usage: None,
        }
    }

    /// An update that carries the end of the stream.
    pub fn of_end(finish_reason: Option<FinishReason>, usage: Option<Usage>) -> (update: Self)
        ensures
            update@ == end_update(finish_reason, usage),
    {
        ChatResponseUpdate { text: None, tool_call: None, finish_reason, usage }
    }
}

/// An incremental update from an agent run.
#[derive(Debug)]
pub struct AgentResponseUpdate {
    /// Incremental text, if any.
    pub text: Option<String>,
    /// The underlying chat response update.
    pub inner: ChatResponseUpdate,
}

impl AgentResponseUpdate {
    /// The agent's update for a provider's update: the text stands beside it too.
    pub fn from_update(inner: ChatResponseUpdate) -> (update: Self)
        ensures
            update.inner@ == inner@,
            update.text.deep_view() == inner@.text,
    {
        AgentResponseUpdate { text: clone_opt_string(&inner.text), inner }
    }
}

/// A complete response from an agent run.
#[derive(Debug)]
pub struct AgentResponse {
    /// All messages produced during the agent run.
    pub messages: Vec<Message>,
    /// The final text output from the agent.
    pub text: String,
    /// The reason the model stopped generating.
    pub finish_reason: Option<FinishReason>,
    /// Token usage accumulated across all model calls in this run.
    pub usage: Option<Usage>,
}

/// What an agent response holds.
#[verifier::ext_equal]
pub struct AgentResponseView {
    pub messages: Seq<MessageView>,
    pub text: Seq<char>,
    pub finish_reason: Option<FinishReason>,
    pub usage: Option<Usage>,
}

impl View for AgentResponse {
    type V = AgentResponseView;

    open spec fn view(&self) -> AgentResponseView {
        AgentResponseView {
            messages: self.messages.deep_view(),
            text: self.text@,
            finish_reason: self.finish_reason,
            usage: self.usage,
        }
    }
}

impl DeepView for AgentResponse {
    type V = AgentResponseView;

    open spec fn deep_view(&self) -> AgentResponseView {
        self@
    }
}

impl Clone for AgentResponse {
    fn clone(&self) -> (copy: Self)
        ensures
            copy@ == self@,
    {
        AgentResponse {
            messages: clone_messages(&self.messages),
            text: self.text.clone(),
            finish_reason: self.finish_reason,
            usage: self.usage,
        }
    }
}

/// The texts of messages, one after the other.
pub open spec fn texts_of(messages: Seq<MessageView>) -> Seq<char>
    decreases messages.len(),
{
    if messages.len() == 0 {
        Seq::empty()
    } else {
        texts_of(messages.drop_last()) + text_of(messages.last().content)
    }
}

/// The tool calls of messages, in order.
pub open spec fn calls_in(messages: Seq<MessageView>) -> Seq<(Seq<char>, Seq<char>, JsonView)>
    decreases messages.len(),
{
    if messages.len() == 0 {
        Seq::empty()
    } else {
        calls_in(messages.drop_last()) + calls_of(messages.last().content)
    }
}

impl AgentResponse {
    /// Build an agent response from the final model response and the messages of the run.
    pub fn from_chat_response(chat_response: ChatResponse, all_messages: Vec<Message>) -> (response: Self)
        ensures
            response@ == (AgentResponseView {
                messages: all_messages.deep_view(),
                text: texts_of(chat_response@.messages),
                finish_reason: chat_response@.finish_reason,
                usage: chat_response@.usage,
            }),
    {
        let mut text = String::new();
        let mut i: usize = 0;
        let ghost all = chat_response@.messages;
        while i < chat_response.messages.len()
            invariant
                i <= chat_response.messages@.len(),
                all == chat_response.messages.deep_view(),
                text@ == texts_of(all.take(i as int)),
            decreases chat_response.messages@.len() - i,
        {
            assert(all.take(i + 1).drop_last() =~= all.take(i as int));
            push_texts(&mut text, &chat_response.messages[i].content);
            i += 1;
        }
        assert(all.take(i as int) =~= all);
        AgentResponse {
            messages: all_messages,
            text,
            finish_reason: chat_response.finish_reason,
            usage: chat_response.usage,
        }
    }
}

/// The role of a name. What is neither the system nor the assistant is a user.
pub open spec fn role_named(name: Seq<char>) -> Role {
    if name == "system"@ {
        Role::System
    } else if name == "assistant"@ {
        Role::Assistant
    } else {
        Role::User
    }
}

impl Message {
    /// A text message with the role of a name.
    pub fn of_role_name(role: &str, text: &str) -> (message: Self)
        ensures
            message@ == text_message(role_named(role@), text@),
    {
        let role = if str_eq(role, "system") {
            Role::System
        } else if str_eq(role, "assistant") {
            Role::Assistant
        } else {
            Role::User
        };
        Message::of_text(role, text)
    }
}

/// The texts of messages, one by one, without those that are empty. Unless
/// `everyone` says so, only what users and the system say counts.
pub open spec fn spoken_texts(messages: Seq<MessageView>, everyone: bool) -> Seq<Seq<char>>
    decreases messages.len(),
{
    if messages.len() == 0 {
        Seq::empty()
    } else {
        let before = spoken_texts(messages.drop_last(), everyone);
        let message = messages.last();
        if (everyone || message.role == Role::User || message.role == Role::System) && text_of(message.content).len()
            > 0 {
            before.push(text_of(message.content))
        } else {
            before
        }
    }
}

/// The texts of messages, one by one, without those that are empty.
pub fn collect_spoken(messages: &Vec<Message>, everyone: bool) -> (texts: Vec<String>)
    ensures
        texts.deep_view() == spoken_texts(messages.deep_view(), everyone),
{
    let mut texts: Vec<String> = Vec::new();
    let ghost all = messages.deep_view();
    let mut i: usize = 0;
    assert(texts.deep_view() =~= Seq::empty());
    while i < messages.len()
        invariant
            i <= messages@.len(),
            all == messages.deep_view(),
            texts.deep_view() == spoken_texts(all.take(i as int), everyone),
        decreases messages@.len() - i,
    {
        assert(all.take(i + 1).drop_last() =~= all.take(i as int));
        if everyone || messages[i].role == Role::User || messages[i].role == Role::System {
            let text = messages[i].text();
            if !text.as_str().is_empty() {
                let ghost before = texts.deep_view();
                let ghost pushed = text@;
                texts.push(text);
                assert(texts.deep_view() =~= before.push(pushed));
            }
        }
        i += 1;
    }
    assert(all.take(i as int) =~= all);
    texts
}

/// The response of an agent whose service has replied with a text.
pub open spec fn replied(messages: Seq<MessageView>, reply: Seq<char>) -> AgentResponseView {
    AgentResponseView {
        messages: messages.push(text_message(Role::Assistant, reply)),
        text: reply,
        finish_reason: Some(FinishReason::Stop),
        usage: None,
    }
}

impl AgentResponse {
    /// The response of an agent whose service has replied with a text: the input
    /// and the reply.
    pub fn of_reply(messages: Vec<Message>, reply: &str) -> (response: Self)
        ensures
            response@ == replied(messages.deep_view(), reply@),
    {
        let mut all = messages;
        let ghost before = all.deep_view();
        all.push(Message::assistant(reply));
        assert(all.deep_view() =~= before.push(text_message(Role::Assistant, reply@)));
        AgentResponse {
            messages: all,
            text: reply.to_owned(),
            finish_reason: Some(FinishReason::Stop),
            usage: None,
        }
    }
}

/// Per-call overrides for a single agent invocation.
#[derive(Debug)]
pub struct AgentRunOptions {
    /// Override individual chat options for this call only.
    pub chat_options: Option<ChatOptions>,
    /// Additional system-level instructions for this call only.
    pub additional_instructions: Option<String>,
}

impl Default for AgentRunOptions {
    fn default() -> (options: Self)
        ensures
            options.chat_options is None,
            options.additional_instructions is None,
    {
        AgentRunOptions { chat_options: None, additional_instructions: None }
    }
}

impl AgentRunOptions {
    /// Options that override nothing.
    pub fn new() -> (options: Self)
        ensures
            options.chat_options is None,
            options.additional_instructions is None,
    {
        AgentRunOptions { chat_options: None, additional_instructions: None }
    }

    /// Set per-call chat option overrides.
    pub fn with_chat_options(self, options: ChatOptions) -> (out: Self)
        ensures
            out.chat_options == Some(options),
            out.additional_instructions == self.additional_instructions,
    {
        AgentRunOptions { chat_options: Some(options), additional_instructions: self.additional_instructions }
    }

    /// Add extra system-level instructions for this call only.
    pub fn with_additional_instructions(self, instructions: &str) -> (out: Self)
        ensures
            out.chat_options == self.chat_options,
            out.additional_instructions.deep_view() == Some(instructions@),
    {
        AgentRunOptions { chat_options: self.chat_options, additional_instructions: Some(instructions.to_owned()) }
    }
}

// ---------------------------------------------------------------------------
// Laws of messages, options and responses
// ---------------------------------------------------------------------------

/// The text of blocks is made of the texts of the text blocks alone, each as it is, in
/// the order of the blocks.
pub proof fn law_text_of_blocks(first: Seq<ContentView>, block: ContentView, rest: Seq<ContentView>)
    ensures
        text_of(Seq::empty()) == Seq::<char>::empty(),
        text_of(first + rest) == text_of(first) + text_of(rest),
        text_of(seq![block]) == match block {
            ContentView::Text { text } => text,
            _ => Seq::<char>::empty(),
        },
        text_of(first.push(block) + rest) == match block {
            ContentView::Text { text } => text_of(first) + text + text_of(rest),
            _ => text_of(first) + text_of(rest),
        },
{
    lemma_text_of_sum(first, rest);
    lemma_text_of_sum(first.push(block), rest);
    assert(first.push(block).drop_last() =~= first);
    assert(seq![block].drop_last() =~= Seq::empty());
    assert(text_of(seq![block].drop_last()) == Seq::<char>::empty());
    if let ContentView::Text { text } = block {
        assert(Seq::<char>::empty() + text =~= text);
    }
}

proof fn lemma_text_of_sum(a: Seq<ContentView>, b: Seq<ContentView>)
    ensures
        text_of(a + b) == text_of(a) + text_of(b),
    decreases b.len(),
{
    if b.len() == 0 {
        assert(a + b =~= a);
        assert(text_of(a) + Seq::<char>::empty() =~= text_of(a));
    } else {
        lemma_text_of_sum(a, b.drop_last());
        assert((a + b).drop_last() =~= a + b.drop_last());
        assert((a + b).last() == b.last());
        if let ContentView::Text { text } = b.last() {
            assert(text_of(a) + text_of(b.drop_last()) + text =~= text_of(a) + (text_of(b.drop_last()) + text));
        }
    }
}

/// The calls among blocks are the tool calls alone, each with its own id, name and
/// arguments, in the order of the blocks.
pub proof fn law_calls_of_blocks(first: Seq<ContentView>, block: ContentView, rest: Seq<ContentView>)
    ensures
        calls_of(Seq::empty()).len() == 0,
        calls_of(first + rest) == calls_of(first) + calls_of(rest),
        calls_of(seq![block]) == match block {
            ContentView::ToolCall { id, name, arguments } => seq![(id, name, arguments)],
            _ => Seq::empty(),
        },
        calls_of(first.push(block) + rest) == match block {
            ContentView::ToolCall { id, name, arguments } => calls_of(first).push((id, name, arguments)) + calls_of(
                rest,
            ),
            _ => calls_of(first) + calls_of(rest),
        },
{
    lemma_calls_of_sum(first, rest);
    lemma_calls_of_sum(first.push(block), rest);
    assert(first.push(block).drop_last() =~= first);
    assert(seq![block].drop_last() =~= Seq::empty());
    assert(calls_of(seq![block].drop_last()) == Seq::<(Seq<char>, Seq<char>, JsonView)>::empty());
    if let ContentView::ToolCall { id, name, arguments } = block {
        assert(calls_of(seq![block]) =~= seq![(id, name, arguments)]);
    }
}

proof fn lemma_calls_of_sum(a: Seq<ContentView>, b: Seq<ContentView>)
    ensures
        calls_of(a + b) == calls_of(a) + calls_of(b),
    decreases b.len(),
{
    if b.len() == 0 {
        assert(a + b =~= a);
        assert(calls_of(a) + calls_of(b) =~= calls_of(a));
    } else {
        lemma_calls_of_sum(a, b.drop_last());
        assert((a + b).drop_last() =~= a + b.drop_last());
        assert((a + b).last() == b.last());
        assert(calls_of(a + b) =~= calls_of(a) + calls_of(b));
    }
}

/// The text of messages is made of the texts of the messages, in their order.
pub proof fn law_texts_of_messages(first: Seq<MessageView>, message: MessageView, rest: Seq<MessageView>)
    ensures
        texts_of(Seq::empty()) == Seq::<char>::empty(),
        texts_of(first + rest) == texts_of(first) + texts_of(rest),
        texts_of(seq![message]) == text_of(message.content),
    decreases rest.len(),
{
    assert(seq![message].drop_last() =~= Seq::empty());
    assert(texts_of(seq![message].drop_last()) == Seq::<char>::empty());
    assert(Seq::<char>::empty() + text_of(message.content) =~= text_of(message.content));
    if rest.len() == 0 {
        assert(first + rest =~= first);
        assert(texts_of(first) + texts_of(rest) =~= texts_of(first));
    } else {
        law_texts_of_messages(first, message, rest.drop_last());
        assert((first + rest).drop_last() =~= first + rest.drop_last());
        assert((first + rest).last() == rest.last());
        assert(texts_of(first + rest) =~= texts_of(first) + texts_of(rest));
    }
}

/// The calls of messages are the calls of each message, in their order.
pub proof fn law_calls_of_messages(first: Seq<MessageView>, message: MessageView, rest: Seq<MessageView>)
    ensures
        calls_in(Seq::empty()).len() == 0,
        calls_in(first + rest) == calls_in(first) + calls_in(rest),
        calls_in(seq![message]) == calls_of(message.content),
    decreases rest.len(),
{
    assert(seq![message].drop_last() =~= Seq::empty());
    assert(calls_in(seq![message].drop_last()) == Seq::<(Seq<char>, Seq<char>, JsonView)>::empty());
    assert(calls_in(seq![message]) =~= calls_of(message.content));
    if rest.len() == 0 {
        assert(first + rest =~= first);
        assert(calls_in(first) + calls_in(rest) =~= calls_in(first));
    } else {
        law_calls_of_messages(first, message, rest.drop_last());
        assert((first + rest).drop_last() =~= first + rest.drop_last());
        assert((first + rest).last() == rest.last());
        assert(calls_in(first + rest) =~= calls_in(first) + calls_in(rest));
    }
}

/// What is said in messages is the text of each message that has one, and whose
/// speaker counts, in their order.
pub proof fn law_spoken_texts_of_messages(
    first: Seq<MessageView>,
    message: MessageView,
    rest: Seq<MessageView>,
    everyone: bool,
)
    ensures
        spoken_texts(Seq::empty(), everyone).len() == 0,
        spoken_texts(first + rest, everyone) == spoken_texts(first, everyone) + spoken_texts(rest, everyone),
        text_of(message.content).len() == 0 ==> spoken_texts(seq![message], everyone).len() == 0,
        text_of(message.content).len() > 0 && everyone ==> spoken_texts(seq![message], everyone) == seq![
            text_of(message.content),
        ],
        text_of(message.content).len() > 0 && (message.role == Role::User || message.role == Role::System)
            ==> spoken_texts(seq![message], everyone) == seq![text_of(message.content)],
        !everyone && (message.role == Role::Assistant || message.role == Role::Tool) ==> spoken_texts(
            seq![message],
            everyone,
        ).len() == 0,
    decreases rest.len(),
{
    assert(seq![message].drop_last() =~= Seq::empty());
    assert(spoken_texts(seq![message].drop_last(), everyone) =~= Seq::empty());
    assert(Seq::<Seq<char>>::empty().push(text_of(message.content)) =~= seq![text_of(message.content)]);
    if rest.len() == 0 {
        assert(first + rest =~= first);
        assert(spoken_texts(first, everyone) + spoken_texts(rest, everyone) =~= spoken_texts(first, everyone));
    } else {
        law_spoken_texts_of_messages(first, message, rest.drop_last(), everyone);
        assert((first + rest).drop_last() =~= first + rest.drop_last());
        assert((first + rest).last() == rest.last());
        assert(spoken_texts(first + rest, everyone) =~= spoken_texts(first, everyone) + spoken_texts(rest, everyone));
    }
}

/// A message of one text says that text and nothing else, in the role that it is
/// given; it calls no tool and has neither name nor metadata.
pub proof fn law_text_message_says_its_text(role: Role, text: Seq<char>)
    ensures
        text_message(role, text).role == role,
        text_message(role, text).content.len() == 1,
        text_message(role, text).content[0] == (ContentView::Text { text }),
        text_of(text_message(role, text).content) == text,
        calls_of(text_message(role, text).content).len() == 0,
        text_message(role, text).name is None,
        text_message(role, text).metadata == Map::<Seq<char>, JsonView>::empty(),
{
    law_text_of_blocks(Seq::empty(), ContentView::Text { text }, Seq::empty());
    law_calls_of_blocks(Seq::empty(), ContentView::Text { text }, Seq::empty());
    assert(text_message(role, text).content =~= seq![ContentView::Text { text }]);
}

/// A message keeps the role and the blocks that it is made of, and nothing else is in it.
pub proof fn law_bare_message_keeps_its_blocks(role: Role, content: Seq<ContentView>)
    ensures
        bare_message(role, content).role == role,
        bare_message(role, content).content == content,
        bare_message(role, content).name is None,
        bare_message(role, content).metadata == Map::<Seq<char>, JsonView>::empty(),
{
}

/// The model of a message leaves nothing out: it has the role, the blocks, the name and
/// the metadata of the message, and a block's model has every field of the block.
pub proof fn law_message_model_is_complete(message: Message, block: Content)
    ensures
        message@.role == message.role,
        message@.content.len() == message.content@.len(),
        forall|i: int| 0 <= i < message.content@.len() ==> message@.content[i] == (#[trigger] message.content@[i])@,
        message@.name is Some <==> message.name is Some,
        message.name is Some ==> message@.name->0 == message.name->0@,
        message@.metadata == message.metadata@,
        block is Text ==> block@ is Text && block@->Text_text == block->Text_text@,
        block is Data ==> block@ is Data && block@->data == block->data@ && block@->Data_media_type
            == block->Data_media_type@,
        block is Uri ==> block@ is Uri && block@->uri == block->uri@ && block@->Uri_media_type
            == block->Uri_media_type.deep_view(),
        block is ToolCall ==> block@ is ToolCall && block@->id == block->id@ && block@->name == block->name@
            && block@->arguments == block->arguments@,
        block is ToolResult ==> block@ is ToolResult && block@->tool_call_id == block->tool_call_id@ && block@->content
            == block->content@,
{
}

/// A response's model has its messages, its reason to stop and its usage, and an
/// agent's response has its text too.
pub proof fn law_response_model_is_complete(response: ChatResponse, answer: AgentResponse, update: ChatResponseUpdate)
    ensures
        response@.messages == response.messages.deep_view(),
        response@.response_id == response.response_id.deep_view(),
        response@.finish_reason == response.finish_reason,
        response@.usage == response.usage,
        answer@.messages == answer.messages.deep_view(),
        answer@.text == answer.text@,
        answer@.finish_reason == answer.finish_reason,
        answer@.usage == answer.usage,
        update@.text == update.text.deep_view(),
        update@.tool_call is Some <==> update.tool_call is Some,
        update.tool_call is Some ==> {
            &&& update@.tool_call->0.id == update.tool_call->0.id@
            &&& update@.tool_call->0.name == update.tool_call->0.name@
            &&& update@.tool_call->0.arguments_delta == update.tool_call->0.arguments_delta@
        },
        update@.finish_reason == update.finish_reason,
        update@.usage == update.usage,
{
}

/// What the overriding options set comes out of a merge as it is set there, and what
/// they leave unset comes out as it is underneath.
pub proof fn law_merge_prefers_what_is_set(base: ChatOptionsView, overrides: ChatOptionsView)
    ensures
        merged(base, overrides).model == if overrides.model is Some { overrides.model } else { base.model },
        merged(base, overrides).max_tokens == if overrides.max_tokens is Some {
            overrides.max_tokens
        } else {
            base.max_tokens
        },
        merged(base, overrides).temperature == if overrides.temperature is Some {
            overrides.temperature
        } else {
            base.temperature
        },
        merged(base, overrides).top_p == if overrides.top_p is Some { overrides.top_p } else { base.top_p },
        merged(base, overrides).top_k == if overrides.top_k is Some { overrides.top_k } else { base.top_k },
        merged(base, overrides).seed == if overrides.seed is Some { overrides.seed } else { base.seed },
        merged(base, overrides).frequency_penalty == if overrides.frequency_penalty is Some {
            overrides.frequency_penalty
        } else {
            base.frequency_penalty
        },
        merged(base, overrides).presence_penalty == if overrides.presence_penalty is Some {
            overrides.presence_penalty
        } else {
            base.presence_penalty
        },
        merged(base, overrides).user == if overrides.user is Some { overrides.user } else { base.user },
        merged(base, overrides).response_format == if overrides.response_format is Some {
            overrides.response_format
        } else {
            base.response_format
        },
        merged(base, overrides).tool_choice == if overrides.tool_choice is Some {
            overrides.tool_choice
        } else {
            base.tool_choice
        },
        overrides.stop_sequences.len() > 0 ==> merged(base, overrides).stop_sequences == overrides.stop_sequences,
        overrides.stop_sequences.len() == 0 ==> merged(base, overrides).stop_sequences == base.stop_sequences,
        overrides.tools.len() > 0 ==> merged(base, overrides).tools == overrides.tools,
        overrides.tools.len() == 0 ==> merged(base, overrides).tools == base.tools,
        overrides.logit_bias.dom() =~= Set::empty() ==> merged(base, overrides).logit_bias == base.logit_bias,
        !(overrides.logit_bias.dom() =~= Set::empty()) ==> merged(base, overrides).logit_bias == overrides.logit_bias,
        overrides.extra.dom() =~= Set::empty() ==> merged(base, overrides).extra == base.extra,
        !(overrides.extra.dom() =~= Set::empty()) ==> merged(base, overrides).extra == overrides.extra,
{
    if overrides.logit_bias.dom() =~= Set::empty() {
        assert(overrides.logit_bias =~= Map::empty());
    }
    if overrides.extra.dom() =~= Set::empty() {
        assert(overrides.extra =~= Map::empty());
    }
}

/// Options that set nothing leave every choice to the provider.
pub proof fn law_no_options_set_nothing()
    ensures
        no_options().model is None,
        no_options().max_tokens is None,
        no_options().temperature is None,
        no_options().top_p is None,
        no_options().top_k is None,
        no_options().seed is None,
        no_options().frequency_penalty is None,
        no_options().presence_penalty is None,
        no_options().user is None,
        no_options().response_format is None,
        no_options().tool_choice is None,
        no_options().stop_sequences.len() == 0,
        no_options().tools.len() == 0,
        forall|k: Seq<char>| !(#[trigger] no_options().logit_bias.dom().contains(k)),
        forall|k: Seq<char>| !(#[trigger] no_options().extra.dom().contains(k)),
{
}

/// The model of options has every option as it is set.
pub proof fn law_options_model_is_complete(options: ChatOptions)
    ensures
        options@.model == options.model.deep_view(),
        options@.max_tokens == options.max_tokens,
        options@.temperature == options.temperature,
        options@.top_p == options.top_p,
        options@.top_k == options.top_k,
        options@.seed == options.seed,
        options@.frequency_penalty == options.frequency_penalty,
        options@.presence_penalty == options.presence_penalty,
        options@.logit_bias == options.logit_bias@,
        options@.user == options.user.deep_view(),
        options@.response_format == options.response_format.deep_view(),
        options@.tool_choice == options.tool_choice.deep_view(),
        options@.stop_sequences == options.stop_sequences.deep_view(),
        options@.tools == options.tools.deep_view(),
        options@.extra == options.extra@,
{
}

/// The name of a role leads back to it, except that there is no name by which a tool
/// speaks: that one is read as a user's.
pub proof fn law_roles_have_names(role: Role)
    ensures
        role_name(Role::System) == "system"@,
        role_name(Role::User) == "user"@,
        role_name(Role::Assistant) == "assistant"@,
        role_name(Role::Tool) == "tool"@,
        role != Role::Tool ==> role_named(role_name(role)) == role,
        role_named(role_name(Role::Tool)) == Role::User,
        forall|name: Seq<char>| name != "system"@ && name != "assistant"@ ==> #[trigger] role_named(name) == Role::User,
{
    reveal_strlit("system");
    reveal_strlit("user");
    reveal_strlit("assistant");
    reveal_strlit("tool");
    assert("user"@ != "system"@) by {
        assert("user"@.len() != "system"@.len());
    }
    assert("user"@ != "assistant"@) by {
        assert("user"@.len() != "assistant"@.len());
    }
    assert("tool"@ != "system"@) by {
        assert("tool"@.len() != "system"@.len());
    }
    assert("tool"@ != "assistant"@) by {
        assert("tool"@.len() != "assistant"@.len());
    }
    assert("assistant"@ != "system"@) by {
        assert("assistant"@.len() != "system"@.len());
    }
}

/// An agent whose service replied says the reply: it is the text of the response and of
/// its last message, the assistant's, and all that was sent stands before it.
pub proof fn law_reply_is_said(messages: Seq<MessageView>, reply: Seq<char>)
    ensures
        replied(messages, reply).text == reply,
        replied(messages, reply).messages.len() == messages.len() + 1,
        replied(messages, reply).messages.drop_last() == messages,
        replied(messages, reply).messages.last().role == Role::Assistant,
        text_of(replied(messages, reply).messages.last().content) == reply,
        replied(messages, reply).finish_reason == Some(FinishReason::Stop),
        replied(messages, reply).usage is None,
{
    law_text_message_says_its_text(Role::Assistant, reply);
    assert(replied(messages, reply).messages.drop_last() =~= messages);
}

/// An update of one kind carries what it is made of and nothing of the other kinds.
pub proof fn law_updates_carry_one_thing(
    text: Seq<char>,
    id: Seq<char>,
    name: Seq<char>,
    arguments_delta: Seq<char>,
    finish_reason: Option<FinishReason>,
    usage: Option<Usage>,
)
    ensures
        text_update(text).text == Some(text),
        text_update(text).tool_call is None && text_update(text).finish_reason is None && text_update(text).usage is None,
        call_update(id, name, arguments_delta).text is None,
        call_update(id, name, arguments_delta).tool_call is Some,
        call_update(id, name, arguments_delta).tool_call->0.id == id,
        call_update(id, name, arguments_delta).tool_call->0.name == name,
        call_update(id, name, arguments_delta).tool_call->0.arguments_delta == arguments_delta,
        call_update(id, name, arguments_delta).finish_reason is None && call_update(
            id,
            name,
            arguments_delta,
        ).usage is None,
        end_update(finish_reason, usage).text is None && end_update(finish_reason, usage).tool_call is None,
        end_update(finish_reason, usage).finish_reason == finish_reason,
        end_update(finish_reason, usage).usage == usage,
{
}

} // verus!
