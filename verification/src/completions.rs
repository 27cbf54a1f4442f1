//! The chat completions wire format, which several providers share: requests,
//! responses and stream chunks.

use vstd::prelude::*;

use crate::encoding::{base64_encode, base64_text};
use crate::json::{parsed, reads_as, rendered, Json, JsonObject, JsonView};
use crate::streaming::{arguments_of, arguments_or_raw};
use crate::table::{IndexTable, Table};
use crate::text::{cat4, str_eq};
use crate::tools::{ToolDefinition, ToolDefinitionView};
use crate::types::{
    bare_message, call_update, calls_of, clone_opt_string, clone_strings, end_update, law_calls_of_blocks,
    law_text_of_blocks, law_updates_carry_one_thing, no_options, role_name, text_of, text_update,
    ChatOptions, ChatOptionsView, ChatResponse, ChatResponseUpdate, ChatResponseView, Content, ContentView,
    FinishReason, Message, MessageView, ResponseFormat, ResponseFormatView, Role, ToolChoice, ToolChoiceView,
    UpdateView, Usage, F32,
};

verus! {

// ---------------------------------------------------------------------------
// Wire types
// ---------------------------------------------------------------------------

/// The function that a tool call calls, with its arguments as JSON text.
#[derive(Debug)]
pub struct CompletionFunctionCall {
    pub name: String,
    pub arguments: String,
}

/// What the function of a tool call holds.
#[verifier::ext_equal]
pub struct CompletionFunctionCallView {
    pub name: Seq<char>,
    pub arguments: Seq<char>,
}

/// A tool call on the wire.
#[derive(Debug)]
pub struct CompletionToolCall {
    pub id: String,
    pub kind: String,
    pub function: CompletionFunctionCall,
}

/// What a tool call on the wire holds.
#[verifier::ext_equal]
pub struct CompletionToolCallView {
    pub id: Seq<char>,
    pub kind: Seq<char>,
    pub function: CompletionFunctionCallView,
}

impl View for CompletionToolCall {
    type V = CompletionToolCallView;

    open spec fn view(&self) -> CompletionToolCallView {
        CompletionToolCallView {
            id: self.id@,
            kind: self.kind@,
            function: CompletionFunctionCallView {
                name: self.function.name@,
                arguments: self.function.arguments@,
            },
        }
    }
}

impl DeepView for CompletionToolCall {
    type V = CompletionToolCallView;

    open spec fn deep_view(&self) -> CompletionToolCallView {
        self@
    }
}

/// A message on the wire. The content is a string, or an array of parts.
#[derive(Debug)]
pub struct CompletionMessage {
    pub role: String,
    pub content: Option<Json>,
    pub tool_calls: Option<Vec<CompletionToolCall>>,
    pub tool_call_id: Option<String>,
}

/// What a message on the wire holds.
#[verifier::ext_equal]
pub struct CompletionMessageView {
    pub role: Seq<char>,
    pub content: Option<JsonView>,
    pub tool_calls: Option<Seq<CompletionToolCallView>>,
    pub tool_call_id: Option<Seq<char>>,
}

impl View for CompletionMessage {
    type V = CompletionMessageView;

    open spec fn view(&self) -> CompletionMessageView {
        CompletionMessageView {
            role: self.role@,
            content: self.content.deep_view(),
            tool_calls: self.tool_calls.deep_view(),
            tool_call_id: self.tool_call_id.deep_view(),
        }
    }
}

impl DeepView for CompletionMessage {
    type V = CompletionMessageView;

    open spec fn deep_view(&self) -> CompletionMessageView {
        self@
    }
}

/// The function of a tool.
#[derive(Debug)]
pub struct CompletionFunction {
    pub name: String,
    pub description: String,
    pub parameters: Json,
}

/// What the function of a tool holds.
#[verifier::ext_equal]
pub struct CompletionFunctionView {
    pub name: Seq<char>,
    pub description: Seq<char>,
    pub parameters: JsonView,
}

/// A tool on the wire.
#[derive(Debug)]
pub struct CompletionTool {
    pub kind: String,
    pub function: CompletionFunction,
}

/// What a tool on the wire holds.
#[verifier::ext_equal]
pub struct CompletionToolView {
    pub kind: Seq<char>,
    pub function: CompletionFunctionView,
}

impl View for CompletionTool {
    type V = CompletionToolView;

    open spec fn view(&self) -> CompletionToolView {
        CompletionToolView {
            kind: self.kind@,
            function: CompletionFunctionView {
                name: self.function.name@,
                description: self.function.description@,
                parameters: self.function.parameters@,
            },
        }
    }
}

impl DeepView for CompletionTool {
    type V = CompletionToolView;

    open spec fn deep_view(&self) -> CompletionToolView {
        self@
    }
}

/// The body of a request. What is `None` is left out.
#[derive(Debug)]
pub struct CompletionRequest {
    pub model: String,
    pub max_tokens: Option<u32>,
    pub messages: Vec<CompletionMessage>,
    pub tools: Option<Vec<CompletionTool>>,
    pub temperature: Option<F32>,
    pub top_p: Option<F32>,
    pub seed: Option<i64>,
    pub frequency_penalty: Option<F32>,
    pub presence_penalty: Option<F32>,
    pub logit_bias: Option<Table<F32>>,
    pub user: Option<String>,
    pub response_format: Option<Json>,
    pub tool_choice: Option<Json>,
    pub stop: Option<Vec<String>>,
    pub stream: Option<bool>,
    /// Whether the stream is to report the usage at its end.
    pub include_usage: Option<bool>,
}

/// What the body of a request holds.
#[verifier::ext_equal]
pub struct CompletionRequestView {
    pub model: Seq<char>,
    pub max_tokens: Option<u32>,
    pub messages: Seq<CompletionMessageView>,
    pub tools: Option<Seq<CompletionToolView>>,
    pub temperature: Option<F32>,
    pub top_p: Option<F32>,
    pub seed: Option<i64>,
    pub frequency_penalty: Option<F32>,
    pub presence_penalty: Option<F32>,
    pub logit_bias: Option<Map<Seq<char>, F32>>,
    pub user: Option<Seq<char>>,
    pub response_format: Option<JsonView>,
    pub tool_choice: Option<JsonView>,
    pub stop: Option<Seq<Seq<char>>>,
    pub stream: Option<bool>,
    pub include_usage: Option<bool>,
}

impl View for CompletionRequest {
    type V = CompletionRequestView;

    open spec fn view(&self) -> CompletionRequestView {
        CompletionRequestView {
            model: self.model@,
            max_tokens: self.max_tokens,
            messages: self.messages.deep_view(),
            tools: self.tools.deep_view(),
            temperature: self.temperature,
            top_p: self.top_p,
            seed: self.seed,
            frequency_penalty: self.frequency_penalty,
            presence_penalty: self.presence_penalty,
            logit_bias: match self.logit_bias {
                Some(bias) => Some(bias@),
                None => None,
            },
            user: self.user.deep_view(),
            response_format: self.response_format.deep_view(),
            tool_choice: self.tool_choice.deep_view(),
            stop: self.stop.deep_view(),
            stream: self.stream,
            include_usage: self.include_usage,
        }
    }
}

// ---------------------------------------------------------------------------
// Messages
// ---------------------------------------------------------------------------

/// One message for each tool result.
pub open spec fn result_messages(content: Seq<ContentView>) -> Seq<CompletionMessageView>
    decreases content.len(),
{
    if content.len() == 0 {
        Seq::empty()
    } else {
        let before = result_messages(content.drop_last());
        match content.last() {
            ContentView::ToolResult { tool_call_id, content } => before.push(
                CompletionMessageView {
                    role: "tool"@,
                    content: Some(JsonView::Text(content)),
                    tool_calls: None,
                    tool_call_id: Some(tool_call_id),
                },
            ),
            _ => before,
        }
    }
}

/// The tool calls among content blocks, on the wire.
pub open spec fn wire_calls(content: Seq<ContentView>) -> Seq<CompletionToolCallView>
    decreases content.len(),
{
    if content.len() == 0 {
        Seq::empty()
    } else {
        let before = wire_calls(content.drop_last());
        match content.last() {
            ContentView::ToolCall { id, name, arguments } => before.push(
                CompletionToolCallView {
                    id,
                    kind: "function"@,
                    function: CompletionFunctionCallView { name, arguments: rendered(arguments) },
                },
            ),
            _ => before,
        }
    }
}

/// Whether a block is an image or another reference.
pub open spec fn is_media(block: ContentView) -> bool {
    block is Data || block is Uri
}

/// A part that shows the image at a URL.
pub open spec fn image_part(url: Seq<char>) -> JsonView {
    let empty = Map::<Seq<char>, JsonView>::empty();
    JsonView::Object(
        empty.insert("type"@, JsonView::Text("image_url"@)).insert(
            "image_url"@,
            JsonView::Object(empty.insert("url"@, JsonView::Text(url))),
        ),
    )
}

/// The URL that holds binary data.
pub open spec fn data_url(media_type: Seq<char>, data: Seq<u8>) -> Seq<char> {
    "data:"@ + media_type + ";base64,"@ + base64_text(data)
}

/// The parts of a message that has media: texts and images, in order.
pub open spec fn content_parts(content: Seq<ContentView>) -> Seq<JsonView>
    decreases content.len(),
{
    if content.len() == 0 {
        Seq::empty()
    } else {
        let before = content_parts(content.drop_last());
        match content.last() {
            ContentView::Text { text } => before.push(
                JsonView::Object(
                    Map::<Seq<char>, JsonView>::empty().insert("type"@, JsonView::Text("text"@)).insert(
                        "text"@,
                        JsonView::Text(text),
                    ),
                ),
            ),
            ContentView::Data { data, media_type } => before.push(image_part(data_url(media_type, data))),
            ContentView::Uri { uri, .. } => before.push(image_part(uri)),
            _ => before,
        }
    }
}

/// The content of a message: its parts if media are supported and there are some,
/// otherwise its text, unless that is empty.
pub open spec fn message_content(content: Seq<ContentView>, media: bool) -> Option<JsonView> {
    if media && exists|i: int| 0 <= i < content.len() && is_media(#[trigger] content[i]) {
        Some(JsonView::Array(content_parts(content)))
    } else if text_of(content).len() == 0 {
        None
    } else {
        Some(JsonView::Text(text_of(content)))
    }
}

/// The messages on the wire that a message becomes: one for each result of a tool
/// message, and otherwise one.
pub open spec fn completion_messages(message: MessageView, media: bool) -> Seq<CompletionMessageView> {
    if message.role == Role::Tool {
        if result_messages(message.content).len() == 0 {
            seq![CompletionMessageView { role: "tool"@, content: None, tool_calls: None, tool_call_id: None }]
        } else {
            result_messages(message.content)
        }
    } else {
        seq![
            CompletionMessageView {
                role: role_name(message.role),
                content: message_content(message.content, media),
                tool_calls: if wire_calls(message.content).len() == 0 {
                    None
                } else {
                    Some(wire_calls(message.content))
                },
                tool_call_id: None,
            },
        ]
    }
}

/// The messages on the wire that a conversation becomes.
pub open spec fn completion_conversation(messages: Seq<MessageView>, media: bool) -> Seq<CompletionMessageView>
    decreases messages.len(),
{
    if messages.len() == 0 {
        Seq::empty()
    } else {
        completion_conversation(messages.drop_last(), media) + completion_messages(messages.last(), media)
    }
}

fn push_result_messages(content: &Vec<Content>) -> (out: Vec<CompletionMessage>)
    ensures
        out.deep_view() == result_messages(content.deep_view()),
{
    let mut out: Vec<CompletionMessage> = Vec::new();
    let ghost all = content.deep_view();
    let mut i: usize = 0;
    assert(out.deep_view() =~= Seq::empty());
    while i < content.len()
        invariant
            i <= content@.len(),
            all == content.deep_view(),
            out.deep_view() == result_messages(all.take(i as int)),
        decreases content@.len() - i,
    {
        assert(all.take(i + 1).drop_last() =~= all.take(i as int));
        if let Content::ToolResult { tool_call_id, content: text } = &content[i] {
            let ghost before = out.deep_view();
            let message = CompletionMessage {
                role: "tool".to_owned(),
                content: Some(Json::text(text.as_str())),
                tool_calls: None,
                tool_call_id: Some(tool_call_id.clone()),
            };
            let ghost pushed = message@;
            out.push(message);
            assert(out.deep_view() =~= before.push(pushed));
        }
        i += 1;
    }
    assert(all.take(i as int) =~= all);
    out
}

fn convert_calls(content: &Vec<Content>) -> (out: Vec<CompletionToolCall>)
    ensures
        out.deep_view() == wire_calls(content.deep_view()),
{
    let mut out: Vec<CompletionToolCall> = Vec::new();
    let ghost all = content.deep_view();
    let mut i: usize = 0;
    assert(out.deep_view() =~= Seq::empty());
    while i < content.len()
        invariant
            i <= content@.len(),
            all == content.deep_view(),
            out.deep_view() == wire_calls(all.take(i as int)),
        decreases content@.len() - i,
    {
        assert(all.take(i + 1).drop_last() =~= all.take(i as int));
        if let Content::ToolCall { id, name, arguments } = &content[i] {
            let ghost before = out.deep_view();
            let call = CompletionToolCall {
                id: id.clone(),
                kind: "function".to_owned(),
                function: CompletionFunctionCall { name: name.clone(), arguments: arguments.to_text() },
            };
            let ghost pushed = call@;
            out.push(call);
            assert(out.deep_view() =~= before.push(pushed));
        }
        i += 1;
    }
    assert(all.take(i as int) =~= all);
    out
}

fn has_media(content: &Vec<Content>) -> (found: bool)
    ensures
        found <==> exists|i: int| 0 <= i < content.deep_view().len() && is_media(#[trigger] content.deep_view()[i]),
{
    let ghost all = content.deep_view();
    let mut i: usize = 0;
    while i < content.len()
        invariant
            i <= content@.len(),
            all == content.deep_view(),
            forall|j: int| 0 <= j < i ==> !is_media(#[trigger] all[j]),
        decreases content@.len() - i,
    {
        assert(all[i as int] == content@[i as int]@);
        match &content[i] {
            Content::Data { .. } => {
                assert(is_media(all[i as int]));
                return true;
            },
            Content::Uri { .. } => {
                assert(is_media(all[i as int]));
                return true;
            },
            _ => {},
        }
        i += 1;
    }
    false
}

fn image_part_of(url: &str) -> (part: Json)
    ensures
        part@ == image_part(url@),
{
    Json::Object(
        JsonObject::new().with("type", Json::text("image_url")).with(
            "image_url",
            Json::Object(JsonObject::new().with("url", Json::text(url))),
        ),
    )
}

fn text_part_of(text: &str) -> (part: Json)
    ensures
        part@ == JsonView::Object(
            Map::<Seq<char>, JsonView>::empty().insert("type"@, JsonView::Text("text"@)).insert(
                "text"@,
                JsonView::Text(text@),
            ),
        ),
{
    Json::Object(JsonObject::new().with("type", Json::text("text")).with("text", Json::text(text)))
}

fn convert_parts(content: &Vec<Content>) -> (out: Vec<Json>)
    ensures
        out.deep_view() == content_parts(content.deep_view()),
{
    let mut out: Vec<Json> = Vec::new();
    let ghost all = content.deep_view();
    let mut i: usize = 0;
    assert(out.deep_view() =~= Seq::empty());
    while i < content.len()
        invariant
            i <= content@.len(),
            all == content.deep_view(),
            out.deep_view() == content_parts(all.take(i as int)),
        decreases content@.len() - i,
    {
        assert(all.take(i + 1).drop_last() =~= all.take(i as int));
        let part = match &content[i] {
            Content::Text { text } => Some(text_part_of(text.as_str())),
            Content::Data { data, media_type } => {
                let encoded = base64_encode(data);
                let url = cat4("data:", media_type.as_str(), ";base64,", encoded.as_str());
                Some(image_part_of(url.as_str()))
            },
            Content::Uri { uri, .. } => Some(image_part_of(uri.as_str())),
            _ => None,
        };
        if let Some(part) = part {
            let ghost before = out.deep_view();
            let ghost pushed = part@;
            out.push(part);
            assert(out.deep_view() =~= before.push(pushed));
        }
        i += 1;
    }
    assert(all.take(i as int) =~= all);
    out
}

/// The messages on the wire that a message becomes.
pub fn message_to_completion(message: &Message, media: bool) -> (out: Vec<CompletionMessage>)
    ensures
        out.deep_view() == completion_messages(message@, media),
{
    let mut out: Vec<CompletionMessage> = Vec::new();
    if message.role == Role::Tool {
        let results = push_result_messages(&message.content);
        if results.len() > 0 {
            return results;
        }
        out.push(
            CompletionMessage { role: "tool".to_owned(), content: None, tool_calls: None, tool_call_id: None },
        );
        assert(out.deep_view() =~= completion_messages(message@, media));
        return out;
    }
    let calls = convert_calls(&message.content);
    let content = if media && has_media(&message.content) {
        let parts = convert_parts(&message.content);
        Some(Json::array(parts))
    } else {
        let text = message.text();
        if text.as_str().is_empty() {
            None
        } else {
            Some(Json::Text(text))
        }
    };
    assert(content.deep_view() == message_content(message@.content, media));
    out.push(
        CompletionMessage {
            role: message.role.name().to_owned(),
            content,
            tool_calls: if calls.len() == 0 {
                None
            } else {
                Some(calls)
            },
            tool_call_id: None,
        },
    );
    assert(out.deep_view() =~= completion_messages(message@, media));
    out
}

/// The messages on the wire that a conversation becomes.
pub fn conversation_to_completion(messages: &Vec<Message>, media: bool) -> (out: Vec<CompletionMessage>)
    ensures
        out.deep_view() == completion_conversation(messages.deep_view(), media),
{
    let mut out: Vec<CompletionMessage> = Vec::new();
    let ghost all = messages.deep_view();
    let mut i: usize = 0;
    assert(out.deep_view() =~= Seq::empty());
    while i < messages.len()
        invariant
            i <= messages@.len(),
            all == messages.deep_view(),
            out.deep_view() == completion_conversation(all.take(i as int), media),
        decreases messages@.len() - i,
    {
        assert(all.take(i + 1).drop_last() =~= all.take(i as int));
        let ghost before = out.deep_view();
        let mut more = message_to_completion(&messages[i], media);
        let ghost m = more.deep_view();
        out.append(&mut more);
        assert(out.deep_view() =~= before + m);
        i += 1;
    }
    assert(all.take(i as int) =~= all);
    out
}

// ---------------------------------------------------------------------------
// Options
// ---------------------------------------------------------------------------

/// A tool on the wire.
pub open spec fn wire_tool(tool: ToolDefinitionView) -> CompletionToolView {
    CompletionToolView {
        kind: "function"@,
        function: CompletionFunctionView {
            name: tool.name,
            description: tool.description,
            parameters: tool.parameters_schema,
        },
    }
}

/// The tools on the wire, `None` where there are none.
pub open spec fn wire_tools(tools: Seq<ToolDefinitionView>) -> Option<Seq<CompletionToolView>> {
    if tools.len() == 0 {
        None
    } else {
        Some(Seq::new(tools.len(), |i: int| wire_tool(tools[i])))
    }
}

/// The response format on the wire.
pub open spec fn wire_format(format: ResponseFormatView) -> JsonView {
    let empty = Map::<Seq<char>, JsonView>::empty();
    match format {
        ResponseFormatView::Text => JsonView::Object(empty.insert("type"@, JsonView::Text("text"@))),
        ResponseFormatView::JsonObject => JsonView::Object(empty.insert("type"@, JsonView::Text("json_object"@))),
        ResponseFormatView::JsonSchema { name, schema, strict } => {
            let described = empty.insert("name"@, JsonView::Text(name)).insert("schema"@, schema);
            JsonView::Object(
                empty.insert("type"@, JsonView::Text("json_schema"@)).insert(
                    "json_schema"@,
                    JsonView::Object(
                        match strict {
                            Some(s) => described.insert("strict"@, JsonView::Bool(s)),
                            None => described,
                        },
                    ),
                ),
            )
        },
    }
}

/// The tool choice on the wire.
pub open spec fn wire_tool_choice(choice: ToolChoiceView) -> JsonView {
    let empty = Map::<Seq<char>, JsonView>::empty();
    match choice {
        ToolChoiceView::Auto => JsonView::Text("auto"@),
        ToolChoiceView::Forbidden => JsonView::Text("none"@),
        ToolChoiceView::Required => JsonView::Text("required"@),
        ToolChoiceView::Specific { name } => JsonView::Object(
            empty.insert("type"@, JsonView::Text("function"@)).insert(
                "function"@,
                JsonView::Object(empty.insert("name"@, JsonView::Text(name))),
            ),
        ),
    }
}

/// A list, `None` where it is empty.
pub open spec fn nonempty<T>(items: Seq<T>) -> Option<Seq<T>> {
    if items.len() == 0 {
        None
    } else {
        Some(items)
    }
}

/// The tools on the wire, `None` where there are none.
pub fn tools_to_completion(tools: &Vec<ToolDefinition>) -> (out: Option<Vec<CompletionTool>>)
    ensures
        out.deep_view() == wire_tools(tools.deep_view()),
{
    if tools.len() == 0 {
        return None;
    }
    let mut out: Vec<CompletionTool> = Vec::new();
    let ghost all = wire_tools(tools.deep_view())->0;
    let mut i: usize = 0;
    assert(out.deep_view() =~= all.take(0));
    while i < tools.len()
        invariant
            i <= tools@.len(),
            tools@.len() > 0,
            all == wire_tools(tools.deep_view())->0,
            out.deep_view() == all.take(i as int),
        decreases tools@.len() - i,
    {
        let ghost before = out.deep_view();
        out.push(
            CompletionTool {
                kind: "function".to_owned(),
                function: CompletionFunction {
                    name: tools[i].name.clone(),
                    description: tools[i].description.clone(),
                    parameters: tools[i].parameters_schema.clone(),
                },
            },
        );
        assert(out.deep_view() =~= before.push(all[i as int]));
        assert(all.take(i + 1) =~= before.push(all[i as int]));
        i += 1;
    }
    assert(all.take(i as int) =~= all);
    Some(out)
}

/// The response format on the wire.
pub fn format_to_completion(format: &ResponseFormat) -> (out: Json)
    ensures
        out@ == wire_format(format@),
{
    match format {
        ResponseFormat::Text => Json::Object(JsonObject::new().with("type", Json::text("text"))),
        ResponseFormat::JsonObject => Json::Object(JsonObject::new().with("type", Json::text("json_object"))),
        ResponseFormat::JsonSchema { name, schema, strict } => {
            let described = JsonObject::new().with("name", Json::text(name.as_str())).with("schema", schema.clone());
            let described = match strict {
                Some(s) => described.with("strict", Json::Bool(*s)),
                None => described,
            };
            Json::Object(
                JsonObject::new().with("type", Json::text("json_schema")).with("json_schema", Json::Object(described)),
            )
        },
    }
}

/// The tool choice on the wire.
pub fn tool_choice_to_completion(choice: &ToolChoice) -> (out: Json)
    ensures
        out@ == wire_tool_choice(choice@),
{
    match choice {
        ToolChoice::Auto => Json::text("auto"),
        ToolChoice::Forbidden => Json::text("none"),
        ToolChoice::Required => Json::text("required"),
        ToolChoice::Specific { name } => Json::Object(
            JsonObject::new().with("type", Json::text("function")).with(
                "function",
                Json::Object(JsonObject::new().with("name", Json::text(name.as_str()))),
            ),
        ),
    }
}

/// A copy of a list of texts, `None` where it is empty.
pub fn nonempty_texts(items: &Vec<String>) -> (out: Option<Vec<String>>)
    ensures
        out.deep_view() == nonempty(items.deep_view()),
{
    if items.len() == 0 {
        None
    } else {
        Some(clone_strings(items))
    }
}

// ---------------------------------------------------------------------------
// Requests
// ---------------------------------------------------------------------------

/// The options of a request, none of which are set where there are none.
pub open spec fn given(options: Option<&ChatOptions>) -> ChatOptionsView {
    match options {
        Some(o) => o@,
        None => no_options(),
    }
}

/// What every request has. The model and the limit of the options come before
/// those of the configuration.
pub open spec fn base_request(
    model: Seq<char>,
    max_tokens: u32,
    messages: Seq<MessageView>,
    options: ChatOptionsView,
    media: bool,
) -> CompletionRequestView {
    CompletionRequestView {
        model: match options.model {
            Some(m) => m,
            None => model,
        },
        max_tokens: Some(
            match options.max_tokens {
                Some(n) => n,
                None => max_tokens,
            },
        ),
        messages: completion_conversation(messages, media),
        tools: wire_tools(options.tools),
        temperature: options.temperature,
        top_p: options.top_p,
        seed: None,
        frequency_penalty: None,
        presence_penalty: None,
        logit_bias: None,
        user: None,
        response_format: None,
        tool_choice: None,
        stop: nonempty(options.stop_sequences),
        stream: None,
        include_usage: None,
    }
}

impl CompletionRequest {
    /// A request with what every request has.
    pub fn base(
        model: &str,
        max_tokens: u32,
        messages: &Vec<Message>,
        options: &ChatOptions,
        media: bool,
    ) -> (request: Self)
        ensures
            request@ == base_request(model@, max_tokens, messages.deep_view(), options@, media),
    {
        CompletionRequest {
            model: match &options.model {
                Some(m) => m.clone(),
                None => model.to_owned(),
            },
            max_tokens: Some(
                match options.max_tokens {
                    Some(n) => n,
                    None => max_tokens,
                },
            ),
            messages: conversation_to_completion(messages, media),
            tools: tools_to_completion(&options.tools),
            temperature: options.temperature,
            top_p: options.top_p,
            seed: None,
            frequency_penalty: None,
            presence_penalty: None,
            logit_bias: None,
            user: None,
            response_format: None,
            tool_choice: None,
            stop: nonempty_texts(&options.stop_sequences),
            stream: None,
            include_usage: None,
        }
    }

    /// The same request for a stream, which reports its usage at the end if asked to.
    pub fn for_stream(self, include_usage: Option<bool>) -> (request: Self)
        ensures
            request@ == (CompletionRequestView { stream: Some(true), include_usage, ..self@ }),
    {
        let mut request = self;
        request.stream = Some(true);
        request.include_usage = include_usage;
        request
    }
}

// ---------------------------------------------------------------------------
// Responses
// ---------------------------------------------------------------------------

/// The usage in a response.
#[derive(Debug, Clone, Copy)]
pub struct CompletionUsage {
    pub prompt_tokens: u32,
    pub completion_tokens: u32,
}

/// The usage that a usage on the wire stands for.
pub open spec fn usage_of(usage: Option<CompletionUsage>) -> Option<Usage> {
    match usage {
        Some(u) => Some(Usage { input_tokens: u.prompt_tokens, output_tokens: u.completion_tokens }),
        None => None,
    }
}

/// The usage that a usage on the wire stands for.
fn convert_usage(usage: Option<CompletionUsage>) -> (out: Option<Usage>)
    ensures
        out == usage_of(usage),
{
    match usage {
        Some(u) => Some(Usage { input_tokens: u.prompt_tokens, output_tokens: u.completion_tokens }),
        None => None,
    }
}

/// One of the answers in a response.
#[derive(Debug)]
pub struct CompletionChoice {
    /// The text of the answer.
    pub content: Option<String>,
    pub tool_calls: Option<Vec<CompletionToolCall>>,
    pub finish_reason: Option<String>,
}

/// What one of the answers in a response holds.
#[verifier::ext_equal]
pub struct CompletionChoiceView {
    pub content: Option<Seq<char>>,
    pub tool_calls: Option<Seq<CompletionToolCallView>>,
    pub finish_reason: Option<Seq<char>>,
}

impl View for CompletionChoice {
    type V = CompletionChoiceView;

    open spec fn view(&self) -> CompletionChoiceView {
        CompletionChoiceView {
            content: self.content.deep_view(),
            tool_calls: self.tool_calls.deep_view(),
            finish_reason: self.finish_reason.deep_view(),
        }
    }
}

impl DeepView for CompletionChoice {
    type V = CompletionChoiceView;

    open spec fn deep_view(&self) -> CompletionChoiceView {
        self@
    }
}

/// The body of a response.
#[derive(Debug)]
pub struct CompletionResponse {
    pub id: Option<String>,
    pub choices: Vec<CompletionChoice>,
    pub usage: Option<CompletionUsage>,
}

/// What the body of a response holds.
#[verifier::ext_equal]
pub struct CompletionResponseView {
    pub id: Option<Seq<char>>,
    pub choices: Seq<CompletionChoiceView>,
    pub usage: Option<CompletionUsage>,
}

impl View for CompletionResponse {
    type V = CompletionResponseView;

    open spec fn view(&self) -> CompletionResponseView {
        CompletionResponseView { id: self.id.deep_view(), choices: self.choices.deep_view(), usage: self.usage }
    }
}

/// The finish reason that a reason on the wire stands for. Unknown ones count as a natural stop.
pub open spec fn finish_reason_of(reason: Seq<char>) -> FinishReason {
    if reason == "length"@ {
        FinishReason::MaxTokens
    } else if reason == "tool_calls"@ {
        FinishReason::ToolUse
    } else if reason == "content_filter"@ {
        FinishReason::ContentFilter
    } else {
        FinishReason::Stop
    }
}

/// The finish reason that a reason on the wire stands for.
pub fn map_finish_reason(reason: &str) -> (finish: FinishReason)
    ensures
        finish == finish_reason_of(reason@),
{
    if str_eq(reason, "length") {
        FinishReason::MaxTokens
    } else if str_eq(reason, "tool_calls") {
        FinishReason::ToolUse
    } else if str_eq(reason, "content_filter") {
        FinishReason::ContentFilter
    } else {
        FinishReason::Stop
    }
}

/// The block that a tool call on the wire stands for. Arguments that are not JSON are kept as text.
pub open spec fn call_block(call: CompletionToolCallView) -> ContentView {
    ContentView::ToolCall {
        id: call.id,
        name: call.function.name,
        arguments: arguments_of(parsed(call.function.arguments), call.function.arguments),
    }
}

/// The blocks of an answer: its text, then its tool calls.
pub open spec fn choice_blocks(choice: CompletionChoiceView, keep_empty: bool) -> Seq<ContentView> {
    let text = match choice.content {
        Some(text) => if keep_empty || text.len() > 0 {
            seq![ContentView::Text { text }]
        } else {
            Seq::empty()
        },
        None => Seq::empty(),
    };
    match choice.tool_calls {
        Some(calls) => text + Seq::new(calls.len(), |i: int| call_block(calls[i])),
        None => text,
    }
}

/// The chat response that a response on the wire stands for: its first answer.
/// An empty text counts as a block only where `keep_empty` says so.
pub open spec fn chat_response_of(response: CompletionResponseView, keep_empty: bool) -> ChatResponseView {
    if response.choices.len() == 0 {
        ChatResponseView { messages: Seq::empty(), response_id: response.id, finish_reason: None, usage: None }
    } else {
        let choice = response.choices[0];
        ChatResponseView {
            messages: seq![bare_message(Role::Assistant, choice_blocks(choice, keep_empty))],
            response_id: response.id,
            finish_reason: match choice.finish_reason {
                Some(reason) => Some(finish_reason_of(reason)),
                None => None,
            },
            usage: usage_of(response.usage),
        }
    }
}

/// The blocks of an answer.
fn convert_choice(choice: &CompletionChoice, keep_empty: bool) -> (blocks: Vec<Content>)
    ensures
        blocks.deep_view() == choice_blocks(choice@, keep_empty),
{
    let mut blocks: Vec<Content> = Vec::new();
    assert(blocks.deep_view() =~= Seq::empty());
    if let Some(text) = &choice.content {
        if keep_empty || !text.as_str().is_empty() {
            blocks.push(Content::text(text.as_str()));
            assert(blocks.deep_view() =~= seq![ContentView::Text { text: text@ }]);
        }
    }
    let ghost start = blocks.deep_view();
    if let Some(calls) = &choice.tool_calls {
        let ghost all = Seq::new(calls.deep_view().len(), |i: int| call_block(calls.deep_view()[i]));
        let mut i: usize = 0;
        assert(start + all.take(0) =~= start);
        while i < calls.len()
            invariant
                i <= calls@.len(),
                all == Seq::new(calls.deep_view().len(), |i: int| call_block(calls.deep_view()[i])),
                blocks.deep_view() == start + all.take(i as int),
            decreases calls@.len() - i,
        {
            let ghost before = blocks.deep_view();
            let raw = calls[i].function.arguments.as_str();
            let arguments = arguments_or_raw(Json::parse(raw), raw);
            blocks.push(Content::tool_call(calls[i].id.as_str(), calls[i].function.name.as_str(), arguments));
            assert(blocks.deep_view() =~= before.push(all[i as int]));
            assert(start + all.take(i + 1) =~= before.push(all[i as int]));
            i += 1;
        }
        assert(all.take(i as int) =~= all);
    }
    blocks
}

/// The chat response that a response on the wire stands for.
pub fn completion_to_chat_response(response: &CompletionResponse, keep_empty: bool) -> (out: ChatResponse)
    ensures
        out@ == chat_response_of(response@, keep_empty),
{
    let mut messages: Vec<Message> = Vec::new();
    if response.choices.len() == 0 {
        assert(messages.deep_view() =~= Seq::empty());
        return ChatResponse {
            messages,
            response_id: clone_opt_string(&response.id),
            finish_reason: None,
            usage: None,
        };
    }
    let choice = &response.choices[0];
    assert(response@.choices[0] == choice@);
    messages.push(Message::bare(Role::Assistant, convert_choice(choice, keep_empty)));
    assert(messages.deep_view() =~= seq![bare_message(Role::Assistant, choice_blocks(choice@, keep_empty))]);
    ChatResponse {
        messages,
        response_id: clone_opt_string(&response.id),
        finish_reason: match &choice.finish_reason {
            Some(reason) => Some(map_finish_reason(reason.as_str())),
            None => None,
        },
        usage: convert_usage(response.usage),
    }
}

// ---------------------------------------------------------------------------
// Stream chunks
// ---------------------------------------------------------------------------

/// The part of a function call that a chunk brings.
#[derive(Debug)]
pub struct ChunkFunction {
    pub name: Option<String>,
    pub arguments: Option<String>,
}

/// What the part of a function call holds.
#[verifier::ext_equal]
pub struct ChunkFunctionView {
    pub name: Option<Seq<char>>,
    pub arguments: Option<Seq<char>>,
}

impl View for ChunkFunction {
    type V = ChunkFunctionView;

    open spec fn view(&self) -> ChunkFunctionView {
        ChunkFunctionView { name: self.name.deep_view(), arguments: self.arguments.deep_view() }
    }
}

impl DeepView for ChunkFunction {
    type V = ChunkFunctionView;

    open spec fn deep_view(&self) -> ChunkFunctionView {
        self@
    }
}

/// The part of a tool call that a chunk brings. The first part of a call has its id and name.
#[derive(Debug)]
pub struct ChunkToolCall {
    pub index: u32,
    pub id: Option<String>,
    pub function: Option<ChunkFunction>,
}

/// What the part of a tool call holds.
#[verifier::ext_equal]
pub struct ChunkToolCallView {
    pub index: u32,
    pub id: Option<Seq<char>>,
    pub function: Option<ChunkFunctionView>,
}

impl View for ChunkToolCall {
    type V = ChunkToolCallView;

    open spec fn view(&self) -> ChunkToolCallView {
        ChunkToolCallView { index: self.index, id: self.id.deep_view(), function: self.function.deep_view() }
    }
}

impl DeepView for ChunkToolCall {
    type V = ChunkToolCallView;

    open spec fn deep_view(&self) -> ChunkToolCallView {
        self@
    }
}

/// What a chunk adds to one of the answers.
#[derive(Debug)]
pub struct ChunkChoice {
    pub content: Option<String>,
    pub tool_calls: Option<Vec<ChunkToolCall>>,
    pub finish_reason: Option<String>,
}

/// What an addition to one of the answers holds.
#[verifier::ext_equal]
pub struct ChunkChoiceView {
    pub content: Option<Seq<char>>,
    pub tool_calls: Option<Seq<ChunkToolCallView>>,
    pub finish_reason: Option<Seq<char>>,
}

impl View for ChunkChoice {
    type V = ChunkChoiceView;

    open spec fn view(&self) -> ChunkChoiceView {
        ChunkChoiceView {
            content: self.content.deep_view(),
            tool_calls: self.tool_calls.deep_view(),
            finish_reason: self.finish_reason.deep_view(),
        }
    }
}

impl DeepView for ChunkChoice {
    type V = ChunkChoiceView;

    open spec fn deep_view(&self) -> ChunkChoiceView {
        self@
    }
}

/// A chunk of a stream.
#[derive(Debug)]
pub struct CompletionChunk {
    pub choices: Vec<ChunkChoice>,
    pub usage: Option<CompletionUsage>,
}

/// The ids and names of the tool calls that a stream has begun, by their index.
pub type CallTable = IndexTable<(String, String)>;

/// The tool calls that a stream has begun, and the updates that it has given.
#[verifier::ext_equal]
pub struct ChunkState {
    pub calls: Map<u32, (Seq<char>, Seq<char>)>,
    pub updates: Seq<UpdateView>,
}

/// The text, or none.
pub open spec fn text_or_none(text: Option<Seq<char>>) -> Seq<char> {
    match text {
        Some(t) => t,
        None => Seq::empty(),
    }
}

/// The tool calls that have begun after a part of a call.
pub open spec fn calls_after(
    calls: Map<u32, (Seq<char>, Seq<char>)>,
    part: ChunkToolCallView,
) -> Map<u32, (Seq<char>, Seq<char>)> {
    match (part.id, part.function) {
        (Some(id), Some(function)) => calls.insert(part.index, (id, text_or_none(function.name))),
        _ => calls,
    }
}

/// A part of a tool call gives an update with the call's id and name, if they are known.
pub open spec fn after_call_part(state: ChunkState, part: ChunkToolCallView) -> ChunkState {
    let calls = calls_after(state.calls, part);
    let (id, name) = if calls.dom().contains(part.index) {
        calls[part.index]
    } else {
        (Seq::empty(), Seq::empty())
    };
    let delta = match part.function {
        Some(function) => text_or_none(function.arguments),
        None => Seq::empty(),
    };
    ChunkState { calls, updates: state.updates.push(call_update(id, name, delta)) }
}

/// The parts of tool calls, one after the other.
pub open spec fn after_call_parts(state: ChunkState, parts: Seq<ChunkToolCallView>) -> ChunkState
    decreases parts.len(),
{
    if parts.len() == 0 {
        state
    } else {
        after_call_part(after_call_parts(state, parts.drop_last()), parts.last())
    }
}

/// An addition gives an update for its text, unless that is empty, one for each
/// part of a tool call, and one for the finish reason.
pub open spec fn after_choice(state: ChunkState, choice: ChunkChoiceView) -> ChunkState {
    let with_text = match choice.content {
        Some(text) => if text.len() > 0 {
            ChunkState { updates: state.updates.push(text_update(text)), ..state }
        } else {
            state
        },
        None => state,
    };
    let with_calls = match choice.tool_calls {
        Some(parts) => after_call_parts(with_text, parts),
        None => with_text,
    };
    match choice.finish_reason {
        Some(reason) => ChunkState {
            updates: with_calls.updates.push(end_update(Some(finish_reason_of(reason)), None)),
            ..with_calls
        },
        None => with_calls,
    }
}

/// The additions, one after the other.
pub open spec fn after_choices(state: ChunkState, choices: Seq<ChunkChoiceView>) -> ChunkState
    decreases choices.len(),
{
    if choices.len() == 0 {
        state
    } else {
        after_choice(after_choices(state, choices.drop_last()), choices.last())
    }
}

/// What a chunk gives: first the usage, if it has one, then what its additions give.
pub open spec fn after_chunk(
    calls: Map<u32, (Seq<char>, Seq<char>)>,
    choices: Seq<ChunkChoiceView>,
    usage: Option<CompletionUsage>,
) -> ChunkState {
    let updates = if usage is Some {
        seq![end_update(None, usage_of(usage))]
    } else {
        Seq::empty()
    };
    after_choices(ChunkState { calls, updates }, choices)
}

/// The text, or none.
fn text_or_empty(text: &Option<String>) -> (out: String)
    ensures
        out@ == text_or_none(text.deep_view()),
{
    match text {
        Some(t) => t.clone(),
        None => {
            proof {
                reveal_strlit("");
                assert(""@ =~= Seq::empty());
            }
            "".to_owned()
        },
    }
}

/// The update that a part of a tool call gives.
fn handle_call_part(part: &ChunkToolCall, calls: &mut CallTable) -> (update: ChatResponseUpdate)
    ensures
        forall|updates: Seq<UpdateView>| #[trigger]
            after_call_part(ChunkState { calls: old(calls)@, updates }, part@) == (ChunkState {
                calls: final(calls)@,
                updates: updates.push(update@),
            }),
{
    let ghost start = calls@;
    match (&part.id, &part.function) {
        (Some(id), Some(function)) => {
            calls.insert(part.index, (id.clone(), text_or_empty(&function.name)));
        },
        _ => {},
    }
    assert(calls@ == calls_after(start, part@));
    let (id, name) = match calls.get(part.index) {
        Some(call) => (call.0.clone(), call.1.clone()),
        None => (text_or_empty(&None), text_or_empty(&None)),
    };
    let delta = match &part.function {
        Some(function) => text_or_empty(&function.arguments),
        None => text_or_empty(&None),
    };
    ChatResponseUpdate::of_call(id.as_str(), name.as_str(), delta.as_str())
}

/// The updates that the parts of tool calls give.
fn handle_call_parts(parts: &Vec<ChunkToolCall>, calls: &mut CallTable, updates: &mut Vec<ChatResponseUpdate>)
    ensures
        (ChunkState { calls: final(calls)@, updates: final(updates).deep_view() }) == after_call_parts(
            ChunkState { calls: old(calls)@, updates: old(updates).deep_view() },
            parts.deep_view(),
        ),
{
    let ghost start = ChunkState { calls: calls@, updates: updates.deep_view() };
    let ghost all = parts.deep_view();
    let mut i: usize = 0;
    while i < parts.len()
        invariant
            i <= parts@.len(),
            all == parts.deep_view(),
            (ChunkState { calls: calls@, updates: updates.deep_view() }) == after_call_parts(
                start,
                all.take(i as int),
            ),
        decreases parts@.len() - i,
    {
        assert(all.take(i + 1).drop_last() =~= all.take(i as int));
        let ghost before = ChunkState { calls: calls@, updates: updates.deep_view() };
        let update = handle_call_part(&parts[i], calls);
        let ghost pushed = update@;
        updates.push(update);
        assert(updates.deep_view() =~= before.updates.push(pushed));
        assert(after_call_part(before, all[i as int]) == (ChunkState {
            calls: calls@,
            updates: updates.deep_view(),
        }));
        i += 1;
    }
    assert(all.take(i as int) =~= all);
}

/// The updates that an addition gives.
fn handle_choice(choice: &ChunkChoice, calls: &mut CallTable, updates: &mut Vec<ChatResponseUpdate>)
    ensures
        (ChunkState { calls: final(calls)@, updates: final(updates).deep_view() }) == after_choice(
            ChunkState { calls: old(calls)@, updates: old(updates).deep_view() },
            choice@,
        ),
{
    if let Some(text) = &choice.content {
        if !text.as_str().is_empty() {
            let ghost before = updates.deep_view();
            updates.push(ChatResponseUpdate::of_text(text.as_str()));
            assert(updates.deep_view() =~= before.push(text_update(text@)));
        }
    }
    if let Some(parts) = &choice.tool_calls {
        handle_call_parts(parts, calls, updates);
    }
    if let Some(reason) = &choice.finish_reason {
        let finish = map_finish_reason(reason.as_str());
        let ghost before = updates.deep_view();
        updates.push(ChatResponseUpdate::of_end(Some(finish), None));
        assert(updates.deep_view() =~= before.push(end_update(Some(finish), None)));
    }
}

/// The updates that a chunk gives.
pub fn handle_chunk(chunk: &CompletionChunk, calls: &mut CallTable) -> (updates: Vec<ChatResponseUpdate>)
    ensures
        (ChunkState { calls: final(calls)@, updates: updates.deep_view() }) == after_chunk(
            old(calls)@,
            chunk.choices.deep_view(),
            chunk.usage,
        ),
{
    let mut updates: Vec<ChatResponseUpdate> = Vec::new();
    if chunk.usage.is_some() {
        updates.push(ChatResponseUpdate::of_end(None, convert_usage(chunk.usage)));
        assert(updates.deep_view() =~= seq![end_update(None, usage_of(chunk.usage))]);
    } else {
        assert(updates.deep_view() =~= Seq::empty());
    }
    let ghost start = ChunkState { calls: calls@, updates: updates.deep_view() };
    let ghost all = chunk.choices.deep_view();
    let mut i: usize = 0;
    while i < chunk.choices.len()
        invariant
            i <= chunk.choices@.len(),
            all == chunk.choices.deep_view(),
            (ChunkState { calls: calls@, updates: updates.deep_view() }) == after_choices(
                start,
                all.take(i as int),
            ),
        decreases chunk.choices@.len() - i,
    {
        assert(all.take(i + 1).drop_last() =~= all.take(i as int));
        handle_choice(&chunk.choices[i], calls, &mut updates);
        i += 1;
    }
    assert(all.take(i as int) =~= all);
    updates
}

/// Whether a payload of the event stream marks its end.
pub fn is_done(data: &str) -> (done: bool)
    ensures
        done == (data@ == "[DONE]"@),
{
    str_eq(data, "[DONE]")
}

// ---------------------------------------------------------------------------
// Laws
// ---------------------------------------------------------------------------

/// A tool message becomes as many messages as it has tool results, in their order,
/// each of which answers the call of its result.
pub proof fn law_one_message_per_result(message: MessageView, media: bool, results: Seq<(Seq<char>, Seq<char>)>)
    requires
        message.role == Role::Tool,
        results.len() > 0,
        message.content == Seq::new(
            results.len(),
            |i: int| ContentView::ToolResult { tool_call_id: results[i].0, content: results[i].1 },
        ),
    ensures
        completion_messages(message, media) == Seq::new(
            results.len(),
            |i: int|
                CompletionMessageView {
                    role: "tool"@,
                    content: Some(JsonView::Text(results[i].1)),
                    tool_calls: None,
                    tool_call_id: Some(results[i].0),
                },
        ),
{
    lemma_result_messages(message.content, results);
}

proof fn lemma_result_messages(content: Seq<ContentView>, results: Seq<(Seq<char>, Seq<char>)>)
    requires
        content == Seq::new(
            results.len(),
            |i: int| ContentView::ToolResult { tool_call_id: results[i].0, content: results[i].1 },
        ),
    ensures
        result_messages(content) == Seq::new(
            results.len(),
            |i: int|
                CompletionMessageView {
                    role: "tool"@,
                    content: Some(JsonView::Text(results[i].1)),
                    tool_calls: None,
                    tool_call_id: Some(results[i].0),
                },
        ),
    decreases results.len(),
{
    if results.len() > 0 {
        let rest = results.drop_last();
        assert(content.drop_last() =~= Seq::new(
            rest.len(),
            |i: int| ContentView::ToolResult { tool_call_id: rest[i].0, content: rest[i].1 },
        ));
        lemma_result_messages(content.drop_last(), rest);
    }
    assert(result_messages(content) =~= Seq::new(
        results.len(),
        |i: int|
            CompletionMessageView {
                role: "tool"@,
                content: Some(JsonView::Text(results[i].1)),
                tool_calls: None,
                tool_call_id: Some(results[i].0),
            },
    ));
}

/// The tool calls of a message, sent and then read as those of an answer, are the
/// calls of the message, where the arguments are read back from their text.
pub proof fn law_calls_are_read_back(content: Seq<ContentView>)
    requires
        forall|i: int|
            0 <= i < content.len() ==> match #[trigger] content[i] {
                ContentView::ToolCall { arguments, .. } => reads_as(rendered(arguments), arguments),
                _ => true,
            },
    ensures
        calls_of(
            choice_blocks(
                CompletionChoiceView { content: None, tool_calls: Some(wire_calls(content)), finish_reason: None },
                true,
            ),
        ) == calls_of(content),
    decreases content.len(),
{
    let calls = wire_calls(content);
    let blocks = Seq::new(calls.len(), |i: int| call_block(calls[i]));
    assert(choice_blocks(
        CompletionChoiceView { content: None, tool_calls: Some(calls), finish_reason: None },
        true,
    ) =~= blocks);
    if content.len() > 0 {
        law_calls_are_read_back(content.drop_last());
        let before = wire_calls(content.drop_last());
        let earlier = Seq::new(before.len(), |i: int| call_block(before[i]));
        assert(choice_blocks(
            CompletionChoiceView { content: None, tool_calls: Some(before), finish_reason: None },
            true,
        ) =~= earlier);
        assert(content.last() == content[content.len() - 1]);
        if content.last() is ToolCall {
            assert(blocks.drop_last() =~= earlier);
            assert(blocks.last() == content.last());
        } else {
            assert(blocks =~= earlier);
        }
    }
}

/// What goes on the wire of a message's blocks: every tool result under the id of the
/// call that it answers, with the result as its text; every call under its id, with its
/// name and its arguments as JSON text; in the order of the blocks.
pub proof fn law_calls_and_results_are_sent(first: Seq<ContentView>, block: ContentView)
    ensures
        result_messages(Seq::empty()).len() == 0,
        wire_calls(Seq::empty()).len() == 0,
        block is ToolResult ==> {
            let sent = result_messages(first.push(block));
            &&& sent.drop_last() == result_messages(first)
            &&& sent.len() == result_messages(first).len() + 1
            &&& sent.last().role == "tool"@
            &&& sent.last().tool_call_id == Some(block->tool_call_id)
            &&& sent.last().content == Some(JsonView::Text(block->content))
            &&& sent.last().tool_calls is None
        },
        !(block is ToolResult) ==> result_messages(first.push(block)) == result_messages(first),
        block is ToolCall ==> {
            let sent = wire_calls(first.push(block));
            &&& sent.drop_last() == wire_calls(first)
            &&& sent.len() == wire_calls(first).len() + 1
            &&& sent.last().id == block->id
            &&& sent.last().kind == "function"@
            &&& sent.last().function.name == block->name
            &&& sent.last().function.arguments == rendered(block->arguments)
        },
        !(block is ToolCall) ==> wire_calls(first.push(block)) == wire_calls(first),
{
    assert(first.push(block).drop_last() =~= first);
    if block is ToolResult {
        assert(result_messages(first.push(block)).drop_last() =~= result_messages(first));
    }
    if block is ToolCall {
        assert(wire_calls(first.push(block)).drop_last() =~= wire_calls(first));
    }
}

/// A message that is no tool's becomes one message in its role, which says its text and
/// makes its calls; where images are supported and it has any, its content is the list
/// of its parts instead. A tool's message becomes one for each result, or an empty one.
pub proof fn law_messages_are_sent(message: MessageView, media: bool)
    ensures
        message.role != Role::Tool ==> {
            let sent = completion_messages(message, media);
            let images = exists|i: int|
                0 <= i < message.content.len() && ((#[trigger] message.content[i]) is Data || message.content[i] is Uri);
            &&& sent.len() == 1
            &&& sent[0].role == match message.role {
                Role::System => "system"@,
                Role::User => "user"@,
                Role::Assistant => "assistant"@,
                Role::Tool => "tool"@,
            }
            &&& sent[0].tool_call_id is None
            &&& wire_calls(message.content).len() == 0 ==> sent[0].tool_calls is None
            &&& wire_calls(message.content).len() > 0 ==> sent[0].tool_calls == Some(wire_calls(message.content))
            &&& media && images ==> sent[0].content == Some(JsonView::Array(content_parts(message.content)))
            &&& !(media && images) && text_of(message.content).len() > 0 ==> sent[0].content == Some(
                JsonView::Text(text_of(message.content)),
            )
            &&& !(media && images) && text_of(message.content).len() == 0 ==> sent[0].content is None
        },
        message.role == Role::Tool && result_messages(message.content).len() > 0 ==> completion_messages(
            message,
            media,
        ) == result_messages(message.content),
        message.role == Role::Tool && result_messages(message.content).len() == 0 ==> {
            let sent = completion_messages(message, media);
            &&& sent.len() == 1
            &&& sent[0].role == "tool"@
            &&& sent[0].content is None && sent[0].tool_calls is None && sent[0].tool_call_id is None
        },
{
    let images = exists|i: int|
        0 <= i < message.content.len() && ((#[trigger] message.content[i]) is Data || message.content[i] is Uri);
    let found = exists|i: int| 0 <= i < message.content.len() && is_media(#[trigger] message.content[i]);
    if images {
        let i = choose|i: int|
            0 <= i < message.content.len() && ((#[trigger] message.content[i]) is Data || message.content[i] is Uri);
        assert(is_media(message.content[i]));
    }
    if found {
        let i = choose|i: int| 0 <= i < message.content.len() && is_media(#[trigger] message.content[i]);
        assert(message.content[i] is Data || message.content[i] is Uri);
    }
    assert(images == found);
}

/// A text is a part that says it, binary data is an image at a URL that holds the data
/// and its media type, and a reference is an image at its address; in order, and nothing
/// else is a part.
pub proof fn law_parts_are_sent(first: Seq<ContentView>, block: ContentView)
    ensures
        content_parts(Seq::empty()).len() == 0,
        block is Text ==> content_parts(first.push(block)) == content_parts(first).push(
            JsonView::Object(map!["type"@ => JsonView::Text("text"@), "text"@ => JsonView::Text(block->Text_text)]),
        ),
        block is Data ==> content_parts(first.push(block)) == content_parts(first).push(
            image_part("data:"@ + block->Data_media_type + ";base64,"@ + base64_text(block->data)),
        ),
        block is Uri ==> content_parts(first.push(block)) == content_parts(first).push(image_part(block->uri)),
        block is ToolCall || block is ToolResult ==> content_parts(first.push(block)) == content_parts(first),
{
    assert(first.push(block).drop_last() =~= first);
}

/// A part that shows an image says so and has the URL of the image.
pub proof fn law_image_parts(url: Seq<char>)
    ensures
        image_part(url) is Object,
        image_part(url)->Object_0["type"@] == JsonView::Text("image_url"@),
        image_part(url)->Object_0["image_url"@] == JsonView::Object(map!["url"@ => JsonView::Text(url)]),
{
    reveal_strlit("type");
    reveal_strlit("image_url");
    assert("type"@.len() != "image_url"@.len());
}

/// A conversation is sent message by message, in order, and none is left out.
pub proof fn law_conversation_is_sent(first: Seq<MessageView>, message: MessageView, rest: Seq<MessageView>, media: bool)
    ensures
        completion_conversation(Seq::empty(), media).len() == 0,
        completion_conversation(seq![message], media) == completion_messages(message, media),
        completion_conversation(first + rest, media) == completion_conversation(first, media)
            + completion_conversation(rest, media),
    decreases rest.len(),
{
    let one = seq![message];
    assert(one.drop_last() =~= Seq::empty());
    assert(completion_conversation(one.drop_last(), media) =~= Seq::empty());
    assert(completion_conversation(one, media) =~= completion_messages(message, media));
    if rest.len() == 0 {
        assert(first + rest =~= first);
        assert(completion_conversation(first, media) + completion_conversation(rest, media)
            =~= completion_conversation(first, media));
    } else {
        law_conversation_is_sent(first, message, rest.drop_last(), media);
        assert((first + rest).drop_last() =~= first + rest.drop_last());
        assert((first + rest).last() == rest.last());
        assert(completion_conversation(first + rest, media) =~= completion_conversation(first, media)
            + completion_conversation(rest, media));
    }
}

/// Tools are sent as functions under their names, with their descriptions and schemas,
/// in order, and an empty list of anything is not sent.
pub proof fn law_tools_are_sent(tools: Seq<ToolDefinitionView>, items: Seq<Seq<char>>)
    ensures
        tools.len() == 0 ==> wire_tools(tools) is None,
        tools.len() > 0 ==> wire_tools(tools) is Some && wire_tools(tools)->0.len() == tools.len(),
        forall|i: int|
            0 <= i < tools.len() ==> {
                &&& (#[trigger] wire_tools(tools)->0[i]).kind == "function"@
                &&& wire_tools(tools)->0[i].function.name == tools[i].name
                &&& wire_tools(tools)->0[i].function.description == tools[i].description
                &&& wire_tools(tools)->0[i].function.parameters == tools[i].parameters_schema
            },
        items.len() == 0 ==> nonempty(items) is None,
        items.len() > 0 ==> nonempty(items) == Some(items),
{
}

/// The format of a response is sent by its type; a schema is sent under its name, and
/// whether it is strict, if that is set.
pub proof fn law_format_is_sent(name: Seq<char>, schema: JsonView, strict: Option<bool>)
    ensures
        wire_format(ResponseFormatView::Text) == JsonView::Object(map!["type"@ => JsonView::Text("text"@)]),
        wire_format(ResponseFormatView::JsonObject) == JsonView::Object(
            map!["type"@ => JsonView::Text("json_object"@)],
        ),
        ({
            let sent = wire_format(ResponseFormatView::JsonSchema { name, schema, strict });
            let described = sent->Object_0["json_schema"@];
            &&& sent is Object
            &&& sent->Object_0["type"@] == JsonView::Text("json_schema"@)
            &&& described is Object
            &&& described->Object_0["name"@] == JsonView::Text(name)
            &&& described->Object_0["schema"@] == schema
            &&& described->Object_0.dom().contains("strict"@) <==> strict is Some
            &&& strict is Some ==> described->Object_0["strict"@] == JsonView::Bool(strict->0)
        }),
{
    reveal_strlit("type");
    reveal_strlit("json_schema");
    reveal_strlit("name");
    reveal_strlit("schema");
    reveal_strlit("strict");
    assert("type"@.len() != "json_schema"@.len());
    assert("name"@.len() != "schema"@.len());
    assert("name"@.len() != "strict"@.len());
    assert("schema"@[1] != "strict"@[1]);
}

/// The choice of tools is sent by its word, and a specific tool as a function by its name.
pub proof fn law_tool_choice_is_sent(name: Seq<char>)
    ensures
        wire_tool_choice(ToolChoiceView::Auto) == JsonView::Text("auto"@),
        wire_tool_choice(ToolChoiceView::Forbidden) == JsonView::Text("none"@),
        wire_tool_choice(ToolChoiceView::Required) == JsonView::Text("required"@),
        wire_tool_choice(ToolChoiceView::Specific { name }) is Object,
        wire_tool_choice(ToolChoiceView::Specific { name })->Object_0["type"@] == JsonView::Text("function"@),
        wire_tool_choice(ToolChoiceView::Specific { name })->Object_0["function"@] == JsonView::Object(
            map!["name"@ => JsonView::Text(name)],
        ),
{
    reveal_strlit("type");
    reveal_strlit("function");
    assert("type"@.len() != "function"@.len());
}

/// Every request asks the model of the options, or the configured one, allows as many
/// tokens as the options or the configuration say, and sends the conversation, the
/// tools, the sampling options and the stop sequences; a stream asks for a stream.
pub proof fn law_request_follows_the_options(
    model: Seq<char>,
    max_tokens: u32,
    messages: Seq<MessageView>,
    options: ChatOptionsView,
    media: bool,
)
    ensures
        ({
            let body = base_request(model, max_tokens, messages, options, media);
            &&& options.model is Some ==> body.model == options.model->0
            &&& options.model is None ==> body.model == model
            &&& options.max_tokens is Some ==> body.max_tokens == options.max_tokens
            &&& options.max_tokens is None ==> body.max_tokens == Some(max_tokens)
            &&& body.messages == completion_conversation(messages, media)
            &&& body.tools == wire_tools(options.tools)
            &&& body.temperature == options.temperature
            &&& body.top_p == options.top_p
            &&& options.stop_sequences.len() == 0 ==> body.stop is None
            &&& options.stop_sequences.len() > 0 ==> body.stop == Some(options.stop_sequences)
            &&& body.seed is None && body.frequency_penalty is None && body.presence_penalty is None
            &&& body.logit_bias is None && body.user is None && body.response_format is None
            &&& body.tool_choice is None && body.stream is None && body.include_usage is None
        }),
{
}

/// Without options, none are set, and given ones are taken as they are.
pub proof fn law_given_options(options: ChatOptions)
    ensures
        given(None) == no_options(),
        given(Some(&options)) == options@,
{
}

/// Why a model stopped is known by its word, and every other word is a natural stop.
pub proof fn law_finish_reasons(reason: Seq<char>)
    ensures
        finish_reason_of("length"@) == FinishReason::MaxTokens,
        finish_reason_of("tool_calls"@) == FinishReason::ToolUse,
        finish_reason_of("content_filter"@) == FinishReason::ContentFilter,
        reason != "length"@ && reason != "tool_calls"@ && reason != "content_filter"@ ==> finish_reason_of(reason)
            == FinishReason::Stop,
{
    reveal_strlit("length");
    reveal_strlit("tool_calls");
    reveal_strlit("content_filter");
    assert("length"@.len() != "tool_calls"@.len());
    assert("length"@.len() != "content_filter"@.len());
    assert("tool_calls"@.len() != "content_filter"@.len());
}

/// An answer says its text and makes its calls: in order, each under its id and name,
/// with the document that its arguments denote, or their text where they denote none.
pub proof fn law_answer_is_read(choice: CompletionChoiceView, keep_empty: bool)
    ensures
        ({
            let blocks = choice_blocks(choice, keep_empty);
            let calls = match choice.tool_calls {
                Some(calls) => calls,
                None => Seq::empty(),
            };
            &&& text_of(blocks) == match choice.content {
                Some(text) => text,
                None => Seq::<char>::empty(),
            }
            &&& calls_of(blocks).len() == calls.len()
            &&& forall|i: int|
                #![trigger calls[i]]
                0 <= i < calls.len() ==> {
                    &&& calls_of(blocks)[i].0 == calls[i].id
                    &&& calls_of(blocks)[i].1 == calls[i].function.name
                    &&& parsed(calls[i].function.arguments) is Ok ==> calls_of(blocks)[i].2 == parsed(
                        calls[i].function.arguments,
                    )->Ok_0
                    &&& parsed(calls[i].function.arguments) is Err ==> calls_of(blocks)[i].2 == JsonView::Text(
                        calls[i].function.arguments,
                    )
                }
            &&& blocks.len() == calls.len() + if choice.content is Some && (keep_empty || choice.content->0.len() > 0) {
                1int
            } else {
                0int
            }
            &&& choice.content is Some && choice.content->0.len() > 0 ==> blocks[0] == (ContentView::Text {
                text: choice.content->0,
            })
        }),
{
    let calls = match choice.tool_calls {
        Some(calls) => calls,
        None => Seq::empty(),
    };
    let text = match choice.content {
        Some(text) => if keep_empty || text.len() > 0 {
            seq![ContentView::Text { text }]
        } else {
            Seq::empty()
        },
        None => Seq::empty(),
    };
    let tail = Seq::new(calls.len(), |i: int| call_block(calls[i]));
    let blocks = choice_blocks(choice, keep_empty);
    assert(blocks =~= text + tail);
    lemma_call_blocks_read(calls);
    let said = match choice.content {
        Some(text) => text,
        None => Seq::empty(),
    };
    law_text_of_blocks(text, ContentView::Text { text: said }, tail);
    law_calls_of_blocks(text, ContentView::Text { text: said }, tail);
    assert(text_of(text) =~= said);
    assert(calls_of(text).len() == 0);
    assert(said + Seq::<char>::empty() =~= said);
    assert(calls_of(text) + calls_of(tail) =~= calls_of(tail));
}

proof fn lemma_call_blocks_read(calls: Seq<CompletionToolCallView>)
    ensures
        ({
            let blocks = Seq::new(calls.len(), |i: int| call_block(calls[i]));
            &&& text_of(blocks) == Seq::<char>::empty()
            &&& calls_of(blocks).len() == calls.len()
            &&& forall|i: int|
                #![trigger calls[i]]
                0 <= i < calls.len() ==> calls_of(blocks)[i] == (
                    calls[i].id,
                    calls[i].function.name,
                    arguments_of(parsed(calls[i].function.arguments), calls[i].function.arguments),
                )
        }),
    decreases calls.len(),
{
    let blocks = Seq::new(calls.len(), |i: int| call_block(calls[i]));
    if calls.len() > 0 {
        let rest = calls.drop_last();
        lemma_call_blocks_read(rest);
        assert(blocks.drop_last() =~= Seq::new(rest.len(), |i: int| call_block(rest[i])));
        assert forall|i: int| #![trigger calls[i]] 0 <= i < calls.len() implies calls_of(blocks)[i] == (
            calls[i].id,
            calls[i].function.name,
            arguments_of(parsed(calls[i].function.arguments), calls[i].function.arguments),
        ) by {
            if i < rest.len() {
                assert(rest[i] == calls[i]);
            }
        }
    }
}

/// A response is read as one message of the assistant: its first answer. Its id, its
/// usage and why it stopped come with it; without an answer there is no message.
pub proof fn law_response_is_read(response: CompletionResponseView, keep_empty: bool)
    ensures
        ({
            let read = chat_response_of(response, keep_empty);
            &&& read.response_id == response.id
            &&& response.choices.len() == 0 ==> read.messages.len() == 0 && read.finish_reason is None
                && read.usage is None
            &&& response.choices.len() > 0 ==> {
                let choice = response.choices[0];
                &&& read.messages.len() == 1
                &&& read.messages[0].role == Role::Assistant
                &&& read.messages[0].content == choice_blocks(choice, keep_empty)
                &&& read.messages[0].name is None
                &&& choice.finish_reason is None ==> read.finish_reason is None
                &&& choice.finish_reason is Some ==> read.finish_reason == Some(
                    finish_reason_of(choice.finish_reason->0),
                )
                &&& response.usage is None ==> read.usage is None
                &&& response.usage is Some ==> read.usage is Some && read.usage->0.input_tokens
                    == response.usage->0.prompt_tokens && read.usage->0.output_tokens
                    == response.usage->0.completion_tokens
            }
        }),
{
}

/// A call that starts at an index is passed on with its id and name, and every later
/// part at that index belongs to it, whatever comes at other indices. A part at an index
/// where no call has started is passed on without id and name. No part is lost.
pub proof fn law_streamed_parts_belong_to_their_call(
    state: ChunkState,
    index: u32,
    id: Seq<char>,
    name: Seq<char>,
    start: Option<Seq<char>>,
    other: ChunkToolCallView,
    piece: Seq<char>,
)
    requires
        other.index != index,
    ensures
        ({
            let first = ChunkToolCallView {
                index,
                id: Some(id),
                function: Some(ChunkFunctionView { name: Some(name), arguments: start }),
            };
            let later = ChunkToolCallView {
                index,
                id: None,
                function: Some(ChunkFunctionView { name: None, arguments: Some(piece) }),
            };
            let opened = after_call_part(state, first);
            let between = after_call_part(opened, other);
            let after = after_call_part(between, later);
            &&& opened.updates.drop_last() == state.updates
            &&& opened.updates.len() == state.updates.len() + 1
            &&& opened.updates.last().tool_call is Some
            &&& opened.updates.last().tool_call->0.id == id
            &&& opened.updates.last().tool_call->0.name == name
            &&& start is Some ==> opened.updates.last().tool_call->0.arguments_delta == start->0
            &&& start is None ==> opened.updates.last().tool_call->0.arguments_delta.len() == 0
            &&& after.updates.drop_last() == between.updates
            &&& after.updates.len() == state.updates.len() + 3
            &&& after.updates.last().tool_call is Some
            &&& after.updates.last().tool_call->0.id == id
            &&& after.updates.last().tool_call->0.name == name
            &&& after.updates.last().tool_call->0.arguments_delta == piece
            &&& after.updates.last().text is None
            &&& !state.calls.dom().contains(index) ==> ({
                let lost = after_call_part(state, later).updates.last();
                lost.tool_call is Some && lost.tool_call->0.id.len() == 0 && lost.tool_call->0.name.len() == 0
                    && lost.tool_call->0.arguments_delta == piece
            })
        }),
{
    let first = ChunkToolCallView {
        index,
        id: Some(id),
        function: Some(ChunkFunctionView { name: Some(name), arguments: start }),
    };
    let later = ChunkToolCallView {
        index,
        id: None,
        function: Some(ChunkFunctionView { name: None, arguments: Some(piece) }),
    };
    law_updates_carry_one_thing(piece, id, name, piece, None, None);
    let opened = after_call_part(state, first);
    let between = after_call_part(opened, other);
    let after = after_call_part(between, later);
    assert(opened.updates.drop_last() =~= state.updates);
    assert(after.updates.drop_last() =~= between.updates);
}

/// A part of a call that has an id and a function starts a call at its index, under the
/// name that the function has; every other part leaves the calls as they are. What a
/// part passes on is the id and the name of the call at its index, if there is one, and
/// the arguments that it brings.
pub proof fn law_parts_start_and_extend_calls(state: ChunkState, part: ChunkToolCallView)
    ensures
        ({
            let after = after_call_part(state, part);
            let update = after.updates.last();
            let name = if part.function->0.name is Some { part.function->0.name->0 } else { Seq::empty() };
            &&& part.id is Some && part.function is Some ==> after.calls == state.calls.insert(
                part.index,
                (part.id->0, name),
            )
            &&& part.id is None || part.function is None ==> after.calls == state.calls
            &&& after.updates.len() == state.updates.len() + 1
            &&& after.updates.drop_last() == state.updates
            &&& update.text is None && update.finish_reason is None && update.usage is None
            &&& update.tool_call is Some
            &&& after.calls.dom().contains(part.index) ==> update.tool_call->0.id == after.calls[part.index].0
                && update.tool_call->0.name == after.calls[part.index].1
            &&& !after.calls.dom().contains(part.index) ==> update.tool_call->0.id.len() == 0
                && update.tool_call->0.name.len() == 0
            &&& part.function is Some && part.function->0.arguments is Some ==> update.tool_call->0.arguments_delta
                == part.function->0.arguments->0
            &&& part.function is None || part.function->0.arguments is None
                ==> update.tool_call->0.arguments_delta.len() == 0
        }),
{
    assert(after_call_part(state, part).updates.drop_last() =~= state.updates);
}

/// What a chunk adds to an answer is passed on: its text, unless that is empty, then the
/// parts of its calls, and at last why it stopped.
pub proof fn law_chunks_are_passed_on(
    state: ChunkState,
    choice: ChunkChoiceView,
    first: Seq<ChunkToolCallView>,
    part: ChunkToolCallView,
)
    ensures
        ({
            let after = after_choice(state, choice);
            let t: int = if choice.content is Some && choice.content->0.len() > 0 { 1 } else { 0 };
            let n = state.updates.len() as int;
            &&& choice.tool_calls is None ==> after.calls == state.calls
            &&& choice.tool_calls is None ==> after.updates.len() == n + t + if choice.finish_reason is Some {
                1int
            } else {
                0int
            }
            &&& choice.tool_calls is None ==> after.updates.take(n) == state.updates
            &&& choice.tool_calls is None && t == 1 ==> after.updates[n].text == choice.content
                && after.updates[n].tool_call is None
            &&& choice.finish_reason is Some ==> after.updates.len() > 0 && after.updates.last().finish_reason == Some(
                finish_reason_of(choice.finish_reason->0),
            ) && after.updates.last().text is None
            &&& after_choice(state, choice) == match choice.finish_reason {
                Some(reason) => ChunkState {
                    updates: after_choice(state, ChunkChoiceView { finish_reason: None, ..choice }).updates.push(
                        UpdateView {
                            text: None,
                            tool_call: None,
                            finish_reason: Some(finish_reason_of(reason)),
                            usage: None,
                        },
                    ),
                    calls: after_choice(state, ChunkChoiceView { finish_reason: None, ..choice }).calls,
                },
                None => after,
            }
        }),
        after_call_parts(state, Seq::empty()) == state,
        after_call_parts(state, first.push(part)) == after_call_part(after_call_parts(state, first), part),
        choice.finish_reason is None && choice.tool_calls is Some ==> after_choice(state, choice) == after_call_parts(
            after_choice(state, ChunkChoiceView { tool_calls: None, ..choice }),
            choice.tool_calls->0,
        ),
{
    assert(first.push(part).drop_last() =~= first);
    let after = after_choice(state, choice);
    if choice.tool_calls is None {
        assert(after.updates.take(state.updates.len() as int) =~= state.updates);
    }
    if choice.content is Some {
        law_updates_carry_one_thing(
            choice.content->0,
            Seq::empty(),
            Seq::empty(),
            Seq::empty(),
            None,
            None,
        );
    }
}

/// A chunk gives its usage first, if it has one, then what it adds to its answers, in
/// their order.
pub proof fn law_chunk_gives_usage_and_answers(
    calls: Map<u32, (Seq<char>, Seq<char>)>,
    first: Seq<ChunkChoiceView>,
    choice: ChunkChoiceView,
    usage: Option<CompletionUsage>,
)
    ensures
        after_chunk(calls, Seq::empty(), None).updates.len() == 0,
        after_chunk(calls, Seq::empty(), None).calls == calls,
        usage is Some ==> ({
            let updates = after_chunk(calls, Seq::empty(), usage).updates;
            &&& updates.len() == 1
            &&& updates[0].text is None && updates[0].tool_call is None && updates[0].finish_reason is None
            &&& updates[0].usage is Some
            &&& updates[0].usage->0.input_tokens == usage->0.prompt_tokens
            &&& updates[0].usage->0.output_tokens == usage->0.completion_tokens
        }),
        after_chunk(calls, first.push(choice), usage) == after_choice(after_chunk(calls, first, usage), choice),
{
    assert(first.push(choice).drop_last() =~= first);
}

/// The models of what goes over the wire have all its fields.
pub proof fn law_wire_models_are_complete(
    call: CompletionToolCall,
    message: CompletionMessage,
    tool: CompletionTool,
    request: CompletionRequest,
    choice: CompletionChoice,
    response: CompletionResponse,
)
    ensures
        call@.id == call.id@,
        call@.kind == call.kind@,
        call@.function.name == call.function.name@,
        call@.function.arguments == call.function.arguments@,
        message@.role == message.role@,
        message@.content == message.content.deep_view(),
        message@.tool_calls == message.tool_calls.deep_view(),
        message@.tool_call_id == message.tool_call_id.deep_view(),
        tool@.kind == tool.kind@,
        tool@.function.name == tool.function.name@,
        tool@.function.description == tool.function.description@,
        tool@.function.parameters == tool.function.parameters@,
        request@.model == request.model@,
        request@.max_tokens == request.max_tokens,
        request@.messages == request.messages.deep_view(),
        request@.tools == request.tools.deep_view(),
        request@.temperature == request.temperature,
        request@.top_p == request.top_p,
        request@.seed == request.seed,
        request@.frequency_penalty == request.frequency_penalty,
        request@.presence_penalty == request.presence_penalty,
        request.logit_bias is Some ==> request@.logit_bias == Some(request.logit_bias->0@),
        request.logit_bias is None ==> request@.logit_bias is None,
        request@.user == request.user.deep_view(),
        request@.response_format == request.response_format.deep_view(),
        request@.tool_choice == request.tool_choice.deep_view(),
        request@.stop == request.stop.deep_view(),
        request@.stream == request.stream,
        request@.include_usage == request.include_usage,
        choice@.content == choice.content.deep_view(),
        choice@.tool_calls == choice.tool_calls.deep_view(),
        choice@.finish_reason == choice.finish_reason.deep_view(),
        response@.id == response.id.deep_view(),
        response@.choices == response.choices.deep_view(),
        response@.usage == response.usage,
{
}

} // verus!
