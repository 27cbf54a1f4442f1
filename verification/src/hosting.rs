//! Serving an agent over HTTP: the bodies that are exchanged and the status of
//! failures.

use vstd::prelude::*;

use crate::error::{error_text, AgentError, AgentResult, ErrorView};
use crate::ids::{fresh_id, is_uuid};
use crate::json::JsonView;
use crate::session::AgentSession;
use crate::types::{
    law_text_message_says_its_text, no_options, role_named, text_message, text_of, AgentResponse, AgentResponseUpdate,
    AgentRunOptions, ChatOptions,
    ChatOptionsView, FinishReason, Message, MessageView, Usage, F32,
};

verus! {

/// Configuration for the agent HTTP server.
#[derive(Debug)]
pub struct AgentServerConfig {
    /// The host address to bind to.
    pub host: String,
    /// The port to listen on.
    pub port: u16,
}

impl Default for AgentServerConfig {
    fn default() -> (config: Self)
        ensures
            config.host@ == "0.0.0.0"@,
            config.port == 8080,
    {
        AgentServerConfig { host: "0.0.0.0".to_owned(), port: 8080 }
    }
}

// ---------------------------------------------------------------------------
// Native endpoints
// ---------------------------------------------------------------------------

/// Options of a run request.
#[derive(Debug)]
pub struct AgentRunRequestOptions {
    /// Chat option overrides.
    pub chat_options: Option<ChatOptions>,
    /// Additional instructions for this call only.
    pub additional_instructions: Option<String>,
}

impl AgentRunRequestOptions {
    /// The run options that these stand for.
    pub fn into_run_options(self) -> (options: AgentRunOptions)
        ensures
            options.chat_options == self.chat_options,
            options.additional_instructions == self.additional_instructions,
    {
        AgentRunOptions {
            chat_options: self.chat_options,
            additional_instructions: self.additional_instructions,
        }
    }
}

/// Body of a run request.
#[derive(Debug)]
pub struct AgentRunRequest {
    /// The input messages.
    pub messages: Vec<Message>,
    /// Session identifier. Without one, a new session is made.
    pub session_id: Option<String>,
    /// Overrides for this call.
    pub options: Option<AgentRunRequestOptions>,
}

impl AgentRunRequest {
    /// The session that the request is run in.
    pub fn session(&self) -> (session: AgentSession)
        ensures
            match self.session_id {
                Some(id) => session.session_id@ == id@,
                None => is_uuid(session.session_id@),
            },
            session.conversation_id is None,
            session.state@ == Map::<Seq<char>, JsonView>::empty(),
    {
        AgentSession::with_id(
            match &self.session_id {
                Some(id) => Some(id.clone()),
                None => None,
            },
        )
    }
}

/// Body of the response to a run request.
#[derive(Debug)]
pub struct AgentRunResponse {
    /// The final text.
    pub text: String,
    /// All messages of the run.
    pub messages: Vec<Message>,
    /// The reason the model stopped generating.
    pub finish_reason: Option<FinishReason>,
    /// Token usage of all model calls.
    pub usage: Option<Usage>,
}

impl AgentRunResponse {
    /// The body that reports a response.
    pub fn of_response(response: AgentResponse) -> (body: Self)
        ensures
            body.text == response.text,
            body.messages == response.messages,
            body.finish_reason == response.finish_reason,
            body.usage == response.usage,
    {
        AgentRunResponse {
            text: response.text,
            messages: response.messages,
            finish_reason: response.finish_reason,
            usage: response.usage,
        }
    }
}

/// An event of a streamed run.
#[derive(Debug)]
pub struct StreamEvent {
    /// More text.
    pub text: Option<String>,
    /// The finish reason, at the end.
    pub finish_reason: Option<FinishReason>,
    /// Usage, mostly at the end.
    pub usage: Option<Usage>,
}

/// The mark that ends a stream of events.
pub const END_MARK: &'static str = "[DONE]";

/// What is sent for what comes out of a run's stream.
#[derive(Debug)]
pub enum StreamStep {
    /// The event, and the stream goes on.
    Send(StreamEvent),
    /// The end mark: the stream has ended or failed.
    Finish,
}

impl StreamStep {
    /// What is sent for an element of a run's stream, or for its end.
    pub fn of_element(element: Option<AgentResult<AgentResponseUpdate>>) -> (step: Self)
        ensures
            match element {
                Some(Ok(update)) => step == StreamStep::Send(
                    StreamEvent {
                        text: update.text,
                        finish_reason: update.inner.finish_reason,
                        usage: update.inner.usage,
                    },
                ),
                _ => step is Finish,
            },
    {
        match element {
            Some(Ok(update)) => StreamStep::Send(
                StreamEvent {
                    text: update.text,
                    finish_reason: update.inner.finish_reason,
                    usage: update.inner.usage,
                },
            ),
            _ => StreamStep::Finish,
        }
    }
}

/// Body of the response to an information request.
#[derive(Debug)]
pub struct AgentInfoResponse {
    /// The agent's identifier.
    pub id: String,
    /// The agent's name.
    pub name: Option<String>,
    /// The agent's description.
    pub description: Option<String>,
}

// ---------------------------------------------------------------------------
// Chat completions
// ---------------------------------------------------------------------------

/// A message in chat completion format.
#[derive(Debug)]
pub struct ChatCompletionMessage {
    /// The role of the author.
    pub role: String,
    /// The text.
    pub content: String,
}

impl View for ChatCompletionMessage {
    type V = (Seq<char>, Seq<char>);

    open spec fn view(&self) -> (Seq<char>, Seq<char>) {
        (self.role@, self.content@)
    }
}

impl DeepView for ChatCompletionMessage {
    type V = (Seq<char>, Seq<char>);

    open spec fn deep_view(&self) -> (Seq<char>, Seq<char>) {
        self@
    }
}

impl ChatCompletionMessage {
    /// The message that this stands for.
    pub fn into_message(self) -> (message: Message)
        ensures
            message@ == text_message(role_named(self.role@), self.content@),
    {
        Message::of_role_name(self.role.as_str(), self.content.as_str())
    }
}

/// Body of a chat completion request.
#[derive(Debug)]
pub struct ChatCompletionRequest {
    /// The messages.
    pub messages: Vec<ChatCompletionMessage>,
    /// Model identifier.
    pub model: Option<String>,
    /// Maximum tokens to generate.
    pub max_tokens: Option<u32>,
    /// Sampling temperature.
    pub temperature: Option<F32>,
}

/// The messages that messages of a request stand for.
pub open spec fn completion_input(messages: Seq<(Seq<char>, Seq<char>)>) -> Seq<MessageView> {
    Seq::new(messages.len(), |i: int| text_message(role_named(messages[i].0), messages[i].1))
}

impl ChatCompletionRequest {
    /// The messages that the agent is run with.
    pub fn to_messages(&self) -> (out: Vec<Message>)
        ensures
            out.deep_view() == completion_input(self.messages.deep_view()),
    {
        let mut out: Vec<Message> = Vec::new();
        let ghost all = completion_input(self.messages.deep_view());
        let mut i: usize = 0;
        assert(out.deep_view() =~= all.take(0));
        while i < self.messages.len()
            invariant
                i <= self.messages@.len(),
                all == completion_input(self.messages.deep_view()),
                out.deep_view() == all.take(i as int),
            decreases self.messages@.len() - i,
        {
            let ghost before = out.deep_view();
            out.push(Message::of_role_name(self.messages[i].role.as_str(), self.messages[i].content.as_str()));
            assert(self.messages.deep_view()[i as int] == self.messages@[i as int]@);
            assert(out.deep_view() =~= before.push(all[i as int]));
            assert(all.take(i + 1) =~= before.push(all[i as int]));
            i += 1;
        }
        assert(all.take(i as int) =~= all);
        out
    }

    /// The options that the agent is run with, none where the request sets none.
    pub fn run_options(&self) -> (options: Option<AgentRunOptions>)
        ensures
            match options {
                Some(o) => {
                    &&& self.model is Some || self.max_tokens is Some || self.temperature is Some
                    &&& o.additional_instructions is None
                    &&& o.chat_options.deep_view() == Some(
                        ChatOptionsView {
                            model: self.model.deep_view(),
                            max_tokens: self.max_tokens,
                            temperature: self.temperature,
                            ..no_options()
                        },
                    )
                },
                None => self.model is None && self.max_tokens is None && self.temperature is None,
            },
    {
        if self.max_tokens.is_some() || self.temperature.is_some() || self.model.is_some() {
            let base = ChatOptions::default();
            let chat_options = ChatOptions {
                model: match &self.model {
                    Some(model) => Some(model.clone()),
                    None => None,
                },
                max_tokens: self.max_tokens,
                temperature: self.temperature,
                ..base
            };
            assert(chat_options@ =~= (ChatOptionsView {
                model: self.model.deep_view(),
                max_tokens: self.max_tokens,
                temperature: self.temperature,
                ..no_options()
            }));
            Some(AgentRunOptions { chat_options: Some(chat_options), additional_instructions: None })
        } else {
            None
        }
    }
}

/// Usage in chat completion format.
#[derive(Debug, Clone, Copy, PartialEq, Eq, Structural)]
pub struct ChatCompletionUsage {
    /// Tokens of the prompt.
    pub prompt_tokens: u32,
    /// Tokens of the completion.
    pub completion_tokens: u32,
    /// All tokens.
    pub total_tokens: u32,
}

/// A choice in a chat completion response.
#[derive(Debug)]
pub struct ChatCompletionChoice {
    /// The index of this choice.
    pub index: u32,
    /// The generated message.
    pub message: ChatCompletionMessage,
    /// The reason the model stopped generating.
    pub finish_reason: String,
}

/// What a choice holds.
#[verifier::ext_equal]
pub struct ChatCompletionChoiceView {
    pub index: u32,
    pub message: (Seq<char>, Seq<char>),
    pub finish_reason: Seq<char>,
}

impl View for ChatCompletionChoice {
    type V = ChatCompletionChoiceView;

    open spec fn view(&self) -> ChatCompletionChoiceView {
        ChatCompletionChoiceView {
            index: self.index,
            message: self.message@,
            finish_reason: self.finish_reason@,
        }
    }
}

impl DeepView for ChatCompletionChoice {
    type V = ChatCompletionChoiceView;

    open spec fn deep_view(&self) -> ChatCompletionChoiceView {
        self@
    }
}

/// Body of a chat completion response.
#[derive(Debug)]
pub struct ChatCompletionResponse {
    /// Identifier of the completion.
    pub id: String,
    /// The object type.
    pub object: String,
    /// The choices.
    pub choices: Vec<ChatCompletionChoice>,
    /// Token usage.
    pub usage: Option<ChatCompletionUsage>,
}

/// The name of a finish reason in chat completion format.
pub open spec fn reason_name(reason: Option<FinishReason>) -> Seq<char> {
    match reason {
        Some(FinishReason::MaxTokens) => "length"@,
        Some(FinishReason::ToolUse) => "tool_calls"@,
        Some(FinishReason::ContentFilter) => "content_filter"@,
        _ => "stop"@,
    }
}

/// Whether the tokens of a usage can be counted together.
pub open spec fn countable(usage: Option<Usage>) -> bool {
    match usage {
        Some(u) => u.input_tokens + u.output_tokens <= u32::MAX,
        None => true,
    }
}

impl ChatCompletionResponse {
    /// Whether the tokens of a usage can be counted together.
    pub fn accepts_usage(usage: Option<Usage>) -> (yes: bool)
        ensures
            yes == countable(usage),
    {
        match usage {
            Some(u) => u.input_tokens <= u32::MAX - u.output_tokens,
            None => true,
        }
    }

    /// The body that reports a response, with a fresh identifier.
    pub fn of_response(response: AgentResponse) -> (body: Self)
        requires
            countable(response.usage),
        ensures
            is_uuid(body.id@),
            body.object@ == "chat.completion"@,
            body.choices.deep_view() == seq![
                ChatCompletionChoiceView {
                    index: 0,
                    message: ("assistant"@, response@.text),
                    finish_reason: reason_name(response.finish_reason),
                },
            ],
            body.usage == match response.usage {
                Some(u) => Some(
                    ChatCompletionUsage {
                        prompt_tokens: u.input_tokens,
                        completion_tokens: u.output_tokens,
                        total_tokens: (u.input_tokens + u.output_tokens) as u32,
                    },
                ),
                None => None,
            },
    {
        let usage = match response.usage {
            Some(u) => Some(
                ChatCompletionUsage {
                    prompt_tokens: u.input_tokens,
                    completion_tokens: u.output_tokens,
                    total_tokens: u.input_tokens + u.output_tokens,
                },
            ),
            None => None,
        };
        let reason = match response.finish_reason {
            Some(FinishReason::MaxTokens) => "length",
            Some(FinishReason::ToolUse) => "tool_calls",
            Some(FinishReason::ContentFilter) => "content_filter",
            _ => "stop",
        };
        let ghost text = response.text@;
        let mut choices: Vec<ChatCompletionChoice> = Vec::new();
        choices.push(
            ChatCompletionChoice {
                index: 0,
                message: ChatCompletionMessage { role: "assistant".to_owned(), content: response.text },
                finish_reason: reason.to_owned(),
            },
        );
        assert(choices.deep_view() =~= seq![
            ChatCompletionChoiceView {
                index: 0,
                message: ("assistant"@, text),
                finish_reason: reason_name(response.finish_reason),
            },
        ]);
        ChatCompletionResponse { id: fresh_id(), object: "chat.completion".to_owned(), choices, usage }
    }
}

// ---------------------------------------------------------------------------
// Failures
// ---------------------------------------------------------------------------

/// Body of an error response.
#[derive(Debug)]
pub struct ErrorDetail {
    pub message: String,
    pub error_type: String,
}

/// The status that an error is answered with: that of a provider is handed on if
/// it is one, and without one the gateway is to blame.
pub open spec fn status_for(error: ErrorView) -> u16 {
    match error {
        ErrorView::InvalidRequest(_) => 400,
        ErrorView::ProviderError { status_code, .. } => match status_code {
            Some(code) => if 100 <= code <= 999 {
                code
            } else {
                502
            },
            None => 502,
        },
        _ => 500,
    }
}

/// The status and the body that an error is answered with.
pub fn agent_error_to_response(error: &AgentError) -> (answer: (u16, ErrorDetail))
    ensures
        answer.0 == status_for(error@),
        answer.1.message@ == error_text(error@),
        answer.1.error_type@ == "agent_error"@,
{
    let status: u16 = match error {
        AgentError::InvalidRequest(_) => 400,
        AgentError::ProviderError { status_code, .. } => match status_code {
            Some(code) => if 100 <= *code && *code <= 999 {
                *code
            } else {
                502
            },
            None => 502,
        },
        _ => 500,
    };
    (status, ErrorDetail { message: error.to_text(), error_type: "agent_error".to_owned() })
}

/// Every error is answered with a status, and none with a success of the library's own making.
pub proof fn law_errors_have_a_status(error: ErrorView)
    ensures
        100 <= status_for(error) <= 999,
        !(error is ProviderError) ==> 400 <= status_for(error) <= 500,
{
}

/// The agent is run with the messages of a request, in order, each with its text and in
/// the role of its name.
pub proof fn law_input_is_kept(messages: Seq<(Seq<char>, Seq<char>)>)
    ensures
        completion_input(messages).len() == messages.len(),
        forall|i: int|
            #![trigger completion_input(messages)[i]]
            0 <= i < messages.len() ==> {
                &&& completion_input(messages)[i].role == role_named(messages[i].0)
                &&& text_of(completion_input(messages)[i].content) == messages[i].1
            },
{
    assert forall|i: int| #![trigger completion_input(messages)[i]] 0 <= i < messages.len() implies {
        &&& completion_input(messages)[i].role == role_named(messages[i].0)
        &&& text_of(completion_input(messages)[i].content) == messages[i].1
    } by {
        law_text_message_says_its_text(role_named(messages[i].0), messages[i].1);
    }
}

/// Why a model stopped is told by its word, and a natural stop where nothing is known. A
/// usage can be told if its tokens can be counted together.
pub proof fn law_reasons_are_told(usage: Usage)
    ensures
        reason_name(Some(FinishReason::Stop)) == "stop"@,
        reason_name(Some(FinishReason::MaxTokens)) == "length"@,
        reason_name(Some(FinishReason::ToolUse)) == "tool_calls"@,
        reason_name(Some(FinishReason::ContentFilter)) == "content_filter"@,
        reason_name(None) == "stop"@,
        countable(None),
        countable(Some(usage)) <==> usage.input_tokens + usage.output_tokens <= u32::MAX,
{
}

/// A bad request is the client's fault; what a provider reports is handed on if it is a
/// status, and without one the gateway is to blame; the rest is the server's fault.
pub proof fn law_errors_are_blamed(message: Seq<char>, name: Seq<char>, code: u16)
    ensures
        status_for(ErrorView::InvalidRequest(message)) == 400,
        100 <= code <= 999 ==> status_for(ErrorView::ProviderError { message, status_code: Some(code) }) == code,
        !(100 <= code <= 999) ==> status_for(ErrorView::ProviderError { message, status_code: Some(code) }) == 502,
        status_for(ErrorView::ProviderError { message, status_code: None }) == 502,
        status_for(ErrorView::InvalidResponse(message)) == 500,
        status_for(ErrorView::ToolError { tool_name: name, message }) == 500,
        status_for(ErrorView::SerializationError(message)) == 500,
        status_for(ErrorView::HttpError(message)) == 500,
        status_for(ErrorView::Unimplemented(message)) == 500,
        status_for(ErrorView::Other(message)) == 500,
{
}

/// The model of a choice has all that the choice holds.
pub proof fn law_choice_model_is_complete(choice: ChatCompletionChoice, message: ChatCompletionMessage)
    ensures
        choice@.index == choice.index,
        choice@.message == choice.message@,
        choice@.finish_reason == choice.finish_reason@,
        message@.0 == message.role@,
        message@.1 == message.content@,
{
}

} // verus!
