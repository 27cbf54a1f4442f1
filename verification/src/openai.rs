//! The OpenAI chat completions API.

use vstd::prelude::*;

use crate::completions::{
    after_chunk, base_request, chat_response_of, completion_messages, completion_to_chat_response, format_to_completion, given,
    handle_chunk, message_to_completion, tool_choice_to_completion, wire_format, wire_tool_choice, CallTable,
    ChunkState, CompletionChunk, CompletionMessage, CompletionRequest, CompletionRequestView, CompletionResponse,
};
use crate::debug::{duration, duration_text, quote, quoted, record, record_text};
use crate::error::{AgentResult, ErrorView};
use crate::http::{
    credential_headers, is_header_value, json_content_type, missing_variable, required_variable, variable_or, Header,
    HeaderView,
};
use crate::json::Json;
use crate::secret::SecretString;
use crate::text::{cat2, decimal, decimal_of};
use crate::types::{
    clone_bias, clone_opt_string, ChatOptions, ChatOptionsView, ChatResponse, ChatResponseUpdate, Message, MessageView,
    ResponseFormat, ToolChoice, F32,
};

verus! {

/// Overall request timeout, in milliseconds.
pub const DEFAULT_REQUEST_TIMEOUT: u64 = 120000;

/// TCP connect timeout, in milliseconds.
pub const DEFAULT_CONNECT_TIMEOUT: u64 = 10000;

/// Maximum tokens to generate unless the options say otherwise.
pub const DEFAULT_MAX_TOKENS: u32 = 4096;

/// Configuration for the OpenAI chat client.
pub struct OpenAIConfig {
    /// OpenAI API key.
    pub api_key: SecretString,
    /// Model identifier.
    pub model: String,
    /// Maximum tokens to generate.
    pub max_tokens: u32,
    /// Base URL for the API.
    pub base_url: String,
    /// Overall request timeout, in milliseconds.
    pub request_timeout: u64,
    /// TCP connect timeout, in milliseconds.
    pub connect_timeout: u64,
}

impl OpenAIConfig {
    /// Create a config from the values of the environment variables
    /// `OPENAI_API_KEY` (required) and `OPENAI_MODEL`.
    pub fn from_env(api_key: Option<String>, model: Option<String>) -> (result: AgentResult<Self>)
        ensures
            match result {
                Ok(config) => {
                    &&& api_key.deep_view() == Some(config.api_key@)
                    &&& config.model@ == match model.deep_view() {
                        Some(text) => text,
                        None => "gpt-4o"@,
                    }
                    &&& config.max_tokens == DEFAULT_MAX_TOKENS == 4096
                    &&& config.base_url@ == "https://api.openai.com/v1"@
                    &&& config.request_timeout == DEFAULT_REQUEST_TIMEOUT == 120000
                    &&& config.connect_timeout == DEFAULT_CONNECT_TIMEOUT == 10000
                },
                Err(error) => api_key is None && error@ == missing_variable("OPENAI_API_KEY"@),
            },
    {
        let key = match required_variable("OPENAI_API_KEY", api_key) {
            Ok(key) => key,
            Err(error) => return Err(error),
        };
        Ok(
            OpenAIConfig {
                api_key: SecretString::new(key.as_str()),
                model: variable_or(model, "gpt-4o"),
                max_tokens: DEFAULT_MAX_TOKENS,
                base_url: "https://api.openai.com/v1".to_owned(),
                request_timeout: DEFAULT_REQUEST_TIMEOUT,
                connect_timeout: DEFAULT_CONNECT_TIMEOUT,
            },
        )
    }

    /// The URL that requests are sent to.
    pub fn completions_url(&self) -> (url: String)
        ensures
            url@ == self.base_url@ + "/chat/completions"@,
    {
        cat2(self.base_url.as_str(), "/chat/completions")
    }

    /// What a log shows of the configuration: everything but the key.
    pub fn debug_text(&self) -> (text: String)
        ensures
            text@ == record(
                "OpenAIConfig"@,
                seq![
                    ("api_key"@, "SecretString([REDACTED])"@),
                    ("model"@, quoted(self.model@)),
                    ("max_tokens"@, decimal(self.max_tokens as nat)),
                    ("base_url"@, quoted(self.base_url@)),
                    ("request_timeout"@, duration(self.request_timeout as nat)),
                    ("connect_timeout"@, duration(self.connect_timeout as nat)),
                ],
            ),
    {
        let mut fields: Vec<(&str, String)> = Vec::new();
        fields.push(("api_key", self.api_key.debug_text()));
        fields.push(("model", quote(self.model.as_str())));
        fields.push(("max_tokens", decimal_of(self.max_tokens as u64)));
        fields.push(("base_url", quote(self.base_url.as_str())));
        fields.push(("request_timeout", duration_text(self.request_timeout)));
        fields.push(("connect_timeout", duration_text(self.connect_timeout)));
        assert(fields.deep_view() =~= seq![
            ("api_key"@, "SecretString([REDACTED])"@),
            ("model"@, quoted(self.model@)),
            ("max_tokens"@, decimal(self.max_tokens as nat)),
            ("base_url"@, quoted(self.base_url@)),
            ("request_timeout"@, duration(self.request_timeout as nat)),
            ("connect_timeout"@, duration(self.connect_timeout as nat)),
        ]);
        record_text("OpenAIConfig", &fields)
    }
}

impl Clone for OpenAIConfig {
    fn clone(&self) -> (copy: Self)
        ensures
            copy.api_key@ == self.api_key@,
            copy.model@ == self.model@,
            copy.max_tokens == self.max_tokens,
            copy.base_url@ == self.base_url@,
            copy.request_timeout == self.request_timeout,
            copy.connect_timeout == self.connect_timeout,
    {
        OpenAIConfig {
            api_key: self.api_key.clone(),
            model: self.model.clone(),
            max_tokens: self.max_tokens,
            base_url: self.base_url.clone(),
            request_timeout: self.request_timeout,
            connect_timeout: self.connect_timeout,
        }
    }
}

/// The body of a request: what every request has, and the options that this API
/// knows beyond that.
pub open spec fn openai_request(
    model: Seq<char>,
    max_tokens: u32,
    messages: Seq<MessageView>,
    options: ChatOptionsView,
) -> CompletionRequestView {
    CompletionRequestView {
        seed: options.seed,
        frequency_penalty: options.frequency_penalty,
        presence_penalty: options.presence_penalty,
        logit_bias: if options.logit_bias == Map::<Seq<char>, F32>::empty() {
            None
        } else {
            Some(options.logit_bias)
        },
        user: options.user,
        response_format: match options.response_format {
            Some(format) => Some(wire_format(format)),
            None => None,
        },
        tool_choice: match options.tool_choice {
            Some(choice) => Some(wire_tool_choice(choice)),
            None => None,
        },
        ..base_request(model, max_tokens, messages, options, true)
    }
}

/// The response format on the wire.
pub fn openai_response_format(format: &ResponseFormat) -> (out: Json)
    ensures
        out@ == wire_format(format@),
{
    format_to_completion(format)
}

/// The tool choice on the wire.
pub fn openai_tool_choice(choice: &ToolChoice) -> (out: Json)
    ensures
        out@ == wire_tool_choice(choice@),
{
    tool_choice_to_completion(choice)
}

/// A client for the OpenAI chat completions API: what it sends and how it reads
/// what comes back.
pub struct OpenAIChatClient {
    pub config: OpenAIConfig,
}

impl OpenAIChatClient {
    /// A client with the given configuration.
    pub fn new(config: OpenAIConfig) -> (client: Self)
        ensures
            client.config == config,
    {
        OpenAIChatClient { config }
    }

    /// Build the HTTP headers of every request.
    pub fn build_headers(&self) -> (result: AgentResult<Vec<Header>>)
        ensures
            match result {
                Ok(headers) => {
                    &&& is_header_value("Bearer "@ + self.config.api_key@)
                    &&& headers.deep_view() == seq![
                        json_content_type(),
                        HeaderView {
                            name: "authorization"@,
                            value: "Bearer "@ + self.config.api_key@,
                            sensitive: true,
                        },
                    ]
                },
                Err(error) => {
                    &&& !is_header_value("Bearer "@ + self.config.api_key@)
                    &&& error@ == ErrorView::InvalidRequest("OPENAI_API_KEY contains invalid characters"@)
                },
            },
    {
        credential_headers(
            "authorization",
            cat2("Bearer ", self.config.api_key.expose()).as_str(),
            "OPENAI_API_KEY contains invalid characters",
        )
    }

    /// Build the request body.
    pub fn build_request_body(&self, messages: &Vec<Message>, options: Option<&ChatOptions>) -> (body: CompletionRequest)
        ensures
            body@ == openai_request(
                self.config.model@,
                self.config.max_tokens,
                messages.deep_view(),
                given(options),
            ),
    {
        match options {
            Some(o) => request_with(self.config.model.as_str(), self.config.max_tokens, messages, o),
            None => request_with(
                self.config.model.as_str(),
                self.config.max_tokens,
                messages,
                &ChatOptions::default(),
            ),
        }
    }
}

/// The request body for given options.
pub fn request_with(model: &str, max_tokens: u32, messages: &Vec<Message>, options: &ChatOptions) -> (body: CompletionRequest)
    ensures
        body@ == openai_request(model@, max_tokens, messages.deep_view(), options@),
{
    let base = CompletionRequest::base(model, max_tokens, messages, options, true);
    let body = CompletionRequest {
        seed: options.seed,
        frequency_penalty: options.frequency_penalty,
        presence_penalty: options.presence_penalty,
        logit_bias: if options.logit_bias.is_empty() {
            None
        } else {
            Some(clone_bias(&options.logit_bias))
        },
        user: clone_opt_string(&options.user),
        response_format: match &options.response_format {
            Some(format) => Some(openai_response_format(format)),
            None => None,
        },
        tool_choice: match &options.tool_choice {
            Some(choice) => Some(openai_tool_choice(choice)),
            None => None,
        },
        ..base
    };
    assert(body@ =~= openai_request(model@, max_tokens, messages.deep_view(), options@));
    body
}

/// The messages on the wire that a message becomes.
pub fn message_to_openai(message: &Message) -> (out: Vec<CompletionMessage>)
    ensures
        out.deep_view() == completion_messages(message@, true),
{
    message_to_completion(message, true)
}

/// The chat response that a response on the wire stands for.
pub fn openai_response_to_chat_response(response: &CompletionResponse) -> (out: ChatResponse)
    ensures
        out@ == chat_response_of(response@, true),
{
    completion_to_chat_response(response, true)
}

/// The updates that a chunk gives.
pub fn handle_openai_chunk(chunk: &CompletionChunk, calls: &mut CallTable) -> (updates: Vec<ChatResponseUpdate>)
    ensures
        (ChunkState { calls: final(calls)@, updates: updates.deep_view() }) == after_chunk(
            old(calls)@,
            chunk.choices.deep_view(),
            chunk.usage,
        ),
{
    handle_chunk(chunk, calls)
}

/// Beyond what every request has, a request sends the seed, the penalties, the biases,
/// the user, the response format and the choice of tools, each as it is set; images are
/// sent as such.
pub proof fn law_request_sends_every_option(
    model: Seq<char>,
    max_tokens: u32,
    messages: Seq<MessageView>,
    options: ChatOptionsView,
)
    ensures
        ({
            let base = base_request(model, max_tokens, messages, options, true);
            let body = openai_request(model, max_tokens, messages, options);
            &&& body.model == base.model
            &&& body.max_tokens == base.max_tokens
            &&& body.messages == base.messages
            &&& body.tools == base.tools
            &&& body.temperature == base.temperature
            &&& body.top_p == base.top_p
            &&& body.stop == base.stop
            &&& body.stream == base.stream
            &&& body.include_usage == base.include_usage
            &&& body.seed == options.seed
            &&& body.frequency_penalty == options.frequency_penalty
            &&& body.presence_penalty == options.presence_penalty
            &&& options.logit_bias.dom() =~= Set::empty() ==> body.logit_bias is None
            &&& !(options.logit_bias.dom() =~= Set::empty()) ==> body.logit_bias == Some(options.logit_bias)
            &&& body.user == options.user
            &&& options.response_format is None ==> body.response_format is None
            &&& options.response_format is Some ==> body.response_format == Some(
                wire_format(options.response_format->0),
            )
            &&& options.tool_choice is None ==> body.tool_choice is None
            &&& options.tool_choice is Some ==> body.tool_choice == Some(wire_tool_choice(options.tool_choice->0))
        }),
{
    if options.logit_bias.dom() =~= Set::empty() {
        assert(options.logit_bias =~= Map::empty());
    }
}

} // verus!
