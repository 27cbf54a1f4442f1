//! The chat completions API of Azure AI Foundry.

use vstd::prelude::*;

use crate::agent::{ChatClientAgent, ChatClientAgentBuilder, DEFAULT_MAX_TOOL_ROUNDS};
use crate::azure_openai::{deployment_url, deployment_url_of};
use crate::completions::{
    base_request, chat_response_of, completion_messages, completion_to_chat_response, given, message_to_completion,
    CompletionMessage, CompletionRequest, CompletionRequestView, CompletionResponse,
};
use crate::debug::{duration, duration_text, quote, quoted, record, record_text};
use crate::error::{AgentError, AgentResult, ErrorView};
use crate::ids::is_uuid;
use crate::http::{
    credential_headers, is_header_value, json_content_type, missing_variable, plain_header, required_variable,
    valid_header_value, Header, HeaderView,
};
use crate::secret::SecretString;
use crate::text::{decimal, decimal_of};
use crate::tools::ToolDefinitionView;
use crate::types::{clone_opt_string, no_options, ChatOptions, ChatOptionsView, ChatResponse, Message, MessageView};

verus! {

/// Overall request timeout, in milliseconds.
pub const DEFAULT_REQUEST_TIMEOUT: u64 = 120000;

/// TCP connect timeout, in milliseconds.
pub const DEFAULT_CONNECT_TIMEOUT: u64 = 10000;

/// Maximum tokens to generate unless the options say otherwise.
pub const DEFAULT_MAX_TOKENS: u32 = 4096;

/// Configuration for an Azure AI Foundry chat client.
pub struct FoundryConfig {
    /// Foundry resource endpoint.
    pub endpoint: String,
    /// API key, sent in the `api-key` header.
    pub api_key: SecretString,
    /// Foundry project name.
    pub project_name: String,
    /// Deployed model name.
    pub model: String,
    /// API version to use.
    pub api_version: String,
    /// Default maximum tokens to request per completion.
    pub max_tokens: u32,
    /// Overall request timeout, in milliseconds.
    pub request_timeout: u64,
    /// TCP connect timeout, in milliseconds.
    pub connect_timeout: u64,
}

impl FoundryConfig {
    /// Build a config from the values of the environment variables
    /// `FOUNDRY_ENDPOINT`, `FOUNDRY_API_KEY`, `FOUNDRY_PROJECT` and `FOUNDRY_MODEL`,
    /// all of which are required.
    pub fn from_env(
        endpoint: Option<String>,
        api_key: Option<String>,
        project_name: Option<String>,
        model: Option<String>,
    ) -> (result: AgentResult<Self>)
        ensures
            match result {
                Ok(config) => {
                    &&& endpoint.deep_view() == Some(config.endpoint@)
                    &&& api_key.deep_view() == Some(config.api_key@)
                    &&& project_name.deep_view() == Some(config.project_name@)
                    &&& model.deep_view() == Some(config.model@)
                    &&& config.api_version@ == "2024-10-01-preview"@
                    &&& config.max_tokens == DEFAULT_MAX_TOKENS == 4096
                    &&& config.request_timeout == DEFAULT_REQUEST_TIMEOUT == 120000
                    &&& config.connect_timeout == DEFAULT_CONNECT_TIMEOUT == 10000
                },
                Err(error) => if endpoint is None {
                    error@ == missing_variable("FOUNDRY_ENDPOINT"@)
                } else if api_key is None {
                    error@ == missing_variable("FOUNDRY_API_KEY"@)
                } else if project_name is None {
                    error@ == missing_variable("FOUNDRY_PROJECT"@)
                } else {
                    model is None && error@ == missing_variable("FOUNDRY_MODEL"@)
                },
            },
    {
        let endpoint = match required_variable("FOUNDRY_ENDPOINT", endpoint) {
            Ok(value) => value,
            Err(error) => return Err(error),
        };
        let api_key = match required_variable("FOUNDRY_API_KEY", api_key) {
            Ok(value) => value,
            Err(error) => return Err(error),
        };
        let project_name = match required_variable("FOUNDRY_PROJECT", project_name) {
            Ok(value) => value,
            Err(error) => return Err(error),
        };
        let model = match required_variable("FOUNDRY_MODEL", model) {
            Ok(value) => value,
            Err(error) => return Err(error),
        };
        Ok(
            FoundryConfig {
                endpoint,
                api_key: SecretString::new(api_key.as_str()),
                project_name,
                model,
                api_version: "2024-10-01-preview".to_owned(),
                max_tokens: DEFAULT_MAX_TOKENS,
                request_timeout: DEFAULT_REQUEST_TIMEOUT,
                connect_timeout: DEFAULT_CONNECT_TIMEOUT,
            },
        )
    }

    /// The URL that requests are sent to.
    pub fn completions_url(&self) -> (url: String)
        ensures
            url@ == deployment_url(self.endpoint@, self.model@, self.api_version@),
    {
        deployment_url_of(self.endpoint.as_str(), self.model.as_str(), self.api_version.as_str())
    }

    /// What a log shows of the configuration: everything but the key.
    pub fn debug_text(&self) -> (text: String)
        ensures
            text@ == record(
                "FoundryConfig"@,
                seq![
                    ("endpoint"@, quoted(self.endpoint@)),
                    ("api_key"@, "SecretString([REDACTED])"@),
                    ("project_name"@, quoted(self.project_name@)),
                    ("model"@, quoted(self.model@)),
                    ("api_version"@, quoted(self.api_version@)),
                    ("max_tokens"@, decimal(self.max_tokens as nat)),
                    ("request_timeout"@, duration(self.request_timeout as nat)),
                    ("connect_timeout"@, duration(self.connect_timeout as nat)),
                ],
            ),
    {
        let mut fields: Vec<(&str, String)> = Vec::new();
        fields.push(("endpoint", quote(self.endpoint.as_str())));
        fields.push(("api_key", self.api_key.debug_text()));
        fields.push(("project_name", quote(self.project_name.as_str())));
        fields.push(("model", quote(self.model.as_str())));
        fields.push(("api_version", quote(self.api_version.as_str())));
        fields.push(("max_tokens", decimal_of(self.max_tokens as u64)));
        fields.push(("request_timeout", duration_text(self.request_timeout)));
        fields.push(("connect_timeout", duration_text(self.connect_timeout)));
        assert(fields.deep_view() =~= seq![
            ("endpoint"@, quoted(self.endpoint@)),
            ("api_key"@, "SecretString([REDACTED])"@),
            ("project_name"@, quoted(self.project_name@)),
            ("model"@, quoted(self.model@)),
            ("api_version"@, quoted(self.api_version@)),
            ("max_tokens"@, decimal(self.max_tokens as nat)),
            ("request_timeout"@, duration(self.request_timeout as nat)),
            ("connect_timeout"@, duration(self.connect_timeout as nat)),
        ]);
        record_text("FoundryConfig", &fields)
    }
}

/// The headers of a request: the key, and the project if it can be a header value.
pub open spec fn foundry_headers(api_key: Seq<char>, project_name: Seq<char>) -> Seq<HeaderView> {
    let base = seq![json_content_type(), HeaderView { name: "api-key"@, value: api_key, sensitive: true }];
    if is_header_value(project_name) {
        base.push(HeaderView { name: "x-ms-foundry-project"@, value: project_name, sensitive: false })
    } else {
        base
    }
}

/// The body of a request: what every request has, and the options that this API
/// knows beyond that.
pub open spec fn foundry_request(
    model: Seq<char>,
    max_tokens: u32,
    messages: Seq<MessageView>,
    options: ChatOptionsView,
) -> CompletionRequestView {
    CompletionRequestView {
        seed: options.seed,
        frequency_penalty: options.frequency_penalty,
        presence_penalty: options.presence_penalty,
        user: options.user,
        ..base_request(model, max_tokens, messages, options, false)
    }
}

/// A client for Azure AI Foundry: what it sends and how it reads what comes back.
pub struct FoundryChatClient {
    pub config: FoundryConfig,
}

impl FoundryChatClient {
    /// A client with the given configuration.
    pub fn new(config: FoundryConfig) -> (client: Self)
        ensures
            client.config == config,
    {
        FoundryChatClient { config }
    }

    /// Build the HTTP headers of every request.
    pub fn build_headers(&self) -> (result: AgentResult<Vec<Header>>)
        ensures
            match result {
                Ok(headers) => {
                    &&& is_header_value(self.config.api_key@)
                    &&& headers.deep_view() == foundry_headers(self.config.api_key@, self.config.project_name@)
                },
                Err(error) => {
                    &&& !is_header_value(self.config.api_key@)
                    &&& error@ == ErrorView::InvalidRequest("FOUNDRY_API_KEY contains invalid characters"@)
                },
            },
    {
        let result = credential_headers(
            "api-key",
            self.config.api_key.expose(),
            "FOUNDRY_API_KEY contains invalid characters",
        );
        match result {
            Ok(headers) => {
                let mut headers = headers;
                let ghost base = headers.deep_view();
                if valid_header_value(self.config.project_name.as_str()) {
                    headers.push(plain_header("x-ms-foundry-project", self.config.project_name.as_str()));
                    assert(headers.deep_view() =~= base.push(
                        HeaderView {
                            name: "x-ms-foundry-project"@,
                            value: self.config.project_name@,
                            sensitive: false,
                        },
                    ));
                }
                Ok(headers)
            },
            Err(error) => Err(error),
        }
    }

    /// Build the request body.
    pub fn build_request_body(&self, messages: &Vec<Message>, options: Option<&ChatOptions>) -> (body: CompletionRequest)
        ensures
            body@ == foundry_request(
                self.config.model@,
                self.config.max_tokens,
                messages.deep_view(),
                given(options),
            ),
    {
        let model = self.config.model.as_str();
        match options {
            Some(o) => request_with(model, self.config.max_tokens, messages, o),
            None => request_with(model, self.config.max_tokens, messages, &ChatOptions::default()),
        }
    }

    /// What asking for a stream is answered.
    pub fn stream_error() -> (error: AgentError)
        ensures
            error@ == ErrorView::Unimplemented("streaming is not yet implemented for the Foundry provider"@),
    {
        AgentError::Unimplemented("streaming is not yet implemented for the Foundry provider".to_owned())
    }
}

/// Agents that talk to a Foundry client.
pub struct FoundryAgent;

impl FoundryAgent {
    /// A client for the configuration, and an agent with every default.
    pub fn create(config: FoundryConfig) -> (created: (FoundryChatClient, ChatClientAgent))
        ensures
            created.0.config == config,
            is_uuid(created.1.id@),
            created.1.name is None,
            created.1.description is None,
            created.1.instructions is None,
            created.1.tools@.len() == 0,
            created.1.options@ == no_options(),
            created.1.max_tool_rounds == DEFAULT_MAX_TOOL_ROUNDS,
    {
        let (client, builder) = Self::builder(config);
        let ghost tools = builder.tools.deep_view();
        assert(tools.len() == builder.tools@.len());
        match builder.build() {
            Ok(agent) => (client, agent),
            Err(_) => {
                assert(false);
                vstd::pervasive::unreached()
            },
        }
    }

    /// A client for the configuration, and a builder that has been given it.
    pub fn builder(config: FoundryConfig) -> (created: (FoundryChatClient, ChatClientAgentBuilder))
        ensures
            created.0.config == config,
            created.1.has_client,
            created.1.name is None,
            created.1.description is None,
            created.1.instructions is None,
            created.1.tools.deep_view() == Seq::<ToolDefinitionView>::empty(),
            created.1.options@ == no_options(),
            created.1.max_tool_rounds is None,
    {
        (FoundryChatClient::new(config), ChatClientAgent::builder().client())
    }
}

fn request_with(model: &str, max_tokens: u32, messages: &Vec<Message>, options: &ChatOptions) -> (body: CompletionRequest)
    ensures
        body@ == foundry_request(model@, max_tokens, messages.deep_view(), options@),
{
    let base = CompletionRequest::base(model, max_tokens, messages, options, false);
    let body = CompletionRequest {
        seed: options.seed,
        frequency_penalty: options.frequency_penalty,
        presence_penalty: options.presence_penalty,
        user: clone_opt_string(&options.user),
        ..base
    };
    assert(body@ =~= foundry_request(model@, max_tokens, messages.deep_view(), options@));
    body
}

/// The messages on the wire that a message becomes.
pub fn message_to_openai(message: &Message) -> (out: Vec<CompletionMessage>)
    ensures
        out.deep_view() == completion_messages(message@, false),
{
    message_to_completion(message, false)
}

/// The chat response that a response on the wire stands for.
pub fn openai_response_to_chat_response(response: &CompletionResponse) -> (out: ChatResponse)
    ensures
        out@ == chat_response_of(response@, true),
{
    completion_to_chat_response(response, true)
}

/// Beyond what every request has, a request sends the seed, the penalties and the user,
/// each as it is set; images are not sent.
pub proof fn law_request_sends_its_options(
    model: Seq<char>,
    max_tokens: u32,
    messages: Seq<MessageView>,
    options: ChatOptionsView,
)
    ensures
        ({
            let base = base_request(model, max_tokens, messages, options, false);
            let body = foundry_request(model, max_tokens, messages, options);
            &&& body.seed == options.seed
            &&& body.frequency_penalty == options.frequency_penalty
            &&& body.presence_penalty == options.presence_penalty
            &&& body.user == options.user
            &&& body.model == base.model
            &&& body.max_tokens == base.max_tokens
            &&& body.messages == base.messages
            &&& body.tools == base.tools
            &&& body.temperature == base.temperature
            &&& body.top_p == base.top_p
            &&& body.stop == base.stop
            &&& body.logit_bias is None && body.response_format is None && body.tool_choice is None
            &&& body.stream is None && body.include_usage is None
        }),
{
}

/// The key goes into its header, which is not to be shown, and the project into another
/// if it can stand in one.
pub proof fn law_headers_carry_the_key(api_key: Seq<char>, project_name: Seq<char>)
    ensures
        ({
            let headers = foundry_headers(api_key, project_name);
            &&& headers.len() == if is_header_value(project_name) { 3int } else { 2int }
            &&& headers[0].name == "content-type"@ && headers[0].value == "application/json"@
            &&& headers[1].name == "api-key"@ && headers[1].value == api_key && headers[1].sensitive
            &&& is_header_value(project_name) ==> headers[2].name == "x-ms-foundry-project"@ && headers[2].value
                == project_name && !headers[2].sensitive
        }),
{
}

} // verus!
