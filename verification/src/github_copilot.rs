//! The GitHub Copilot chat API.

use vstd::prelude::*;

use crate::completions::{
    after_chunk, base_request, chat_response_of, completion_messages, completion_to_chat_response, given,
    handle_chunk, message_to_completion, CallTable, ChunkState, CompletionChunk, CompletionMessage,
    CompletionRequest, CompletionResponse,
};
use crate::debug::{duration, duration_text, quote, quoted, record, record_text};
use crate::error::{AgentError, AgentResult, ErrorView};
use crate::http::{
    is_header_value, json_content_type, missing_variable, plain_header, required_variable, secret_header,
    valid_header_value, variable_or, Header, HeaderView,
};
use crate::secret::SecretString;
use crate::text::{cat2, decimal, decimal_of};
use crate::types::{ChatOptions, ChatResponse, ChatResponseUpdate, Message};

verus! {

/// Overall request timeout, in milliseconds.
pub const DEFAULT_REQUEST_TIMEOUT: u64 = 120000;

/// TCP connect timeout, in milliseconds.
pub const DEFAULT_CONNECT_TIMEOUT: u64 = 10000;

/// Maximum tokens to generate unless the options say otherwise.
pub const DEFAULT_MAX_TOKENS: u32 = 4096;

/// Configuration for the GitHub Copilot chat client.
pub struct GitHubCopilotConfig {
    /// GitHub token.
    pub github_token: SecretString,
    /// Model identifier.
    pub model: String,
    /// Value of the `Editor-Version` header.
    pub editor_version: String,
    /// Value of the `Copilot-Integration-Id` header.
    pub integration_id: String,
    /// Base URL for the API.
    pub base_url: String,
    /// Maximum tokens to generate.
    pub max_tokens: u32,
    /// Overall request timeout, in milliseconds.
    pub request_timeout: u64,
    /// TCP connect timeout, in milliseconds.
    pub connect_timeout: u64,
}

/// Whether everything but the token and the model is at its default.
pub open spec fn has_defaults(config: GitHubCopilotConfig) -> bool {
    &&& config.editor_version@ == "vscode/1.85.0"@
    &&& config.integration_id@ == "vscode-chat"@
    &&& config.base_url@ == "https://api.githubcopilot.com"@
    &&& config.max_tokens == DEFAULT_MAX_TOKENS == 4096
    &&& config.request_timeout == DEFAULT_REQUEST_TIMEOUT == 120000
    &&& config.connect_timeout == DEFAULT_CONNECT_TIMEOUT == 10000
}

impl GitHubCopilotConfig {
    /// A config with the given token and every default.
    pub fn new(github_token: &str) -> (config: Self)
        ensures
            config.github_token@ == github_token@,
            config.model@ == "gpt-4o"@,
            has_defaults(config),
    {
        GitHubCopilotConfig {
            github_token: SecretString::new(github_token),
            model: "gpt-4o".to_owned(),
            editor_version: "vscode/1.85.0".to_owned(),
            integration_id: "vscode-chat".to_owned(),
            base_url: "https://api.githubcopilot.com".to_owned(),
            max_tokens: DEFAULT_MAX_TOKENS,
            request_timeout: DEFAULT_REQUEST_TIMEOUT,
            connect_timeout: DEFAULT_CONNECT_TIMEOUT,
        }
    }

    /// Create a config from the values of the environment variables
    /// `GITHUB_TOKEN` (required) and `GITHUB_COPILOT_MODEL`.
    pub fn from_env(token: Option<String>, model: Option<String>) -> (result: AgentResult<Self>)
        ensures
            match result {
                Ok(config) => {
                    &&& token.deep_view() == Some(config.github_token@)
                    &&& config.model@ == match model.deep_view() {
                        Some(text) => text,
                        None => "gpt-4o"@,
                    }
                    &&& has_defaults(config)
                },
                Err(error) => token is None && error@ == missing_variable("GITHUB_TOKEN"@),
            },
    {
        let token = match required_variable("GITHUB_TOKEN", token) {
            Ok(value) => value,
            Err(error) => return Err(error),
        };
        let config = GitHubCopilotConfig::new(token.as_str());
        Ok(GitHubCopilotConfig { model: variable_or(model, "gpt-4o"), ..config })
    }

    /// The URL that requests are sent to.
    pub fn completions_url(&self) -> (url: String)
        ensures
            url@ == self.base_url@ + "/chat/completions"@,
    {
        cat2(self.base_url.as_str(), "/chat/completions")
    }

    /// What a log shows of the configuration: everything but the token.
    pub fn debug_text(&self) -> (text: String)
        ensures
            text@ == record(
                "GitHubCopilotConfig"@,
                seq![
                    ("github_token"@, "SecretString([REDACTED])"@),
                    ("model"@, quoted(self.model@)),
                    ("editor_version"@, quoted(self.editor_version@)),
                    ("integration_id"@, quoted(self.integration_id@)),
                    ("base_url"@, quoted(self.base_url@)),
                    ("max_tokens"@, decimal(self.max_tokens as nat)),
                    ("request_timeout"@, duration(self.request_timeout as nat)),
                    ("connect_timeout"@, duration(self.connect_timeout as nat)),
                ],
            ),
    {
        let mut fields: Vec<(&str, String)> = Vec::new();
        fields.push(("github_token", self.github_token.debug_text()));
        fields.push(("model", quote(self.model.as_str())));
        fields.push(("editor_version", quote(self.editor_version.as_str())));
        fields.push(("integration_id", quote(self.integration_id.as_str())));
        fields.push(("base_url", quote(self.base_url.as_str())));
        fields.push(("max_tokens", decimal_of(self.max_tokens as u64)));
        fields.push(("request_timeout", duration_text(self.request_timeout)));
        fields.push(("connect_timeout", duration_text(self.connect_timeout)));
        assert(fields.deep_view() =~= seq![
            ("github_token"@, "SecretString([REDACTED])"@),
            ("model"@, quoted(self.model@)),
            ("editor_version"@, quoted(self.editor_version@)),
            ("integration_id"@, quoted(self.integration_id@)),
            ("base_url"@, quoted(self.base_url@)),
            ("max_tokens"@, decimal(self.max_tokens as nat)),
            ("request_timeout"@, duration(self.request_timeout as nat)),
            ("connect_timeout"@, duration(self.connect_timeout as nat)),
        ]);
        record_text("GitHubCopilotConfig", &fields)
    }
}

/// The headers of every request.
pub open spec fn copilot_headers(token: Seq<char>, editor_version: Seq<char>, integration_id: Seq<char>) -> Seq<
    HeaderView,
> {
    seq![
        json_content_type(),
        HeaderView { name: "accept"@, value: "application/json"@, sensitive: false },
        HeaderView { name: "user-agent"@, value: "agent-framework-github-copilot/0.1"@, sensitive: false },
        HeaderView { name: "authorization"@, value: "Bearer "@ + token, sensitive: true },
        HeaderView { name: "editor-version"@, value: editor_version, sensitive: false },
        HeaderView { name: "copilot-integration-id"@, value: integration_id, sensitive: false },
    ]
}

/// A client for the GitHub Copilot chat API: what it sends and how it reads what
/// comes back.
pub struct GitHubCopilotChatClient {
    pub config: GitHubCopilotConfig,
}

impl GitHubCopilotChatClient {
    /// A client with the given configuration.
    pub fn new(config: GitHubCopilotConfig) -> (client: Self)
        ensures
            client.config == config,
    {
        GitHubCopilotChatClient { config }
    }

    /// Build the HTTP headers of every request. Only the token is marked sensitive.
    pub fn build_headers(&self) -> (result: AgentResult<Vec<Header>>)
        ensures
            match result {
                Ok(headers) => {
                    &&& is_header_value("Bearer "@ + self.config.github_token@)
                    &&& is_header_value(self.config.editor_version@)
                    &&& is_header_value(self.config.integration_id@)
                    &&& headers.deep_view() == copilot_headers(
                        self.config.github_token@,
                        self.config.editor_version@,
                        self.config.integration_id@,
                    )
                },
                Err(error) => if !is_header_value("Bearer "@ + self.config.github_token@) {
                    error@ == ErrorView::InvalidRequest("GITHUB_TOKEN contains invalid characters"@)
                } else if !is_header_value(self.config.editor_version@) {
                    error@ == ErrorView::InvalidRequest("editor_version contains invalid header characters"@)
                } else {
                    &&& !is_header_value(self.config.integration_id@)
                    &&& error@ == ErrorView::InvalidRequest("integration_id contains invalid header characters"@)
                },
            },
    {
        let bearer = cat2("Bearer ", self.config.github_token.expose());
        if !valid_header_value(bearer.as_str()) {
            return Err(AgentError::invalid_request("GITHUB_TOKEN contains invalid characters"));
        }
        if !valid_header_value(self.config.editor_version.as_str()) {
            return Err(AgentError::invalid_request("editor_version contains invalid header characters"));
        }
        if !valid_header_value(self.config.integration_id.as_str()) {
            return Err(AgentError::invalid_request("integration_id contains invalid header characters"));
        }
        let mut headers: Vec<Header> = Vec::new();
        headers.push(plain_header("content-type", "application/json"));
        headers.push(plain_header("accept", "application/json"));
        headers.push(plain_header("user-agent", "agent-framework-github-copilot/0.1"));
        headers.push(secret_header("authorization", bearer.as_str()));
        headers.push(plain_header("editor-version", self.config.editor_version.as_str()));
        headers.push(plain_header("copilot-integration-id", self.config.integration_id.as_str()));
        assert(headers.deep_view() =~= copilot_headers(
            self.config.github_token@,
            self.config.editor_version@,
            self.config.integration_id@,
        ));
        Ok(headers)
    }

    /// Build the request body.
    pub fn build_request_body(&self, messages: &Vec<Message>, options: Option<&ChatOptions>) -> (body: CompletionRequest)
        ensures
            body@ == base_request(
                self.config.model@,
                self.config.max_tokens,
                messages.deep_view(),
                given(options),
                false,
            ),
    {
        let model = self.config.model.as_str();
        match options {
            Some(o) => CompletionRequest::base(model, self.config.max_tokens, messages, o, false),
            None => CompletionRequest::base(
                model,
                self.config.max_tokens,
                messages,
                &ChatOptions::default(),
                false,
            ),
        }
    }
}

/// The messages on the wire that a message becomes.
pub fn message_to_copilot(message: &Message) -> (out: Vec<CompletionMessage>)
    ensures
        out.deep_view() == completion_messages(message@, false),
{
    message_to_completion(message, false)
}

/// The chat response that a response on the wire stands for.
pub fn copilot_response_to_chat_response(response: &CompletionResponse) -> (out: ChatResponse)
    ensures
        out@ == chat_response_of(response@, false),
{
    completion_to_chat_response(response, false)
}

/// The updates that a chunk gives.
pub fn handle_copilot_chunk(chunk: &CompletionChunk, calls: &mut CallTable) -> (updates: Vec<ChatResponseUpdate>)
    ensures
        (ChunkState { calls: final(calls)@, updates: updates.deep_view() }) == after_chunk(
            old(calls)@,
            chunk.choices.deep_view(),
            chunk.usage,
        ),
{
    handle_chunk(chunk, calls)
}

/// The headers carry the token as a bearer, which alone is not to be shown, the editor
/// and the integration; each stands under its name once.
pub proof fn law_headers_carry_the_token(token: Seq<char>, editor_version: Seq<char>, integration_id: Seq<char>)
    ensures
        ({
            let headers = copilot_headers(token, editor_version, integration_id);
            &&& headers.len() == 6
            &&& headers[0].name == "content-type"@ && headers[0].value == "application/json"@
            &&& headers[1].name == "accept"@ && headers[1].value == "application/json"@
            &&& headers[2].name == "user-agent"@ && headers[2].value == "agent-framework-github-copilot/0.1"@
            &&& headers[3].name == "authorization"@ && headers[3].value == "Bearer "@ + token
            &&& headers[4].name == "editor-version"@ && headers[4].value == editor_version
            &&& headers[5].name == "copilot-integration-id"@ && headers[5].value == integration_id
            &&& forall|i: int| 0 <= i < 6 ==> (#[trigger] headers[i]).sensitive == (i == 3)
        }),
{
}

/// The defaults name an editor, an integration and the public service.
pub proof fn law_defaults(config: GitHubCopilotConfig)
    requires
        has_defaults(config),
    ensures
        config.editor_version@ == "vscode/1.85.0"@,
        config.integration_id@ == "vscode-chat"@,
        config.base_url@ == "https://api.githubcopilot.com"@,
        config.max_tokens == 4096,
        config.request_timeout == 120000,
        config.connect_timeout == 10000,
{
}

} // verus!
