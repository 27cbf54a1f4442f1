//! The chat completions API of Azure OpenAI: the wire format of OpenAI with URLs
//! and credentials of its own.

use vstd::prelude::*;

use crate::completions::{given, CompletionRequest};
use crate::debug::{duration, duration_text, quote, quoted, record, record_text};
use crate::error::{AgentResult, ErrorView};
use crate::http::{
    credential_headers, is_header_value, json_content_type, missing_variable, required_variable, variable_or, Header,
    HeaderView,
};
use crate::openai::{openai_request, request_with, DEFAULT_MAX_TOKENS};
use crate::secret::SecretString;
use crate::text::{cat2, cat5, trim_end, trim_end_of};
use crate::types::{ChatOptions, Message};

verus! {

/// Overall request timeout, in milliseconds.
pub const DEFAULT_REQUEST_TIMEOUT: u64 = 120000;

/// TCP connect timeout, in milliseconds.
pub const DEFAULT_CONNECT_TIMEOUT: u64 = 10000;

/// Authentication mode for Azure OpenAI.
pub enum AzureAuth {
    /// API key, sent in the `api-key` header.
    ApiKey(SecretString),
    /// Azure AD bearer token, sent in the `Authorization` header.
    BearerToken(SecretString),
}

/// What a log shows of credentials: which mode they are for.
pub open spec fn auth_shown(auth: AzureAuth) -> Seq<char> {
    match auth {
        AzureAuth::ApiKey(_) => "AzureAuth::ApiKey([REDACTED])"@,
        AzureAuth::BearerToken(_) => "AzureAuth::BearerToken([REDACTED])"@,
    }
}

/// The header that carries credentials, and the complaint if it cannot be one.
pub open spec fn auth_header(auth: AzureAuth) -> (HeaderView, Seq<char>) {
    match auth {
        AzureAuth::ApiKey(key) => (
            HeaderView { name: "api-key"@, value: key@, sensitive: true },
            "API key contains invalid characters"@,
        ),
        AzureAuth::BearerToken(token) => (
            HeaderView { name: "authorization"@, value: "Bearer "@ + token@, sensitive: true },
            "Bearer token contains invalid characters"@,
        ),
    }
}

impl AzureAuth {
    /// What a log shows of the credentials.
    pub fn debug_text(&self) -> (text: String)
        ensures
            text@ == auth_shown(*self),
    {
        match self {
            AzureAuth::ApiKey(_) => "AzureAuth::ApiKey([REDACTED])".to_owned(),
            AzureAuth::BearerToken(_) => "AzureAuth::BearerToken([REDACTED])".to_owned(),
        }
    }
}

/// Configuration for the Azure OpenAI chat client.
pub struct AzureOpenAIConfig {
    /// Resource endpoint.
    pub endpoint: String,
    /// Name of the model deployment.
    pub deployment: String,
    /// Credentials.
    pub auth: AzureAuth,
    /// API version.
    pub api_version: String,
    /// Overall request timeout, in milliseconds.
    pub request_timeout: u64,
    /// TCP connect timeout, in milliseconds.
    pub connect_timeout: u64,
}

/// The URL of a deployment's completions.
pub open spec fn deployment_url(endpoint: Seq<char>, deployment: Seq<char>, api_version: Seq<char>) -> Seq<char> {
    trim_end(endpoint, '/') + "/openai/deployments/"@ + deployment + "/chat/completions?api-version="@ + api_version
}

/// The URL of a deployment's completions.
pub fn deployment_url_of(endpoint: &str, deployment: &str, api_version: &str) -> (url: String)
    ensures
        url@ == deployment_url(endpoint@, deployment@, api_version@),
{
    let base = trim_end_of(endpoint, '/');
    cat5(base.as_str(), "/openai/deployments/", deployment, "/chat/completions?api-version=", api_version)
}

impl AzureOpenAIConfig {
    /// Create a config from the values of the environment variables
    /// `AZURE_OPENAI_ENDPOINT`, `AZURE_OPENAI_DEPLOYMENT`, `AZURE_OPENAI_API_KEY`
    /// (all required) and `AZURE_OPENAI_API_VERSION`.
    pub fn from_env(
        endpoint: Option<String>,
        deployment: Option<String>,
        api_key: Option<String>,
        api_version: Option<String>,
    ) -> (result: AgentResult<Self>)
        ensures
            match result {
                Ok(config) => {
                    &&& endpoint.deep_view() == Some(config.endpoint@)
                    &&& deployment.deep_view() == Some(config.deployment@)
                    &&& config.auth is ApiKey
                    &&& api_key.deep_view() == Some(config.auth->ApiKey_0@)
                    &&& config.api_version@ == match api_version.deep_view() {
                        Some(text) => text,
                        None => "2024-10-21"@,
                    }
                    &&& config.request_timeout == DEFAULT_REQUEST_TIMEOUT == 120000
                    &&& config.connect_timeout == DEFAULT_CONNECT_TIMEOUT == 10000
                },
                Err(error) => if endpoint is None {
                    error@ == missing_variable("AZURE_OPENAI_ENDPOINT"@)
                } else if deployment is None {
                    error@ == missing_variable("AZURE_OPENAI_DEPLOYMENT"@)
                } else {
                    api_key is None && error@ == missing_variable("AZURE_OPENAI_API_KEY"@)
                },
            },
    {
        let endpoint = match required_variable("AZURE_OPENAI_ENDPOINT", endpoint) {
            Ok(value) => value,
            Err(error) => return Err(error),
        };
        let deployment = match required_variable("AZURE_OPENAI_DEPLOYMENT", deployment) {
            Ok(value) => value,
            Err(error) => return Err(error),
        };
        let api_key = match required_variable("AZURE_OPENAI_API_KEY", api_key) {
            Ok(value) => value,
            Err(error) => return Err(error),
        };
        Ok(
            AzureOpenAIConfig {
                endpoint,
                deployment,
                auth: AzureAuth::ApiKey(SecretString::new(api_key.as_str())),
                api_version: variable_or(api_version, "2024-10-21"),
                request_timeout: DEFAULT_REQUEST_TIMEOUT,
                connect_timeout: DEFAULT_CONNECT_TIMEOUT,
            },
        )
    }

    /// The URL that requests are sent to.
    pub fn completions_url(&self) -> (url: String)
        ensures
            url@ == deployment_url(self.endpoint@, self.deployment@, self.api_version@),
    {
        deployment_url_of(self.endpoint.as_str(), self.deployment.as_str(), self.api_version.as_str())
    }

    /// What a log shows of the configuration: everything but the credentials.
    pub fn debug_text(&self) -> (text: String)
        ensures
            text@ == record(
                "AzureOpenAIConfig"@,
                seq![
                    ("endpoint"@, quoted(self.endpoint@)),
                    ("deployment"@, quoted(self.deployment@)),
                    ("auth"@, auth_shown(self.auth)),
                    ("api_version"@, quoted(self.api_version@)),
                    ("request_timeout"@, duration(self.request_timeout as nat)),
                    ("connect_timeout"@, duration(self.connect_timeout as nat)),
                ],
            ),
    {
        let mut fields: Vec<(&str, String)> = Vec::new();
        fields.push(("endpoint", quote(self.endpoint.as_str())));
        fields.push(("deployment", quote(self.deployment.as_str())));
        fields.push(("auth", self.auth.debug_text()));
        fields.push(("api_version", quote(self.api_version.as_str())));
        fields.push(("request_timeout", duration_text(self.request_timeout)));
        fields.push(("connect_timeout", duration_text(self.connect_timeout)));
        assert(fields.deep_view() =~= seq![
            ("endpoint"@, quoted(self.endpoint@)),
            ("deployment"@, quoted(self.deployment@)),
            ("auth"@, auth_shown(self.auth)),
            ("api_version"@, quoted(self.api_version@)),
            ("request_timeout"@, duration(self.request_timeout as nat)),
            ("connect_timeout"@, duration(self.connect_timeout as nat)),
        ]);
        record_text("AzureOpenAIConfig", &fields)
    }
}

/// A client for Azure OpenAI: what it sends. What comes back is read as for OpenAI.
pub struct AzureOpenAIChatClient {
    pub config: AzureOpenAIConfig,
}

impl AzureOpenAIChatClient {
    /// A client with the given configuration.
    pub fn new(config: AzureOpenAIConfig) -> (client: Self)
        ensures
            client.config == config,
    {
        AzureOpenAIChatClient { config }
    }

    /// Build the HTTP headers of every request: an API key goes into the
    /// `api-key` header, a token into the `authorization` header.
    pub fn build_headers(&self) -> (result: AgentResult<Vec<Header>>)
        ensures
            match result {
                Ok(headers) => {
                    &&& is_header_value(auth_header(self.config.auth).0.value)
                    &&& headers.deep_view() == seq![json_content_type(), auth_header(self.config.auth).0]
                },
                Err(error) => {
                    &&& !is_header_value(auth_header(self.config.auth).0.value)
                    &&& error@ == ErrorView::InvalidRequest(auth_header(self.config.auth).1)
                },
            },
    {
        match &self.config.auth {
            AzureAuth::ApiKey(key) => credential_headers(
                "api-key",
                key.expose(),
                "API key contains invalid characters",
            ),
            AzureAuth::BearerToken(token) => credential_headers(
                "authorization",
                cat2("Bearer ", token.expose()).as_str(),
                "Bearer token contains invalid characters",
            ),
        }
    }

    /// Build the request body: that of OpenAI, with the deployment as the model.
    pub fn build_request_body(&self, messages: &Vec<Message>, options: Option<&ChatOptions>) -> (body: CompletionRequest)
        ensures
            body@ == openai_request(
                self.config.deployment@,
                DEFAULT_MAX_TOKENS,
                messages.deep_view(),
                given(options),
            ),
    {
        let model = self.config.deployment.as_str();
        match options {
            Some(o) => request_with(model, DEFAULT_MAX_TOKENS, messages, o),
            None => request_with(model, DEFAULT_MAX_TOKENS, messages, &ChatOptions::default()),
        }
    }
}

/// A key goes into the `api-key` header as it is and a token into the `authorization`
/// header as a bearer, both marked as not to be shown; and a log tells which it is and
/// nothing more.
pub proof fn law_credentials_are_sent(key: SecretString, token: SecretString)
    ensures
        auth_header(AzureAuth::ApiKey(key)).0.name == "api-key"@,
        auth_header(AzureAuth::ApiKey(key)).0.value == key@,
        auth_header(AzureAuth::ApiKey(key)).0.sensitive,
        auth_header(AzureAuth::ApiKey(key)).1 == "API key contains invalid characters"@,
        auth_header(AzureAuth::BearerToken(token)).0.name == "authorization"@,
        auth_header(AzureAuth::BearerToken(token)).0.value == "Bearer "@ + token@,
        auth_header(AzureAuth::BearerToken(token)).0.sensitive,
        auth_header(AzureAuth::BearerToken(token)).1 == "Bearer token contains invalid characters"@,
        auth_shown(AzureAuth::ApiKey(key)) == "AzureAuth::ApiKey([REDACTED])"@,
        auth_shown(AzureAuth::BearerToken(token)) == "AzureAuth::BearerToken([REDACTED])"@,
{
}

/// The URL names the deployment and the version below the endpoint, whether or not the
/// endpoint ends in a slash.
pub proof fn law_deployment_url(endpoint: Seq<char>, deployment: Seq<char>, api_version: Seq<char>)
    ensures
        endpoint.len() == 0 || endpoint.last() != '/' ==> deployment_url(endpoint, deployment, api_version) == endpoint
            + "/openai/deployments/"@ + deployment + "/chat/completions?api-version="@ + api_version,
        deployment_url(endpoint.push('/'), deployment, api_version) == deployment_url(
            endpoint,
            deployment,
            api_version,
        ),
{
    assert(endpoint.push('/').drop_last() =~= endpoint);
}

} // verus!
