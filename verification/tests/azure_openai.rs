use agent_framework::azure_openai::{
    AzureAuth, AzureOpenAIChatClient, AzureOpenAIConfig, DEFAULT_CONNECT_TIMEOUT, DEFAULT_REQUEST_TIMEOUT,
};
use agent_framework::secret::SecretString;
use agent_framework::types::Message;

fn config(endpoint: &str, deployment: &str, auth: AzureAuth) -> AzureOpenAIConfig {
    AzureOpenAIConfig {
        endpoint: endpoint.to_string(),
        deployment: deployment.to_string(),
        auth,
        api_version: "2024-10-21".to_string(),
        request_timeout: DEFAULT_REQUEST_TIMEOUT,
        connect_timeout: DEFAULT_CONNECT_TIMEOUT,
    }
}

#[test]
fn completions_url_format() {
    let config = config(
        "https://myresource.openai.azure.com",
        "gpt-4o",
        AzureAuth::ApiKey(SecretString::new("test-key")),
    );
    assert_eq!(
        config.completions_url(),
        "https://myresource.openai.azure.com/openai/deployments/gpt-4o/chat/completions?api-version=2024-10-21"
    );
}

#[test]
fn completions_url_strips_trailing_slash() {
    let config = config(
        "https://myresource.openai.azure.com/",
        "my-deploy",
        AzureAuth::ApiKey(SecretString::new("k")),
    );
    assert!(config.completions_url().contains("/openai/deployments/my-deploy/"));
    assert!(!config.completions_url().contains("com//openai"));
}

#[test]
fn auth_debug_is_redacted() {
    let auth = AzureAuth::ApiKey(SecretString::new("secret"));
    assert_eq!(auth.debug_text(), "AzureAuth::ApiKey([REDACTED])");
}

#[test]
fn credentials_choose_their_header() {
    let key = AzureOpenAIChatClient::new(config("https://e", "d", AzureAuth::ApiKey(SecretString::new("k"))));
    let headers = key.build_headers().unwrap();
    assert_eq!(headers[1].name, "api-key");
    assert_eq!(headers[1].value, "k");
    assert!(headers[1].sensitive);

    let token = AzureOpenAIChatClient::new(config("https://e", "d", AzureAuth::BearerToken(SecretString::new("t"))));
    let headers = token.build_headers().unwrap();
    assert_eq!(headers[1].name, "authorization");
    assert_eq!(headers[1].value, "Bearer t");
    assert!(headers[1].sensitive);
}

#[test]
fn credentials_with_control_characters_are_refused() {
    let key = AzureOpenAIChatClient::new(config("https://e", "d", AzureAuth::ApiKey(SecretString::new("a\nb"))));
    assert_eq!(
        key.build_headers().unwrap_err().to_text(),
        "Invalid request: API key contains invalid characters"
    );
    let token = AzureOpenAIChatClient::new(config("https://e", "d", AzureAuth::BearerToken(SecretString::new("\r"))));
    assert_eq!(
        token.build_headers().unwrap_err().to_text(),
        "Invalid request: Bearer token contains invalid characters"
    );
}

#[test]
fn the_deployment_is_the_model() {
    let client = AzureOpenAIChatClient::new(config("https://e", "dep", AzureAuth::ApiKey(SecretString::new("k"))));
    let body = client.build_request_body(&vec![Message::user("hi")], None);
    assert_eq!(body.model, "dep");
    assert_eq!(body.max_tokens, Some(4096));
}

#[test]
fn azure_variables_are_required_in_order() {
    let some = |s: &str| Some(s.to_string());
    let config = AzureOpenAIConfig::from_env(some("e"), some("d"), some("k"), None).ok().unwrap();
    assert_eq!(config.api_version, "2024-10-21");
    let text = |c: Result<AzureOpenAIConfig, agent_framework::error::AgentError>| c.err().unwrap().to_text();
    assert!(text(AzureOpenAIConfig::from_env(None, None, None, None)).contains("AZURE_OPENAI_ENDPOINT"));
    assert!(text(AzureOpenAIConfig::from_env(some("e"), None, None, None)).contains("AZURE_OPENAI_DEPLOYMENT"));
    assert!(text(AzureOpenAIConfig::from_env(some("e"), some("d"), None, None)).contains("AZURE_OPENAI_API_KEY"));
}

#[test]
fn azure_config_text_hides_the_key() {
    let shown = config("https://e", "d\"x", AzureAuth::ApiKey(SecretString::new("topsecret"))).debug_text();
    assert_eq!(
        shown,
        "AzureOpenAIConfig { endpoint: \"https://e\", deployment: \"d\\\"x\", auth: AzureAuth::ApiKey([REDACTED]), \
         api_version: \"2024-10-21\", request_timeout: 120s, connect_timeout: 10s }"
    );
}
