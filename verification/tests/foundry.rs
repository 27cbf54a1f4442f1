use agent_framework::completions::{CompletionChoice, CompletionResponse, CompletionUsage};
use agent_framework::foundry::{
    openai_response_to_chat_response, FoundryAgent, FoundryChatClient, FoundryConfig, DEFAULT_CONNECT_TIMEOUT,
    DEFAULT_MAX_TOKENS, DEFAULT_REQUEST_TIMEOUT,
};
use agent_framework::secret::SecretString;
use agent_framework::types::{FinishReason, Message};

fn test_config() -> FoundryConfig {
    FoundryConfig {
        endpoint: "https://example.services.ai.azure.com".to_string(),
        api_key: SecretString::new("test-key"),
        project_name: "my-project".to_string(),
        model: "gpt-4o".to_string(),
        api_version: "2024-10-01-preview".to_string(),
        max_tokens: DEFAULT_MAX_TOKENS,
        request_timeout: DEFAULT_REQUEST_TIMEOUT,
        connect_timeout: DEFAULT_CONNECT_TIMEOUT,
    }
}

#[test]
fn lib_from_env_reads_all_required_variables() {
    let cfg = FoundryConfig::from_env(
        Some("https://foo.services.ai.azure.com".to_string()),
        Some("sk-foundry-test".to_string()),
        Some("proj-x".to_string()),
        Some("gpt-4o-mini".to_string()),
    )
    .ok()
    .expect("env should parse");
    assert_eq!(cfg.endpoint, "https://foo.services.ai.azure.com");
    assert_eq!(cfg.api_key.expose(), "sk-foundry-test");
    assert_eq!(cfg.project_name, "proj-x");
    assert_eq!(cfg.model, "gpt-4o-mini");
    assert_eq!(cfg.api_version, "2024-10-01-preview");

    let dbg = cfg.debug_text();
    assert!(!dbg.contains("sk-foundry-test"));
    assert!(dbg.contains("REDACTED"));

    let error = FoundryConfig::from_env(None, None, None, None).err().unwrap();
    assert!(error.to_text().contains("FOUNDRY_ENDPOINT"));
}

#[test]
fn client_builds_and_targets_expected_url() {
    let cfg = test_config();
    let expected = "https://example.services.ai.azure.com/openai/deployments/gpt-4o/chat/completions?api-version=2024-10-01-preview";
    assert_eq!(cfg.completions_url(), expected);
    let client = FoundryChatClient::new(cfg);
    let headers = client.build_headers().expect("headers build");
    let key = headers.iter().find(|h| h.name == "api-key").expect("api-key is there");
    assert!(headers.iter().any(|h| h.name == "content-type" && h.value == "application/json"));
    assert!(key.sensitive);
}

#[test]
fn config_defaults_and_request_body_round_trip() {
    let cfg = test_config();
    assert_eq!(cfg.api_version, "2024-10-01-preview");
    assert_eq!(cfg.max_tokens, DEFAULT_MAX_TOKENS);
    assert_eq!(cfg.request_timeout, DEFAULT_REQUEST_TIMEOUT);
    assert_eq!(cfg.connect_timeout, DEFAULT_CONNECT_TIMEOUT);

    let client = FoundryChatClient::new(cfg);
    let body = client.build_request_body(&vec![Message::user("hello")], None);
    assert_eq!(body.model, "gpt-4o");
    assert_eq!(body.max_tokens, Some(DEFAULT_MAX_TOKENS));
    assert_eq!(body.messages.len(), 1);
    assert_eq!(body.messages[0].role, "user");
    assert_eq!(body.messages[0].content.as_ref().and_then(|v| v.as_str()), Some("hello"));

    let sample = CompletionResponse {
        id: Some("chatcmpl-1".to_string()),
        choices: vec![CompletionChoice {
            content: Some("hi there".to_string()),
            tool_calls: None,
            finish_reason: Some("stop".to_string()),
        }],
        usage: Some(CompletionUsage { prompt_tokens: 5, completion_tokens: 2 }),
    };
    let cr = openai_response_to_chat_response(&sample);
    assert_eq!(cr.response_id.as_deref(), Some("chatcmpl-1"));
    assert_eq!(cr.messages.len(), 1);
    assert_eq!(cr.messages[0].text(), "hi there");
    assert_eq!(cr.finish_reason, Some(FinishReason::Stop));
    let usage = cr.usage.expect("usage present");
    assert_eq!(usage.input_tokens, 5);
    assert_eq!(usage.output_tokens, 2);
}

#[test]
fn a_foundry_agent_comes_with_its_client() {
    let (client, agent) = FoundryAgent::create(test_config());
    assert_eq!(client.config.model, "gpt-4o");
    assert_eq!(agent.id.len(), 36);
    let (_, builder) = FoundryAgent::builder(test_config());
    assert!(builder.has_client);
    assert!(FoundryChatClient::stream_error().to_text().starts_with("Not implemented"));
}
