use agent_framework::azure_persistent::{
    after_poll, list_to_messages, newest_assistant_text, PersistentAgent, PersistentAgentsClient, PersistentConfig,
    PersistentContent, PersistentMessage, RunError, RunResource, DEFAULT_CONNECT_TIMEOUT, DEFAULT_POLL_INTERVAL,
    DEFAULT_REQUEST_TIMEOUT, DEFAULT_RUN_TIMEOUT,
};
use agent_framework::secret::SecretString;
use agent_framework::types::{Message, Role};

fn test_config() -> PersistentConfig {
    PersistentConfig {
        endpoint: "https://example.services.ai.azure.com".to_string(),
        api_key: SecretString::new("test-key"),
        agent_id: "asst_abc123".to_string(),
        request_timeout: DEFAULT_REQUEST_TIMEOUT,
        connect_timeout: DEFAULT_CONNECT_TIMEOUT,
        poll_interval: DEFAULT_POLL_INTERVAL,
        run_timeout: DEFAULT_RUN_TIMEOUT,
    }
}

#[test]
fn from_env_reads_all_required_variables() {
    let cfg = PersistentConfig::from_env(
        Some("https://foo.services.ai.azure.com".to_string()),
        Some("sk-persistent-test".to_string()),
        Some("asst_xyz".to_string()),
    )
    .ok()
    .expect("env should parse");
    assert_eq!(cfg.endpoint, "https://foo.services.ai.azure.com");
    assert_eq!(cfg.api_key.expose(), "sk-persistent-test");
    assert_eq!(cfg.agent_id, "asst_xyz");
    let dbg = cfg.debug_text();
    assert!(!dbg.contains("sk-persistent-test"));
    assert!(dbg.contains("REDACTED"));
    let error = PersistentConfig::from_env(Some("e".to_string()), Some("k".to_string()), None).err().unwrap();
    assert!(error.to_text().contains("AZURE_AI_AGENT_ID"));
}

#[test]
fn client_builds_and_headers_are_correct() {
    let cfg = test_config();
    assert_eq!(cfg.base(), "https://example.services.ai.azure.com");
    let client = PersistentAgentsClient::new(cfg);
    let headers = client.build_headers().expect("headers build");
    assert!(headers.iter().any(|h| h.name == "content-type" && h.value == "application/json"));
    let key = headers.iter().find(|h| h.name == "api-key").expect("api-key is there");
    assert!(key.sensitive);

    let agent = PersistentAgent::new(test_config());
    assert!(!agent.id.is_empty());
    assert!(agent.name.is_none());
    assert!(agent.description.is_none());
    let named = PersistentAgent::new(test_config())
        .with_name("support-bot")
        .with_description("Handles support tickets");
    assert_eq!(named.name.as_deref(), Some("support-bot"));
    assert_eq!(named.description.as_deref(), Some("Handles support tickets"));
}

fn message(role: &str, content: Vec<PersistentContent>) -> PersistentMessage {
    PersistentMessage { role: role.to_string(), content }
}

fn text(value: &str) -> PersistentContent {
    PersistentContent::Text { value: value.to_string() }
}

#[test]
fn persistent_messages_decode_into_framework_messages() {
    let data = vec![message("assistant", vec![text("hello back")]), message("user", vec![text("hi")])];
    let converted = list_to_messages(&data);
    assert_eq!(converted.len(), 2);
    assert_eq!(converted[0].role, Role::User);
    assert_eq!(converted[0].text(), "hi");
    assert_eq!(converted[1].role, Role::Assistant);
    assert_eq!(converted[1].text(), "hello back");
    assert_eq!(newest_assistant_text(&converted), "hello back");

    let data = vec![message("assistant", vec![PersistentContent::Other, text("see above")])];
    let converted = list_to_messages(&data);
    assert_eq!(converted.len(), 1);
    assert_eq!(converted[0].text(), "see above");
}

fn run(status: &str) -> RunResource {
    RunResource {
        id: "run_1".to_string(),
        status: status.to_string(),
        last_error: Some(RunError { code: "rate".to_string(), message: "slow down".to_string() }),
    }
}

#[test]
fn polling_follows_the_status_of_the_run() {
    assert!(after_poll(&run("completed")).unwrap());
    assert!(!after_poll(&run("queued")).unwrap());
    assert!(after_poll(&run("failed")).unwrap_err().to_text().contains("slow down"));
    let client = PersistentAgentsClient::new(test_config());
    assert!(client.before_poll("run_1", 0).is_ok());
    assert!(client.before_poll("run_1", DEFAULT_RUN_TIMEOUT + 1).is_err());
}

#[test]
fn requests_of_a_run_have_their_forms() {
    let client = PersistentAgentsClient::new(test_config());
    assert_eq!(client.run_body().get("assistant_id").unwrap().as_str(), Some("asst_abc123"));
    let body = PersistentAgentsClient::message_body("user", "q");
    assert_eq!(body.get("role").unwrap().as_str(), Some("user"));
    assert_eq!(body.get("content").unwrap().as_str(), Some("q"));
    assert!(client.config.messages_url("th").contains("/th/messages"));
    assert!(client.config.run_url("th", "r").contains("/th/runs/r"));
    let texts = PersistentAgent::to_forward(&vec![Message::user("a"), Message::assistant("b"), Message::user("")]);
    assert_eq!(texts, vec!["a"]);
    assert_eq!(PersistentAgent::response(vec![Message::user("a")], "r").text, "r");
}

#[test]
fn a_failed_step_is_named() {
    let config = test_config();
    assert_eq!(config.threads_url(), "https://example.services.ai.azure.com/threads");
    assert_eq!(config.runs_url("t1"), "https://example.services.ai.azure.com/threads/t1/runs");
    assert_eq!(PersistentAgentsClient::thread_body().to_text(), "{}");
    let error = PersistentAgentsClient::step_error("poll_run", "500 Internal Server Error", 500, "key sk-abc");
    assert_eq!(
        error.to_text(),
        "Provider error: Azure AI Persistent Agents error during poll_run (500 Internal Server Error): key sk-[REDACTED]"
    );
}

#[test]
fn the_first_final_status_ends_the_polling() {
    let seen = ["queued", "in_progress", "unheard_of", "cancelled", "completed"];
    let error = seen.iter().find_map(|status| match after_poll(&run(status)) {
        Ok(false) => None,
        Ok(true) => panic!("cancelled comes first"),
        Err(error) => Some(error),
    });
    assert!(error.unwrap().to_text().contains("ended with status 'cancelled'"));
}
