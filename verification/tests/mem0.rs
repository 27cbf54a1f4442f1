use agent_framework::error::AgentError;
use agent_framework::json::Json;
use agent_framework::mem0::{
    Mem0Client, Mem0Config, Mem0ContextProvider, Mem0Middleware, Memory, SearchResponse, DEFAULT_BASE_URL,
};
use agent_framework::secret::SecretString;
use agent_framework::types::{Message, F32};

#[test]
fn config_from_env_reads_all_three_variables() {
    let cfg = Mem0Config::from_env(
        Some("token-abc".into()),
        Some("https://example.invalid/v2".into()),
        Some("user-42".into()),
    )
    .ok()
    .expect("from_env should succeed");
    assert_eq!(cfg.api_key.expose(), "token-abc");
    assert_eq!(cfg.base_url, "https://example.invalid/v2");
    assert_eq!(cfg.user_id.as_deref(), Some("user-42"));

    let err = Mem0Config::from_env(None, None, None).err().expect("missing key should fail");
    assert!(err.to_text().contains("MEM0_API_KEY"));

    let cfg = Mem0Config::from_env(Some("k".into()), None, None).ok().unwrap();
    assert_eq!(cfg.base_url, DEFAULT_BASE_URL);
    assert!(cfg.user_id.is_none());
}

fn memory(id: &str, text: &str, score: f32, metadata: Option<Json>) -> Memory {
    Memory { id: id.into(), memory: text.into(), score: F32 { bits: score.to_bits() }, metadata }
}

#[test]
fn memory_deserializes_from_both_shapes() {
    let mems = SearchResponse::Bare(vec![memory("m1", "likes tea", 0.91, None)]).into_results();
    assert_eq!(mems.len(), 1);
    assert_eq!(mems[0].id, "m1");
    assert_eq!(mems[0].memory, "likes tea");
    assert!((f32::from_bits(mems[0].score.bits) - 0.91).abs() < 1e-6);
    assert!(mems[0].metadata.is_none());

    let metadata = Json::parse("{\"source\":\"chat\"}").unwrap();
    let mems =
        SearchResponse::Wrapped { results: vec![memory("m2", "loves rust", 0.5, Some(metadata))] }.into_results();
    assert_eq!(mems.len(), 1);
    assert_eq!(mems[0].id, "m2");
    assert_eq!(mems[0].memory, "loves rust");
    assert_eq!(
        mems[0].metadata.as_ref().and_then(|v| v.get("source")).and_then(|v| v.as_str()),
        Some("chat")
    );
}

fn client(base_url: &str, user_id: Option<&str>) -> Mem0Client {
    Mem0Client::new(Mem0Config {
        api_key: SecretString::new("k"),
        base_url: base_url.to_string(),
        user_id: user_id.map(|u| u.to_string()),
    })
}

#[test]
fn search_request_builds_correct_json() {
    let json = Mem0Client::build_search_body("favourite colour", "user-42", 7);
    assert_eq!(json.get("query").unwrap().as_str(), Some("favourite colour"));
    assert_eq!(json.get("user_id").unwrap().as_str(), Some("user-42"));
    assert!(json.get("limit").unwrap().same(&Json::Unsigned(7)));

    let client = client("https://api.mem0.ai/v1/", None);
    assert_eq!(client.endpoint("memories/search"), "https://api.mem0.ai/v1/memories/search");
    assert_eq!(client.endpoint("/memories"), "https://api.mem0.ai/v1/memories");
}

#[test]
fn users_are_found_in_order() {
    let session = "s";
    assert_eq!(Mem0ContextProvider::new(client("u", None)).resolve_user_id(session), "s");
    assert_eq!(Mem0ContextProvider::new(client("u", Some("d"))).resolve_user_id(session), "d");
    assert_eq!(Mem0ContextProvider::new(client("u", Some("d"))).with_user_id("o").resolve_user_id(session), "o");
    assert_eq!(Mem0Middleware::new(client("u", Some("d"))).resolve_user_id(session), "d");
}

#[test]
fn memories_become_instructions() {
    let provider = Mem0ContextProvider::new(client("u", None));
    let context =
        provider.context_from(Ok(vec![memory("1", "likes tea", 0.9, None), memory("2", "has a cat", 0.8, None)]));
    let text = context.instructions.unwrap();
    assert!(text.starts_with("Relevant memories:"));
    assert!(text.contains("likes tea") && text.contains("has a cat"));
    assert!(provider.context_from(Ok(vec![])).instructions.is_none());
    assert!(provider.context_from(Err(AgentError::Other("x".into()))).instructions.is_none());
}

#[test]
fn bodies_hold_what_was_said() {
    let body = Mem0Client::build_add_body(&vec![Message::user("a"), Message::assistant("b")], "u1").unwrap();
    assert_eq!(body.get("user_id").unwrap().as_str(), Some("u1"));
    assert!(body.get("messages").unwrap().to_text().contains("\"role\":\"assistant\""));
    assert!(Mem0Client::build_add_body(&vec![Message::user("")], "u1").is_none());
    let kept = Mem0Middleware::to_store(&vec![Message::user("q")], &vec![Message::assistant("a")]);
    assert_eq!(kept.len(), 2);
    assert!(client("u", None).build_headers().unwrap().iter().any(|h| h.name == "authorization" && h.sensitive));
}

#[test]
fn searches_follow_the_settings_of_the_provider() {
    let config = Mem0Config {
        api_key: SecretString::new("k"),
        base_url: DEFAULT_BASE_URL.to_string(),
        user_id: None,
    };
    let provider = Mem0ContextProvider::new(Mem0Client::new(config)).with_limit(2).with_context_prompt("Known:");
    assert_eq!(provider.search_body("s1").to_text(), "{\"limit\":2,\"query\":\"s1\",\"user_id\":\"s1\"}");
    let memory = Memory { id: String::new(), memory: "likes tea".to_string(), score: F32 { bits: 0 }, metadata: None };
    let context = provider.context_from(Ok(vec![memory]));
    assert!(context.instructions.unwrap().starts_with("Known:\n"));
}
