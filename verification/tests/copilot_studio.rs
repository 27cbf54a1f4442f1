use agent_framework::copilot_studio::{
    CopilotStudioAgent, CopilotStudioClient, CopilotStudioConfig, InboundActivity, InboundFrom, ReplyPoll,
    MAX_POLL_ATTEMPTS,
};
use agent_framework::types::Message;

#[test]
fn from_env_reads_all_four_variables() {
    let config = CopilotStudioConfig::from_env(
        Some("https://directline.example.invalid".to_string()),
        Some("tenant-guid".to_string()),
        Some("client-guid".to_string()),
        Some("super-secret".to_string()),
    )
    .ok()
    .expect("env config");
    assert_eq!(config.bot_endpoint, "https://directline.example.invalid");
    assert_eq!(config.tenant_id, "tenant-guid");
    assert_eq!(config.client_id, "client-guid");
    assert_eq!(config.client_secret.expose(), "super-secret");
    let dbg = config.debug_text();
    assert!(!dbg.contains("super-secret"));
    assert!(dbg.contains("REDACTED"));
    let error = CopilotStudioConfig::from_env(None, None, None, None).err().unwrap();
    assert!(error.to_text().contains("COPILOT_STUDIO_ENDPOINT"));
}

fn client() -> CopilotStudioClient {
    CopilotStudioClient::new(CopilotStudioConfig::new(
        "https://directline.example.invalid/",
        "tenant",
        "client",
        "secret",
    ))
}

#[test]
fn client_builds_and_exposes_urls() {
    let client = client();
    assert_eq!(client.conversations_url(), "https://directline.example.invalid/v3/directline/conversations");
    assert_eq!(
        client.activities_url("abc"),
        "https://directline.example.invalid/v3/directline/conversations/abc/activities"
    );
    let headers = client.build_headers().expect("headers built");
    let auth = headers.iter().find(|h| h.name == "authorization").expect("auth header present");
    assert!(auth.sensitive);
    assert!(auth.value.starts_with("Bearer "));
}

#[test]
fn activity_serializes_to_direct_line_shape() {
    let mut client = client();
    client.user_id = "user_abc".to_string();
    let json = client.activity_body("hello bot");
    assert_eq!(json.get("type").unwrap().as_str(), Some("message"));
    assert_eq!(json.get("from").unwrap().get("id").unwrap().as_str(), Some("user_abc"));
    assert_eq!(json.get("text").unwrap().as_str(), Some("hello bot"));
}

fn activity(kind: &str, text: Option<&str>, from: &str) -> InboundActivity {
    InboundActivity {
        kind: kind.to_string(),
        text: text.map(|t| t.to_string()),
        from: Some(InboundFrom { id: Some(from.to_string()) }),
    }
}

#[test]
fn only_messages_of_others_are_replies() {
    let mut client = client();
    client.user_id = "me".to_string();
    let replies = client.replies(&vec![
        activity("message", Some("mine"), "me"),
        activity("typing", Some("t"), "bot"),
        activity("message", None, "bot"),
        activity("message", Some("theirs"), "bot"),
    ]);
    assert_eq!(replies, vec!["theirs"]);
}

#[test]
fn polling_ends_with_a_reply_or_after_all_attempts() {
    let mut poll = ReplyPoll::start();
    assert!(poll.wants_poll());
    poll.on_answer(vec![], Some("5".to_string()));
    assert_eq!(poll.watermark.as_deref(), Some("5"));
    poll.on_answer(vec!["a".to_string(), "b".to_string()], None);
    assert!(!poll.wants_poll());
    assert_eq!(poll.reply_text(), "a\nb");

    let mut poll = ReplyPoll::start();
    let mut n = 0;
    while poll.wants_poll() {
        poll.on_answer(vec![], None);
        n += 1;
    }
    assert_eq!(n, MAX_POLL_ATTEMPTS);
    assert_eq!(poll.reply_text(), "");
    assert_eq!(CopilotStudioAgent::to_send(&vec![Message::user("a"), Message::user("z")]).as_deref(), Some("a\nz"));
    assert_eq!(CopilotStudioAgent::to_send(&vec![Message::user("")]), None);
    assert!(client().poll_url("c", Some("5")).ends_with("?watermark=5"));
}
