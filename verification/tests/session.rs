use agent_framework::session::{AgentSession, ConversationStep, InMemoryHistoryProvider};
use agent_framework::types::Message;

#[test]
fn test_in_memory_history() {
    let mut provider = InMemoryHistoryProvider::new();
    let session_id = "test-session";
    let history = provider.get_history(session_id);
    assert!(history.is_empty());

    let messages = vec![Message::user("Hello"), Message::assistant("Hi there!")];
    provider.save_history(session_id, &messages);
    let history = provider.get_history(session_id);
    assert_eq!(history.len(), 2);
    assert_eq!(history[0].text(), "Hello");
    assert_eq!(history[1].text(), "Hi there!");

    provider.save_history(session_id, &vec![Message::user("How are you?")]);
    let history = provider.get_history(session_id);
    assert_eq!(history.len(), 3);
}

#[test]
fn test_session_default() {
    let session = AgentSession::new();
    assert!(!session.session_id.is_empty());
    let history = InMemoryHistoryProvider::new().get_history(&session.session_id);
    assert!(history.is_empty());
}

#[test]
fn fifo_eviction_keeps_latest_messages() {
    let mut provider = InMemoryHistoryProvider::with_capacity(3);
    let sid = "s";
    for i in 0..5 {
        provider.save_history(sid, &vec![Message::user(&format!("msg{i}"))]);
    }
    let history = provider.get_history(sid);
    assert_eq!(history.len(), 3);
    assert_eq!(history[0].text(), "msg2");
    assert_eq!(history[1].text(), "msg3");
    assert_eq!(history[2].text(), "msg4");
}

#[test]
fn sessions_do_not_see_each_other() {
    let mut provider = InMemoryHistoryProvider::default();
    provider.save_history("a", &vec![Message::user("1")]);
    provider.save_history("b", &vec![Message::user("2")]);
    assert_eq!(provider.get_history("a").len(), 1);
    assert_eq!(provider.get_history("b")[0].text(), "2");
}

#[test]
fn a_conversation_is_kept_for_the_next_run() {
    let mut session = AgentSession::with_id(Some("s".to_string()));
    assert!(matches!(session.conversation(), ConversationStep::Create));
    assert_eq!(session.keep_conversation("c1"), "c1");
    assert!(matches!(session.conversation(), ConversationStep::Reuse(id) if id == "c1"));
    assert_eq!(session.keep_conversation("c2"), "c1");
    assert_eq!(session.session_id, "s");
}
