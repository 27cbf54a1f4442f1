use agent_framework::error::AgentError;
use agent_framework::json::Json;
use agent_framework::orchestrations::{
    collect_concurrent, GroupChatOrchestration, HandoffOrchestration, KeywordTermination, MaxRoundsTermination,
    RoundRobinSelector, SequentialOrchestration, MAX_CHAT_ROUNDS,
};
use agent_framework::types::{AgentResponse, Content, Message, Role};

fn answer(text: &str) -> AgentResponse {
    AgentResponse {
        messages: vec![Message::assistant(text)],
        text: text.to_string(),
        finish_reason: None,
        usage: None,
    }
}

fn handover(text: &str, tool: &str) -> AgentResponse {
    AgentResponse {
        messages: vec![Message::bare(
            Role::Assistant,
            vec![
                Content::tool_call("c0", "unrelated", Json::parse("{}").unwrap()),
                Content::tool_call("c1", tool, Json::parse("{}").unwrap()),
            ],
        )],
        text: text.to_string(),
        finish_reason: None,
        usage: None,
    }
}

#[test]
fn each_agent_gets_the_text_of_the_one_before() {
    let mut run = SequentialOrchestration::start(2, vec![Message::user("q")]);
    let (first, input) = run.next_agent().unwrap();
    assert_eq!((first, input[0].text()), (0, "q".to_string()));
    run.on_response(answer("draft"));
    let (second, input) = run.next_agent().unwrap();
    assert_eq!((second, input[0].text()), (1, "draft".to_string()));
    assert_eq!(input[0].role, Role::User);
    run.on_response(answer("final"));
    assert!(run.next_agent().is_none());
    assert_eq!(run.finish().unwrap().text, "final");
    assert!(SequentialOrchestration::start(0, vec![]).finish().is_err());
}

#[test]
fn concurrent_answers_keep_their_order() {
    let texts: Vec<String> =
        collect_concurrent(vec![Ok(answer("a")), Ok(answer("b"))]).unwrap().iter().map(|r| r.text.clone()).collect();
    assert_eq!(texts, vec!["a", "b"]);
    let error = collect_concurrent(vec![
        Ok(answer("a")),
        Err(AgentError::Other("first".to_string())),
        Err(AgentError::Other("second".to_string())),
    ])
    .unwrap_err();
    assert_eq!(error.to_text(), "first");
}

#[test]
fn a_group_chat_takes_turns() {
    let names = vec!["ann".to_string(), "bob".to_string()];
    let mut chat = GroupChatOrchestration::start(names, Message::user("topic")).unwrap();
    let stop = KeywordTermination::new("DONE");
    let mut spoken = Vec::new();
    while let Some(round) = chat.next_round() {
        let speaker = RoundRobinSelector.select_next(2, round);
        let input = chat.input_for(speaker);
        assert_eq!(input.len(), 2 + round);
        assert!(input[0].text().starts_with("You are '"));
        let response = answer(if round == 2 { "DONE" } else { "more" });
        let ends = stop.should_terminate(&response);
        chat.on_response(speaker, response);
        spoken.push(speaker);
        chat.close_round(ends);
    }
    assert_eq!(spoken, vec![0, 1, 0]);
    assert_eq!(chat.history.len(), 4);
    assert_eq!(chat.history[2].name.as_deref(), Some("bob"));
    assert_eq!(chat.responses.len(), 3);
    let error = GroupChatOrchestration::start(vec![], Message::user("x")).unwrap_err();
    assert_eq!(error.to_text(), "Invalid request: group chat has no participants");
}

#[test]
fn a_group_chat_ends_after_its_last_round() {
    let mut chat = GroupChatOrchestration::start(vec!["a".to_string()], Message::user("x")).unwrap();
    let mut rounds = 0;
    while chat.next_round().is_some() {
        chat.on_response(0, answer("more"));
        chat.close_round(false);
        rounds += 1;
    }
    assert_eq!(rounds, MAX_CHAT_ROUNDS);
}

#[test]
fn a_group_chat_has_as_many_rounds_as_its_limit() {
    for (limit, expected) in [(3, 3), (1, 1), (0, 1), (500, MAX_CHAT_ROUNDS)] {
        let stop = MaxRoundsTermination::new(limit);
        let mut chat = GroupChatOrchestration::start(vec!["a".to_string()], Message::user("x")).unwrap();
        while let Some(round) = chat.next_round() {
            chat.on_response(0, answer("more"));
            chat.close_round(stop.should_terminate(round));
        }
        assert_eq!(chat.responses.len(), expected);
    }
}

#[test]
fn agents_hand_over_by_calling_a_tool() {
    let targets = vec!["to_billing".to_string(), "to_support".to_string()];
    let mut run = HandoffOrchestration::start(targets, 10, vec![Message::user("q")]);
    let (agent, input) = run.next_agent().unwrap();
    assert!(agent.is_none());
    assert_eq!(input[0].text(), "q");
    run.on_response(handover("please take over", "to_support"));
    let (agent, input) = run.next_agent().unwrap();
    assert_eq!(agent.as_deref(), Some("to_support"));
    assert_eq!(input[0].text(), "please take over");
    run.on_response(answer("solved"));
    assert!(run.next_agent().is_none());
    assert_eq!(run.finish().unwrap().text, "solved");
}

#[test]
fn handing_over_is_bounded() {
    let mut run = HandoffOrchestration::start(vec!["t".to_string()], 2, vec![]);
    let mut runs = 0;
    while run.next_agent().is_some() {
        run.on_response(handover(&format!("{runs}"), "t"));
        runs += 1;
    }
    assert_eq!(runs, 2);
    assert_eq!(run.finish().unwrap().text, "1");
    let none = HandoffOrchestration::start(vec!["t".to_string()], 0, vec![]);
    assert!(none.next_agent().is_none());
    assert_eq!(none.finish().unwrap_err().to_text(), "Invalid response: no responses generated");
}
