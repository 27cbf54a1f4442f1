use agent_framework::compaction::{
    apply_summary, shorten, CharEstimatorTokenizer, CompactionStep, PipelineCompactionStrategy, PipelineRun,
    SlidingWindowStrategy, SummarizationStrategy, SummaryPlan, Tokenizer, ToolResultCompactionStrategy,
    TruncationStrategy,
};
use agent_framework::error::AgentError;
use agent_framework::types::{ChatResponse, Content, Message, Role};

#[test]
fn sliding_window_keeps_recent_and_system() {
    let messages = vec![
        Message::system("you are helpful"),
        Message::user("msg1"),
        Message::assistant("reply1"),
        Message::user("msg2"),
        Message::assistant("reply2"),
        Message::user("msg3"),
    ];
    let strategy = SlidingWindowStrategy::new(3);
    let result = strategy.compact(messages).unwrap();
    assert_eq!(result.len(), 4);
    assert_eq!(result[0].role, Role::System);
    assert_eq!(result[1].text(), "msg2");
    assert_eq!(result[2].text(), "reply2");
    assert_eq!(result[3].text(), "msg3");
}

#[test]
fn truncation_respects_token_budget() {
    let messages = vec![
        Message::system("sys"),
        Message::user(&"a]".repeat(100)),
        Message::assistant(&"b".repeat(100)),
        Message::user(&"c".repeat(20)),
    ];
    let strategy = TruncationStrategy::with_default_tokenizer(15);
    let result = strategy.compact(messages).unwrap();
    assert!(result.len() >= 2);
    assert_eq!(result[0].role, Role::System);
}

#[test]
fn tool_result_compaction_truncates() {
    let messages = vec![Message::bare(Role::Tool, vec![Content::tool_result("id1", &"x".repeat(1000))])];
    let strategy = ToolResultCompactionStrategy::new(50);
    let result = strategy.compact(messages).unwrap();
    if let Content::ToolResult { content, .. } = &result[0].content[0] {
        assert!(content.len() < 200);
        assert!(content.contains("[truncated"));
    } else {
        panic!("expected ToolResult");
    }
}

#[test]
fn pipeline_chains_strategies() {
    let messages = vec![
        Message::system("sys"),
        Message::user("old1"),
        Message::user("old2"),
        Message::user("old3"),
        Message::user("recent1"),
        Message::user("recent2"),
    ];
    let pipeline =
        PipelineCompactionStrategy::new().add(CompactionStep::SlidingWindow(SlidingWindowStrategy::new(3)));
    let result = pipeline.compact(messages).unwrap();
    assert_eq!(result.len(), 4);
}

#[test]
fn results_are_cut_after_characters() {
    assert_eq!(shorten("abc", 3), "abc");
    let cut = shorten("äbcd", 2);
    assert!(cut.starts_with("äb"));
    assert!(cut.contains("[truncated"));
}

#[test]
fn short_conversations_are_not_summarized() {
    let strategy = SummarizationStrategy::new(2);
    match strategy.plan(vec![Message::system("s"), Message::user("a"), Message::user("b")]) {
        SummaryPlan::Keep(messages) => assert_eq!(messages.len(), 3),
        SummaryPlan::Summarize { .. } => panic!("nothing to summarize"),
    }
}

#[test]
fn long_conversations_are_summarized() {
    let strategy = SummarizationStrategy::new(1).with_prompt("P");
    match strategy.plan(vec![Message::system("s"), Message::user("a"), Message::assistant("b"), Message::user("c")]) {
        SummaryPlan::Summarize { request, system, recent } => {
            assert_eq!(request[0].text(), "P");
            assert!(request[1].text().contains("User: a"));
            let summary = ChatResponse {
                messages: vec![Message::assistant("they met")],
                response_id: None,
                finish_reason: None,
                usage: None,
            };
            let out = apply_summary(system, &summary, &recent);
            assert_eq!(out.len(), 3);
            assert_eq!(out[0].text(), "s");
            assert!(out[1].text().contains("they met"));
            assert_eq!(out[2].text(), "c");
        }
        SummaryPlan::Keep(_) => panic!("too long to keep"),
    }
}

#[test]
fn tokens_are_estimated_by_characters() {
    let tokenizer = CharEstimatorTokenizer::default();
    assert_eq!(tokenizer.count_tokens("äöüß"), 1);
    assert_eq!(tokenizer.count_tokens("abcde"), 2);
    assert_eq!(tokenizer.count_tokens(""), 0);
    assert_eq!(CharEstimatorTokenizer::new(0).count_tokens("abc"), 3);
}

#[test]
fn a_pipeline_of_any_strategies_hands_the_messages_on() {
    let mut run = PipelineRun::start(2, vec![Message::user("a"), Message::user("b")]);
    let (first, input) = run.next_strategy().unwrap();
    assert_eq!((first, input.len()), (0, 2));
    run.on_outcome(Ok(vec![Message::user("c")]));
    let (second, input) = run.next_strategy().unwrap();
    assert_eq!((second, input[0].text()), (1, "c".to_string()));
    run.on_outcome(Ok(vec![Message::user("d")]));
    assert!(run.next_strategy().is_none());
    assert_eq!(run.finish().unwrap()[0].text(), "d");
    let mut run = PipelineRun::start(2, vec![]);
    run.on_outcome(Err(AgentError::Other("lost".to_string())));
    assert!(run.next_strategy().is_none());
    assert_eq!(run.finish().unwrap_err().to_text(), "lost");
}
