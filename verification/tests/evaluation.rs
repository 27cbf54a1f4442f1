use agent_framework::evaluation::{
    evaluator_fn, keyword_score, EvalItem, EvalItemResult, EvalResults, EvalScore, Evaluator, ExpectedToolCall,
    KeywordCheckEvaluator, ResponseNotEmptyEvaluator, Score, ToolCalledEvaluator,
};
use agent_framework::json::Json;
use agent_framework::types::{AgentResponse, Content, Message, Role};

fn make_response(text: &str) -> AgentResponse {
    AgentResponse {
        messages: vec![Message::assistant(text)],
        text: text.to_string(),
        finish_reason: None,
        usage: None,
    }
}

fn make_response_with_tools(text: &str, tool_calls: Vec<(&str, &str, Json)>) -> AgentResponse {
    let mut contents: Vec<Content> =
        tool_calls.into_iter().map(|(id, name, args)| Content::tool_call(id, name, args)).collect();
    contents.push(Content::text(text));
    AgentResponse {
        messages: vec![Message::bare(Role::Assistant, contents)],
        text: text.to_string(),
        finish_reason: None,
        usage: None,
    }
}

fn json(text: &str) -> Json {
    Json::parse(text).unwrap()
}

fn number(score: Score) -> f64 {
    match score {
        Score::Ratio { matched, total } => matched as f64 / total as f64,
        Score::Binary { bits } => f64::from_bits(bits),
    }
}

fn binary(x: f64) -> Score {
    Score::Binary { bits: x.to_bits() }
}

#[test]
fn keyword_check_all_present() {
    let evaluator = KeywordCheckEvaluator::new(vec!["sunny".into(), "warm".into()]);
    let item = EvalItem::new("weather?");
    let response = make_response("It is sunny and warm today.");
    let score = evaluator.evaluate(&item, &response).unwrap();
    assert!(score.passed);
    assert!((number(score.score) - 1.0).abs() < f64::EPSILON);
}

#[test]
fn keyword_check_partial_match() {
    let evaluator = KeywordCheckEvaluator::new(vec!["sunny".into(), "cold".into()]);
    let item = EvalItem::new("weather?");
    let response = make_response("It is sunny today.");
    let score = evaluator.evaluate(&item, &response).unwrap();
    assert!(!score.passed);
    assert!((number(score.score) - 0.5).abs() < f64::EPSILON);
    assert!(score.reason.as_deref().unwrap().contains("cold"));
}

#[test]
fn keyword_check_case_insensitive() {
    let evaluator = KeywordCheckEvaluator::new(vec!["SUNNY".into()]);
    let item = EvalItem::new("weather?");
    let response = make_response("It is sunny today.");
    let score = evaluator.evaluate(&item, &response).unwrap();
    assert!(score.passed);
}

#[test]
fn keyword_check_empty_keywords() {
    let evaluator = KeywordCheckEvaluator::new(vec![]);
    let item = EvalItem::new("anything");
    let response = make_response("anything");
    let score = evaluator.evaluate(&item, &response).unwrap();
    assert!(score.passed);
    assert!((number(score.score) - 1.0).abs() < f64::EPSILON);
}

#[test]
fn keywords_are_compared_in_the_forms_given() {
    let keywords = vec!["A".to_string(), "B".to_string(), "C".to_string()];
    let forms = vec!["a".to_string(), "b".to_string(), "c".to_string()];
    let score = keyword_score(&keywords, &forms, "xbx");
    assert_eq!(score.score, Score::Ratio { matched: 1, total: 3 });
    assert_eq!(score.reason.as_deref(), Some("missing keywords: A, C"));
}

#[test]
fn tool_called_all_present() {
    let item = EvalItem::new("weather?").with_expected_tool_call(ExpectedToolCall::named("get_weather"));
    let response = make_response_with_tools(
        "The weather is nice.",
        vec![("call_1", "get_weather", json("{\"city\":\"Seattle\"}"))],
    );
    let score = ToolCalledEvaluator.evaluate(&item, &response).unwrap();
    assert!(score.passed);
    assert!((number(score.score) - 1.0).abs() < f64::EPSILON);
}

#[test]
fn tool_called_missing() {
    let item = EvalItem::new("weather?")
        .with_expected_tool_call(ExpectedToolCall::named("get_weather"))
        .with_expected_tool_call(ExpectedToolCall::named("get_forecast"));
    let response =
        make_response_with_tools("The weather is nice.", vec![("call_1", "get_weather", json("{}"))]);
    let score = ToolCalledEvaluator.evaluate(&item, &response).unwrap();
    assert!(!score.passed);
    assert!((number(score.score) - 0.5).abs() < f64::EPSILON);
    assert!(score.reason.as_deref().unwrap().contains("get_forecast"));
}

#[test]
fn tool_called_with_args_match() {
    let expected_args = json("{\"city\":\"Seattle\"}");
    let item = EvalItem::new("weather?")
        .with_expected_tool_call(ExpectedToolCall::with_args("get_weather", expected_args.clone()));
    let response =
        make_response_with_tools("The weather is nice.", vec![("call_1", "get_weather", expected_args)]);
    let score = ToolCalledEvaluator.evaluate(&item, &response).unwrap();
    assert!(score.passed);
}

#[test]
fn tool_called_with_args_mismatch() {
    let item = EvalItem::new("weather?").with_expected_tool_call(ExpectedToolCall::with_args(
        "get_weather",
        json("{\"city\":\"Seattle\"}"),
    ));
    let response = make_response_with_tools(
        "The weather is nice.",
        vec![("call_1", "get_weather", json("{\"city\":\"Portland\"}"))],
    );
    let score = ToolCalledEvaluator.evaluate(&item, &response).unwrap();
    assert!(!score.passed);
}

#[test]
fn tool_called_no_expected() {
    let item = EvalItem::new("hello");
    let response = make_response("Hi there!");
    let score = ToolCalledEvaluator.evaluate(&item, &response).unwrap();
    assert!(score.passed);
    assert!((number(score.score) - 1.0).abs() < f64::EPSILON);
}

#[test]
fn response_not_empty_passes() {
    let score = ResponseNotEmptyEvaluator.evaluate(&EvalItem::new("hello"), &make_response("Hi there!")).unwrap();
    assert!(score.passed);
}

#[test]
fn response_not_empty_fails_empty() {
    let score = ResponseNotEmptyEvaluator.evaluate(&EvalItem::new("hello"), &make_response("")).unwrap();
    assert!(!score.passed);
    assert!((number(score.score) - 0.0).abs() < f64::EPSILON);
}

#[test]
fn response_not_empty_fails_whitespace() {
    let score = ResponseNotEmptyEvaluator.evaluate(&EvalItem::new("hello"), &make_response("   \n\t  ")).unwrap();
    assert!(!score.passed);
}

#[test]
fn closure_evaluator_works() {
    let evaluator = evaluator_fn("length_check", |_item: &EvalItem, response: &AgentResponse| {
        if response.text.len() > 5 {
            Ok(EvalScore::pass(binary(1.0)))
        } else {
            Ok(EvalScore::fail(binary(0.0), "too short"))
        }
    });
    assert_eq!(evaluator.name(), "length_check");
    let item = EvalItem::new("test");
    let score = evaluator.evaluate(&item, &make_response("Hello, world!")).unwrap();
    assert!(score.passed);
    let score = evaluator.evaluate(&item, &make_response("Hi")).unwrap();
    assert!(!score.passed);
}

fn result(query: &str, answer: &str, scores: Vec<(&str, EvalScore)>) -> EvalItemResult {
    let scores = scores.into_iter().map(|(name, score)| (name.to_string(), score)).collect();
    EvalItemResult::of_scores(EvalItem::new(query), make_response(answer), scores)
}

#[test]
fn eval_results_pass_rate() {
    let mut results = EvalResults::new();
    results.add(result("q1", "a1", vec![("e1", EvalScore::pass(binary(1.0)))]));
    results.add(result("q2", "a2", vec![("e1", EvalScore::fail(binary(0.0), "bad"))]));
    assert!((number(results.pass_rate()) - 0.5).abs() < f64::EPSILON);
    assert_eq!(results.scores_for("e1"), vec![binary(1.0), binary(0.0)]);
    assert!(!results.all_passed());
    assert_eq!(results.total(), 2);
    assert_eq!(results.passed_count(), 1);
    assert_eq!(results.failed_count(), 1);
}

#[test]
fn eval_results_empty() {
    let results = EvalResults::new();
    assert!((number(results.pass_rate()) - 0.0).abs() < f64::EPSILON);
    assert!(!results.all_passed());
    assert_eq!(results.total(), 0);
}

#[test]
fn scores_are_kept_by_evaluator() {
    let mut results = EvalResults::new();
    results.add(result(
        "q1",
        "a1",
        vec![("e1", EvalScore::pass(binary(0.8))), ("e2", EvalScore::pass(binary(1.0)))],
    ));
    results.add(result(
        "q2",
        "a2",
        vec![("e1", EvalScore::pass(binary(0.6))), ("e2", EvalScore::fail(binary(0.2), "low"))],
    ));
    assert_eq!(results.scores_for("e1"), vec![binary(0.8), binary(0.6)]);
    assert_eq!(results.scores_for("e2"), vec![binary(1.0), binary(0.2)]);
    assert!(results.scores_for("nonexistent").is_empty());
}

#[test]
fn the_last_score_of_a_name_counts() {
    let twice = result("q", "a", vec![("e", EvalScore::fail(binary(0.0), "x")), ("e", EvalScore::pass(binary(1.0)))]);
    assert!(twice.passed());
    assert!(!twice.failed());
}

#[test]
fn eval_item_builder() {
    let item = EvalItem::new("What is 2+2?")
        .with_expected_response("4")
        .with_expected_tool_call(ExpectedToolCall::named("calculator"))
        .with_metadata("difficulty", Json::text("easy"));
    assert_eq!(item.query, "What is 2+2?");
    assert_eq!(item.expected_response.as_deref(), Some("4"));
    assert_eq!(item.expected_tool_calls.len(), 1);
    assert_eq!(item.expected_tool_calls[0].name, "calculator");
    assert_eq!(item.metadata.get("difficulty").unwrap().as_str(), Some("easy"));
    assert_eq!(item.messages()[0].text(), "What is 2+2?");
}

#[test]
fn eval_score_constructors() {
    let pass = EvalScore::pass(binary(0.9));
    assert!(pass.passed);
    assert!((number(pass.score) - 0.9).abs() < f64::EPSILON);
    assert!(pass.reason.is_none());
    let fail = EvalScore::fail(binary(0.1), "low quality");
    assert!(!fail.passed);
    assert!((number(fail.score) - 0.1).abs() < f64::EPSILON);
    assert_eq!(fail.reason.as_deref(), Some("low quality"));
}
