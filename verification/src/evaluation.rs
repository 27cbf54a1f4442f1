//! Scoring the answers of agents.

use vstd::prelude::*;

use crate::agent::collect_calls;
use crate::error::AgentResult;
use crate::json::{
    has_no_floats, law_same_values_are_equal, lemma_same_value_symmetric, same_value, Json, JsonObject, JsonView,
};
use crate::table::{lemma_table_dom, Table};
use crate::text::{cat2, contains, contains_text, join, joined, lowercase, str_eq, to_lowercase, trim, trimmed};
use crate::types::{calls_in, text_message, AgentResponse, AgentResponseView, Message, Role};

verus! {

// ---------------------------------------------------------------------------
// What is asked
// ---------------------------------------------------------------------------

/// A tool call that an agent is expected to make.
#[derive(Debug)]
pub struct ExpectedToolCall {
    /// The name of the tool.
    pub name: String,
    /// The arguments; `None` where they do not matter.
    pub args: Option<Json>,
}

/// What an expected call holds.
#[verifier::ext_equal]
pub struct ExpectedView {
    pub name: Seq<char>,
    pub args: Option<JsonView>,
}

impl View for ExpectedToolCall {
    type V = ExpectedView;

    open spec fn view(&self) -> ExpectedView {
        ExpectedView {
            name: self.name@,
            args: self.args.deep_view(),
        }
    }
}

impl DeepView for ExpectedToolCall {
    type V = ExpectedView;

    open spec fn deep_view(&self) -> ExpectedView {
        self@
    }
}

impl ExpectedToolCall {
    /// A call of a tool, whatever its arguments.
    pub fn named(name: &str) -> (call: Self)
        ensures
            call@ == (ExpectedView { name: name@, args: None }),
    {
        ExpectedToolCall { name: name.to_owned(), args: None }
    }

    /// A call of a tool with given arguments.
    pub fn with_args(name: &str, args: Json) -> (call: Self)
        ensures
            call@ == (ExpectedView { name: name@, args: Some(args@) }),
    {
        ExpectedToolCall { name: name.to_owned(), args: Some(args) }
    }
}

/// A question to an agent, with what is expected of the answer.
#[derive(Debug)]
pub struct EvalItem {
    /// The question.
    pub query: String,
    /// The text that the answer is compared with.
    pub expected_response: Option<String>,
    /// The calls that the agent should make.
    pub expected_tool_calls: Vec<ExpectedToolCall>,
    /// What else is attached to the question.
    pub metadata: JsonObject,
}

/// What a question holds.
#[verifier::ext_equal]
pub struct EvalItemView {
    pub query: Seq<char>,
    pub expected_response: Option<Seq<char>>,
    pub expected_tool_calls: Seq<ExpectedView>,
    pub metadata: Map<Seq<char>, JsonView>,
}

impl View for EvalItem {
    type V = EvalItemView;

    open spec fn view(&self) -> EvalItemView {
        EvalItemView {
            query: self.query@,
            expected_response: self.expected_response.deep_view(),
            expected_tool_calls: self.expected_tool_calls.deep_view(),
            metadata: self.metadata@,
        }
    }
}

impl DeepView for EvalItem {
    type V = EvalItemView;

    open spec fn deep_view(&self) -> EvalItemView {
        self@
    }
}

/// A question of which nothing is expected.
pub open spec fn plain_item(query: Seq<char>) -> EvalItemView {
    EvalItemView { query, expected_response: None, expected_tool_calls: Seq::empty(), metadata: Map::empty() }
}

impl EvalItem {
    /// A question of which nothing is expected.
    pub fn new(query: &str) -> (item: Self)
        ensures
            item@ == plain_item(query@),
    {
        let item = EvalItem {
            query: query.to_owned(),
            expected_response: None,
            expected_tool_calls: Vec::new(),
            metadata: JsonObject::new(),
        };
        assert(item@ =~= plain_item(query@));
        item
    }

    /// Set the text that the answer is compared with.
    pub fn with_expected_response(self, response: &str) -> (item: Self)
        ensures
            item@ == (EvalItemView { expected_response: Some(response@), ..self@ }),
    {
        EvalItem { expected_response: Some(response.to_owned()), ..self }
    }

    /// Add a call that the agent should make.
    pub fn with_expected_tool_call(self, tool_call: ExpectedToolCall) -> (item: Self)
        ensures
            item@ == (EvalItemView {
                expected_tool_calls: self@.expected_tool_calls.push(tool_call@),
                ..self@
            }),
    {
        let ghost before = self@;
        let ghost pushed = tool_call@;
        let mut item = self;
        item.expected_tool_calls.push(tool_call);
        assert(item.expected_tool_calls.deep_view() =~= before.expected_tool_calls.push(pushed));
        item
    }

    /// Attach a value.
    pub fn with_metadata(self, key: &str, value: Json) -> (item: Self)
        ensures
            item@ == (EvalItemView { metadata: self@.metadata.insert(key@, value@), ..self@ }),
    {
        let mut item = self;
        item.metadata.insert(key.to_owned(), value);
        item
    }

    /// The input of the agent that is asked.
    pub fn messages(&self) -> (messages: Vec<Message>)
        ensures
            messages.deep_view() == seq![text_message(Role::User, self@.query)],
    {
        let mut messages: Vec<Message> = Vec::new();
        messages.push(Message::user(self.query.as_str()));
        assert(messages.deep_view() =~= seq![text_message(Role::User, self@.query)]);
        messages
    }
}

// ---------------------------------------------------------------------------
// Scores
// ---------------------------------------------------------------------------

/// A number that an answer is given.
#[derive(Debug, Clone, Copy, PartialEq, Eq, Structural)]
pub enum Score {
    /// So many out of so many.
    Ratio { matched: usize, total: usize },
    /// A number in the 64 bits of its binary form.
    Binary { bits: u64 },
}

/// The score of one evaluator for one answer.
#[derive(Debug)]
pub struct EvalScore {
    /// The number.
    pub score: Score,
    /// Whether the answer is good enough.
    pub passed: bool,
    /// Why the score is what it is.
    pub reason: Option<String>,
}

/// What a score holds.
#[verifier::ext_equal]
pub struct EvalScoreView {
    pub score: Score,
    pub passed: bool,
    pub reason: Option<Seq<char>>,
}

impl View for EvalScore {
    type V = EvalScoreView;

    open spec fn view(&self) -> EvalScoreView {
        EvalScoreView { score: self.score, passed: self.passed, reason: self.reason.deep_view() }
    }
}

impl DeepView for EvalScore {
    type V = EvalScoreView;

    open spec fn deep_view(&self) -> EvalScoreView {
        self@
    }
}

/// A score that passes.
pub open spec fn passing(score: Score) -> EvalScoreView {
    EvalScoreView { score, passed: true, reason: None }
}

/// A score that does not pass.
pub open spec fn failing(score: Score, reason: Seq<char>) -> EvalScoreView {
    EvalScoreView { score, passed: false, reason: Some(reason) }
}

impl EvalScore {
    /// A score that passes.
    pub fn pass(score: Score) -> (result: Self)
        ensures
            result@ == passing(score),
    {
        EvalScore { score, passed: true, reason: None }
    }

    /// A score that does not pass, with the reason.
    pub fn fail(score: Score, reason: &str) -> (result: Self)
        ensures
            result@ == failing(score, reason@),
    {
        EvalScore { score, passed: false, reason: Some(reason.to_owned()) }
    }
}

/// An answer with its scores.
#[derive(Debug)]
pub struct EvalItemResult {
    /// The question.
    pub item: EvalItem,
    /// The answer.
    pub response: AgentResponse,
    /// The scores by the names of the evaluators.
    pub scores: Table<EvalScore>,
}

/// What an answer with its scores holds.
#[verifier::ext_equal]
pub struct EvalItemResultView {
    pub item: EvalItemView,
    pub response: AgentResponseView,
    pub scores: Map<Seq<char>, EvalScoreView>,
}

impl View for EvalItemResult {
    type V = EvalItemResultView;

    open spec fn view(&self) -> EvalItemResultView {
        EvalItemResultView { item: self.item@, response: self.response@, scores: self.scores@ }
    }
}

impl DeepView for EvalItemResult {
    type V = EvalItemResultView;

    open spec fn deep_view(&self) -> EvalItemResultView {
        self@
    }
}

/// Whether every score passes.
pub open spec fn all_pass(scores: Map<Seq<char>, EvalScoreView>) -> bool {
    forall|name: Seq<char>| #[trigger] scores.dom().contains(name) ==> scores[name].passed
}

/// The scores after evaluators have spoken one after the other: the last one of a name
/// counts.
pub open spec fn collected(scores: Seq<(Seq<char>, EvalScoreView)>) -> Map<Seq<char>, EvalScoreView>
    decreases scores.len(),
{
    if scores.len() == 0 {
        Map::empty()
    } else {
        collected(scores.drop_last()).insert(scores.last().0, scores.last().1)
    }
}

impl EvalItemResult {
    /// An answer with the scores that evaluators gave it.
    pub fn of_scores(item: EvalItem, response: AgentResponse, scores: Vec<(String, EvalScore)>) -> (result: Self)
        ensures
            result@ == (EvalItemResultView {
                item: item@,
                response: response@,
                scores: collected(scores.deep_view()),
            }),
    {
        let ghost all = scores.deep_view();
        let mut rest = scores;
        let mut table: Table<EvalScore> = Table::new();
        let ghost mut done: int = 0;
        assert(all.take(0) =~= Seq::empty());
        assert(all.skip(0) =~= all);
        while rest.len() > 0
            invariant
                0 <= done <= all.len(),
                rest.deep_view() == all.skip(done),
                table@ == collected(all.take(done)),
            decreases rest@.len(),
        {
            let ghost before = rest.deep_view();
            let (name, score) = rest.remove(0);
            assert(before[0] == (name@, score@));
            assert(rest.deep_view() =~= before.skip(1));
            assert(all.take(done + 1).drop_last() =~= all.take(done));
            table.insert(name.as_str(), score);
            proof {
                done = done + 1;
            }
            assert(rest.deep_view() =~= all.skip(done));
        }
        assert(rest.deep_view().len() == 0);
        assert(all.take(done) =~= all);
        EvalItemResult { item, response, scores: table }
    }

    /// Whether the answer passed all evaluators.
    pub fn passed(&self) -> (passed: bool)
        ensures
            passed == all_pass(self@.scores),
    {
        let mut i: usize = 0;
        while i < self.scores.entries.len()
            invariant
                i <= self.scores.entries@.len(),
                forall|j: int|
                    0 <= j < i ==> self@.scores[(#[trigger] self.scores.entries@[j]).0@].passed,
            decreases self.scores.entries@.len() - i,
        {
            let ghost name = self.scores.entries@[i as int].0@;
            proof {
                lemma_table_dom(self.scores.entries@, name);
            }
            assert(self@.scores.dom().contains(name));
            if let Some(score) = self.scores.get(self.scores.entries[i].0.as_str()) {
                if !score.passed {
                    assert(!self@.scores[name].passed);
                    return false;
                }
            }
            i += 1;
        }
        assert forall|name: Seq<char>| #[trigger] self@.scores.dom().contains(name) implies self@.scores[name].passed by {
            lemma_table_dom(self.scores.entries@, name);
            let j = choose|j: int| 0 <= j < self.scores.entries@.len() && (#[trigger] self.scores.entries@[j]).0@ == name;
            assert(self@.scores[self.scores.entries@[j].0@].passed);
        }
        true
    }

    /// Whether the answer failed an evaluator.
    pub fn failed(&self) -> (failed: bool)
        ensures
            failed == !all_pass(self@.scores),
    {
        !self.passed()
    }
}

/// The results of an evaluation.
#[derive(Debug)]
pub struct EvalResults {
    /// The answers with their scores.
    pub items: Vec<EvalItemResult>,
}

impl View for EvalResults {
    type V = Seq<EvalItemResultView>;

    open spec fn view(&self) -> Seq<EvalItemResultView> {
        self.items.deep_view()
    }
}

/// How many answers passed all evaluators.
pub open spec fn count_passed(items: Seq<EvalItemResultView>) -> nat
    decreases items.len(),
{
    if items.len() == 0 {
        0
    } else {
        count_passed(items.drop_last()) + if all_pass(items.last().scores) {
            1nat
        } else {
            0nat
        }
    }
}

/// How many answers failed an evaluator.
pub open spec fn count_failed(items: Seq<EvalItemResultView>) -> nat
    decreases items.len(),
{
    if items.len() == 0 {
        0
    } else {
        count_failed(items.drop_last()) + if all_pass(items.last().scores) {
            0nat
        } else {
            1nat
        }
    }
}

/// The fraction of answers that passed, nothing where there are none.
pub open spec fn rate_of(items: Seq<EvalItemResultView>) -> Score {
    if items.len() == 0 {
        Score::Ratio { matched: 0, total: 1 }
    } else {
        Score::Ratio { matched: count_passed(items) as usize, total: items.len() as usize }
    }
}

/// The scores of one evaluator, in the order of the answers.
pub open spec fn scores_named(items: Seq<EvalItemResultView>, name: Seq<char>) -> Seq<Score>
    decreases items.len(),
{
    if items.len() == 0 {
        Seq::empty()
    } else if items.last().scores.dom().contains(name) {
        scores_named(items.drop_last(), name).push(items.last().scores[name].score)
    } else {
        scores_named(items.drop_last(), name)
    }
}

/// Each answer passes or fails. All of them pass where none fails.
pub proof fn law_each_passes_or_fails(items: Seq<EvalItemResultView>)
    ensures
        count_passed(items) + count_failed(items) == items.len(),
        count_failed(items) == 0 <==> forall|i: int| 0 <= i < items.len() ==> all_pass((#[trigger] items[i]).scores),
    decreases items.len(),
{
    if items.len() > 0 {
        let rest = items.drop_last();
        law_each_passes_or_fails(rest);
        if forall|i: int| 0 <= i < items.len() ==> all_pass((#[trigger] items[i]).scores) {
            assert forall|i: int| 0 <= i < rest.len() implies all_pass((#[trigger] rest[i]).scores) by {
                assert(rest[i] == items[i]);
            }
            assert(all_pass(items[items.len() - 1].scores));
        }
        if count_failed(items) == 0 {
            assert forall|i: int| 0 <= i < items.len() implies all_pass((#[trigger] items[i]).scores) by {
                if i < rest.len() {
                    assert(rest[i] == items[i]);
                }
            }
        }
    }
}

impl EvalResults {
    /// No results.
    pub fn new() -> (results: Self)
        ensures
            results@ == Seq::<EvalItemResultView>::empty(),
    {
        let results = EvalResults { items: Vec::new() };
        assert(results@ =~= Seq::empty());
        results
    }

    /// Add an answer with its scores.
    pub fn add(&mut self, result: EvalItemResult)
        ensures
            final(self)@ == old(self)@.push(result@),
    {
        let ghost before = self@;
        let ghost pushed = result@;
        self.items.push(result);
        assert(self@ =~= before.push(pushed));
    }

    /// The number of answers.
    pub fn total(&self) -> (n: usize)
        ensures
            n == self@.len(),
    {
        self.items.len()
    }

    /// The number of answers that passed all evaluators.
    pub fn passed_count(&self) -> (n: usize)
        ensures
            n == count_passed(self@),
            n <= self@.len(),
    {
        let ghost all = self@;
        let mut n: usize = 0;
        let mut i: usize = 0;
        while i < self.items.len()
            invariant
                i <= self.items@.len(),
                all == self.items.deep_view(),
                n == count_passed(all.take(i as int)),
                n <= i,
            decreases self.items@.len() - i,
        {
            assert(all.take(i + 1).drop_last() =~= all.take(i as int));
            assert(all[i as int] == self.items@[i as int]@);
            if self.items[i].passed() {
                n += 1;
            }
            i += 1;
        }
        assert(all.take(i as int) =~= all);
        n
    }

    /// The number of answers that failed an evaluator.
    pub fn failed_count(&self) -> (n: usize)
        ensures
            n == count_failed(self@),
    {
        proof {
            law_each_passes_or_fails(self@);
        }
        self.items.len() - self.passed_count()
    }

    /// Whether there are answers and all of them passed all evaluators.
    pub fn all_passed(&self) -> (all: bool)
        ensures
            all == (self@.len() > 0 && forall|i: int| 0 <= i < self@.len() ==> all_pass((#[trigger] self@[i]).scores)),
    {
        proof {
            law_each_passes_or_fails(self@);
        }
        self.items.len() > 0 && self.failed_count() == 0
    }

    /// The fraction of answers that passed all evaluators.
    pub fn pass_rate(&self) -> (rate: Score)
        ensures
            rate == rate_of(self@),
    {
        if self.items.len() == 0 {
            return Score::Ratio { matched: 0, total: 1 };
        }
        Score::Ratio { matched: self.passed_count(), total: self.items.len() }
    }

    /// The scores of one evaluator, in the order of the answers.
    pub fn scores_for(&self, evaluator_name: &str) -> (scores: Vec<Score>)
        ensures
            scores@ == scores_named(self@, evaluator_name@),
    {
        let ghost all = self@;
        let mut scores: Vec<Score> = Vec::new();
        let mut i: usize = 0;
        while i < self.items.len()
            invariant
                i <= self.items@.len(),
                all == self.items.deep_view(),
                scores@ == scores_named(all.take(i as int), evaluator_name@),
            decreases self.items@.len() - i,
        {
            assert(all.take(i + 1).drop_last() =~= all.take(i as int));
            assert(all[i as int] == self.items@[i as int]@);
            if let Some(score) = self.items[i].scores.get(evaluator_name) {
                scores.push(score.score);
            }
            i += 1;
        }
        assert(all.take(i as int) =~= all);
        scores
    }
}

impl Default for EvalResults {
    fn default() -> (results: Self)
        ensures
            results@ == Seq::<EvalItemResultView>::empty(),
    {
        Self::new()
    }
}

// ---------------------------------------------------------------------------
// Evaluators
// ---------------------------------------------------------------------------

/// Who scores an answer.
pub trait Evaluator {
    /// The name under which the score is kept.
    fn name(&self) -> (name: &str);

    /// Score an answer.
    fn evaluate(&self, item: &EvalItem, response: &AgentResponse) -> (result: AgentResult<EvalScore>);
}

/// The score where some of what was asked for is missing.
pub open spec fn score_of_missing(asked: nat, missing: Seq<Seq<char>>, reason: Seq<char>) -> EvalScoreView {
    if asked == 0 {
        passing(Score::Ratio { matched: 1, total: 1 })
    } else if missing.len() == 0 {
        passing(Score::Ratio { matched: asked as usize, total: asked as usize })
    } else {
        failing(
            Score::Ratio { matched: (asked - missing.len()) as usize, total: asked as usize },
            reason + joined(missing, ", "@),
        )
    }
}

fn score_missing(asked: usize, missing: &Vec<String>, reason: &str) -> (score: EvalScore)
    requires
        missing@.len() <= asked,
    ensures
        score@ == score_of_missing(asked as nat, missing.deep_view(), reason@),
{
    if asked == 0 {
        EvalScore::pass(Score::Ratio { matched: 1, total: 1 })
    } else if missing.len() == 0 {
        EvalScore::pass(Score::Ratio { matched: asked, total: asked })
    } else {
        EvalScore::fail(
            Score::Ratio { matched: asked - missing.len(), total: asked },
            cat2(reason, join(missing, ", ").as_str()).as_str(),
        )
    }
}

/// The keywords that do not stand in a text, where each keyword and the text are
/// compared in the forms that are given.
pub open spec fn missing_keywords(
    keywords: Seq<Seq<char>>,
    forms: Seq<Seq<char>>,
    text: Seq<char>,
) -> Seq<Seq<char>>
    decreases keywords.len(),
{
    if keywords.len() == 0 {
        Seq::empty()
    } else {
        let before = missing_keywords(keywords.drop_last(), forms, text);
        if contains_text(text, forms[keywords.len() - 1]) {
            before
        } else {
            before.push(keywords.last())
        }
    }
}

/// The texts in lower case.
pub open spec fn lowered(texts: Seq<Seq<char>>) -> Seq<Seq<char>> {
    Seq::new(texts.len(), |i: int| lowercase(texts[i]))
}

/// The score of a text for keywords, where each keyword and the text are compared in
/// the forms that are given.
pub fn keyword_score(keywords: &Vec<String>, forms: &Vec<String>, text: &str) -> (score: EvalScore)
    requires
        keywords@.len() == forms@.len(),
    ensures
        score@ == score_of_missing(
            keywords@.len(),
            missing_keywords(keywords.deep_view(), forms.deep_view(), text@),
            "missing keywords: "@,
        ),
{
    let ghost all = keywords.deep_view();
    let mut missing: Vec<String> = Vec::new();
    let mut i: usize = 0;
    assert(missing.deep_view() =~= Seq::empty());
    while i < keywords.len()
        invariant
            i <= keywords@.len(),
            keywords@.len() == forms@.len(),
            all == keywords.deep_view(),
            missing@.len() <= i,
            missing.deep_view() == missing_keywords(all.take(i as int), forms.deep_view(), text@),
        decreases keywords@.len() - i,
    {
        let ghost before = missing.deep_view();
        assert(all.take(i + 1).drop_last() =~= all.take(i as int));
        assert(forms.deep_view()[i as int] == forms@[i as int]@);
        if !contains(text, forms[i].as_str()) {
            missing.push(keywords[i].clone());
            assert(missing.deep_view() =~= before.push(all[i as int]));
        }
        i += 1;
    }
    assert(all.take(i as int) =~= all);
    score_missing(keywords.len(), &missing, "missing keywords: ")
}

/// Scores an answer by the keywords in it, whatever their case.
#[derive(Debug)]
pub struct KeywordCheckEvaluator {
    /// The keywords.
    pub keywords: Vec<String>,
}

impl KeywordCheckEvaluator {
    /// Score by keywords.
    pub fn new(keywords: Vec<String>) -> (evaluator: Self)
        ensures
            evaluator.keywords@ == keywords@,
    {
        KeywordCheckEvaluator { keywords }
    }
}

impl Evaluator for KeywordCheckEvaluator {
    fn name(&self) -> (name: &str)
        ensures
            name@ == "keyword_check"@,
    {
        "keyword_check"
    }

    fn evaluate(&self, item: &EvalItem, response: &AgentResponse) -> (result: AgentResult<EvalScore>)
        ensures
            result is Ok,
            result->Ok_0@ == score_of_missing(
                self.keywords@.len(),
                missing_keywords(
                    self.keywords.deep_view(),
                    lowered(self.keywords.deep_view()),
                    lowercase(response@.text),
                ),
                "missing keywords: "@,
            ),
    {
        let ghost all = self.keywords.deep_view();
        let text = to_lowercase(response.text.as_str());
        let mut forms: Vec<String> = Vec::new();
        let mut i: usize = 0;
        while i < self.keywords.len()
            invariant
                i <= self.keywords@.len(),
                i == forms@.len(),
                all == self.keywords.deep_view(),
                forall|j: int| 0 <= j < i ==> (#[trigger] forms@[j])@ == lowercase(all[j]),
            decreases self.keywords@.len() - i,
        {
            assert(all[i as int] == self.keywords@[i as int]@);
            forms.push(to_lowercase(self.keywords[i].as_str()));
            i += 1;
        }
        assert(forms.deep_view() =~= lowered(all));
        Ok(keyword_score(&self.keywords, &forms, text.as_str()))
    }
}

/// Whether one of the calls is the expected one.
pub open spec fn is_called(expected: ExpectedView, calls: Seq<(Seq<char>, Seq<char>, JsonView)>) -> bool {
    exists|i: int| 0 <= i < calls.len() && meets(#[trigger] calls[i], expected)
}

/// Whether a call is the expected one.
pub open spec fn meets(call: (Seq<char>, Seq<char>, JsonView), expected: ExpectedView) -> bool {
    call.1 == expected.name && (expected.args is Some ==> same_value(call.2, expected.args->Some_0))
}

/// The names of the expected calls that were not made.
pub open spec fn missing_calls(
    expected: Seq<ExpectedView>,
    calls: Seq<(Seq<char>, Seq<char>, JsonView)>,
) -> Seq<Seq<char>>
    decreases expected.len(),
{
    if expected.len() == 0 {
        Seq::empty()
    } else {
        let before = missing_calls(expected.drop_last(), calls);
        if is_called(expected.last(), calls) {
            before
        } else {
            before.push(expected.last().name)
        }
    }
}

/// Scores an answer by the tools that were called.
#[derive(Debug)]
pub struct ToolCalledEvaluator;

impl Evaluator for ToolCalledEvaluator {
    fn name(&self) -> (name: &str)
        ensures
            name@ == "tool_called"@,
    {
        "tool_called"
    }

    fn evaluate(&self, item: &EvalItem, response: &AgentResponse) -> (result: AgentResult<EvalScore>)
        ensures
            result is Ok,
            result->Ok_0@ == score_of_missing(
                item@.expected_tool_calls.len(),
                missing_calls(item@.expected_tool_calls, calls_in(response@.messages)),
                "tools not called: "@,
            ),
    {
        let calls = collect_calls(&response.messages);
        let ghost made = calls.deep_view();
        let ghost all = item@.expected_tool_calls;
        let mut missing: Vec<String> = Vec::new();
        let mut i: usize = 0;
        assert(missing.deep_view() =~= Seq::empty());
        while i < item.expected_tool_calls.len()
            invariant
                i <= item.expected_tool_calls@.len(),
                all == item.expected_tool_calls.deep_view(),
                made == calls.deep_view(),
                missing@.len() <= i,
                missing.deep_view() == missing_calls(all.take(i as int), made),
            decreases item.expected_tool_calls@.len() - i,
        {
            let ghost before = missing.deep_view();
            let expected = &item.expected_tool_calls[i];
            assert(all.take(i + 1).drop_last() =~= all.take(i as int));
            assert(all[i as int] == expected@);
            let mut found = false;
            let mut k: usize = 0;
            while k < calls.len()
                invariant
                    k <= calls@.len(),
                    made == calls.deep_view(),
                    found == exists|j: int| 0 <= j < k && meets(#[trigger] made[j], expected@),
                decreases calls@.len() - k,
            {
                assert(made[k as int] == calls@[k as int].deep_view());
                let same = match &expected.args {
                    Some(args) => calls[k].arguments.same(args),
                    None => true,
                };
                if str_eq(calls[k].name.as_str(), expected.name.as_str()) && same {
                    assert(meets(made[k as int], expected@));
                    found = true;
                }
                k += 1;
            }
            if !found {
                missing.push(expected.name.clone());
                assert(missing.deep_view() =~= before.push(all[i as int].name));
            }
            i += 1;
        }
        assert(all.take(i as int) =~= all);
        Ok(score_missing(item.expected_tool_calls.len(), &missing, "tools not called: "))
    }
}

/// Scores whether an answer has a text.
#[derive(Debug)]
pub struct ResponseNotEmptyEvaluator;

impl Evaluator for ResponseNotEmptyEvaluator {
    fn name(&self) -> (name: &str)
        ensures
            name@ == "response_not_empty"@,
    {
        "response_not_empty"
    }

    fn evaluate(&self, item: &EvalItem, response: &AgentResponse) -> (result: AgentResult<EvalScore>)
        ensures
            result is Ok,
            result->Ok_0@ == if trimmed(response@.text).len() == 0 {
                failing(Score::Ratio { matched: 0, total: 1 }, "response is empty"@)
            } else {
                passing(Score::Ratio { matched: 1, total: 1 })
            },
    {
        if trim(response.text.as_str()).as_str().is_empty() {
            Ok(EvalScore::fail(Score::Ratio { matched: 0, total: 1 }, "response is empty"))
        } else {
            Ok(EvalScore::pass(Score::Ratio { matched: 1, total: 1 }))
        }
    }
}

/// An evaluator that is made of a function.
pub struct ClosureEvaluator<F> {
    pub eval_name: String,
    pub func: F,
}

/// An evaluator that scores by a function.
pub fn evaluator_fn<F: Fn(&EvalItem, &AgentResponse) -> AgentResult<EvalScore>>(
    name: &str,
    func: F,
) -> (evaluator: ClosureEvaluator<F>)
    ensures
        evaluator.eval_name@ == name@,
        evaluator.func == func,
{
    ClosureEvaluator { eval_name: name.to_owned(), func }
}

impl<F: Fn(&EvalItem, &AgentResponse) -> AgentResult<EvalScore>> ClosureEvaluator<F> {
    /// The name under which the score is kept.
    pub fn name(&self) -> (name: &str)
        ensures
            name@ == self.eval_name@,
    {
        self.eval_name.as_str()
    }

    /// Score an answer by the function.
    pub fn evaluate(&self, item: &EvalItem, response: &AgentResponse) -> (result: AgentResult<EvalScore>)
        requires
            self.func.requires((item, response)),
        ensures
            self.func.ensures((item, response), result),
    {
        (self.func)(item, response)
    }
}

/// A call that was made with the expected arguments also counts where only its name is
/// expected.
pub proof fn law_names_are_weaker(
    name: Seq<char>,
    args: JsonView,
    calls: Seq<(Seq<char>, Seq<char>, JsonView)>,
)
    requires
        is_called(ExpectedView { name, args: Some(args) }, calls),
    ensures
        is_called(ExpectedView { name, args: None }, calls),
{
    let i = choose|i: int| 0 <= i < calls.len() && meets(#[trigger] calls[i], ExpectedView { name, args: Some(args) });
    assert(meets(calls[i], ExpectedView { name, args: None }));
}

/// A call with other arguments than the expected ones does not count: where those have
/// no floating-point numbers, one of the calls has the expected name and exactly the
/// expected arguments, or the call is missing.
pub proof fn law_other_arguments_do_not_count(
    expected: ExpectedView,
    calls: Seq<(Seq<char>, Seq<char>, JsonView)>,
)
    requires
        expected.args is Some,
        has_no_floats(expected.args->Some_0),
    ensures
        is_called(expected, calls) <==> exists|i: int|
            0 <= i < calls.len() && (#[trigger] calls[i]).1 == expected.name && calls[i].2 == expected.args->Some_0,
        missing_calls(seq![expected], calls) == if is_called(expected, calls) {
            Seq::empty()
        } else {
            seq![expected.name]
        },
{
    let args = expected.args->Some_0;
    if is_called(expected, calls) {
        let i = choose|i: int| 0 <= i < calls.len() && meets(#[trigger] calls[i], expected);
        lemma_same_value_symmetric(calls[i].2, args);
        law_same_values_are_equal(args, calls[i].2);
        assert(calls[i].1 == expected.name && calls[i].2 == args);
    }
    if exists|i: int| 0 <= i < calls.len() && (#[trigger] calls[i]).1 == expected.name && calls[i].2 == args {
        let i = choose|i: int| 0 <= i < calls.len() && (#[trigger] calls[i]).1 == expected.name && calls[i].2 == args;
        law_same_values_are_equal(calls[i].2, args);
        assert(meets(calls[i], expected));
    }
    let one = seq![expected];
    assert(one.drop_last() =~= Seq::empty());
    assert(missing_calls(one.drop_last(), calls) =~= Seq::empty());
    assert(missing_calls(one, calls) =~= if is_called(expected, calls) {
        Seq::empty()
    } else {
        seq![expected.name]
    });
}

/// An answer passes for keywords exactly where each of them stands in it, in the forms
/// that are compared.
pub proof fn law_all_keywords_pass(keywords: Seq<Seq<char>>, forms: Seq<Seq<char>>, text: Seq<char>)
    requires
        keywords.len() == forms.len(),
    ensures
        score_of_missing(
            keywords.len(),
            missing_keywords(keywords, forms, text),
            "missing keywords: "@,
        ).passed <==> forall|i: int| 0 <= i < forms.len() ==> contains_text(text, #[trigger] forms[i]),
{
    lemma_none_missing(keywords, forms, text);
}

proof fn lemma_none_missing(keywords: Seq<Seq<char>>, forms: Seq<Seq<char>>, text: Seq<char>)
    requires
        keywords.len() <= forms.len(),
    ensures
        missing_keywords(keywords, forms, text).len() == 0 <==> forall|i: int|
            0 <= i < keywords.len() ==> contains_text(text, #[trigger] forms[i]),
    decreases keywords.len(),
{
    if keywords.len() > 0 {
        lemma_none_missing(keywords.drop_last(), forms, text);
        if forall|i: int| 0 <= i < keywords.len() ==> contains_text(text, #[trigger] forms[i]) {
            assert(contains_text(text, forms[keywords.len() - 1]));
        }
        if missing_keywords(keywords, forms, text).len() == 0 {
            assert forall|i: int| 0 <= i < keywords.len() implies contains_text(text, #[trigger] forms[i]) by {
                if i < keywords.len() - 1 {
                    assert(contains_text(text, forms[i]));
                }
            }
        }
    }
}

// ---------------------------------------------------------------------------
// What scores say
// ---------------------------------------------------------------------------

/// A score that passes has no reason, one that does not has one. Where nothing was asked
/// for the score is full; else it is the number of what is there out of all that was
/// asked for, it passes exactly if nothing is missing, and the reason names what is.
pub proof fn law_scores_tell_what_is_missing(asked: nat, missing: Seq<Seq<char>>, reason: Seq<char>, score: Score)
    requires
        missing.len() <= asked <= usize::MAX,
    ensures
        passing(score).score == score && passing(score).passed && passing(score).reason is None,
        failing(score, reason).score == score && !failing(score, reason).passed && failing(score, reason).reason
            == Some(reason),
        ({
            let given = score_of_missing(asked, missing, reason);
            &&& given.passed <==> missing.len() == 0 || asked == 0
            &&& asked == 0 ==> given.score == (Score::Ratio { matched: 1, total: 1 })
            &&& asked > 0 ==> {
                &&& given.score is Ratio
                &&& given.score->total == asked
                &&& given.score->matched + missing.len() == asked
            }
            &&& given.passed ==> given.reason is None
            &&& !given.passed ==> given.reason == Some(reason + joined(missing, ", "@))
        }),
{
}

/// A keyword is missing exactly if it does not stand in the text, in the form that is
/// compared, and the missing ones are named in their order.
pub proof fn law_missing_keywords_are_named(
    keywords: Seq<Seq<char>>,
    keyword: Seq<char>,
    forms: Seq<Seq<char>>,
    text: Seq<char>,
)
    requires
        keywords.len() < forms.len(),
    ensures
        missing_keywords(Seq::empty(), forms, text).len() == 0,
        missing_keywords(keywords, forms, text).len() <= keywords.len(),
        contains_text(text, forms[keywords.len() as int]) ==> missing_keywords(keywords.push(keyword), forms, text)
            == missing_keywords(keywords, forms, text),
        !contains_text(text, forms[keywords.len() as int]) ==> missing_keywords(keywords.push(keyword), forms, text)
            == missing_keywords(keywords, forms, text).push(keyword),
        lowered(keywords).len() == keywords.len(),
        forall|i: int| 0 <= i < keywords.len() ==> #[trigger] lowered(keywords)[i] == lowercase(keywords[i]),
    decreases keywords.len(),
{
    assert(keywords.push(keyword).drop_last() =~= keywords);
    if keywords.len() > 0 {
        law_missing_keywords_are_named(keywords.drop_last(), keyword, forms, text);
    }
}

/// An expected call is missing exactly if no call has its name and, where arguments are
/// expected, the same arguments; and the missing ones are named in their order.
pub proof fn law_missing_calls_are_named(
    first: Seq<ExpectedView>,
    expected: ExpectedView,
    calls: Seq<(Seq<char>, Seq<char>, JsonView)>,
)
    ensures
        missing_calls(Seq::empty(), calls).len() == 0,
        missing_calls(first, calls).len() <= first.len(),
        ({
            let made = exists|i: int|
                0 <= i < calls.len() && (#[trigger] calls[i]).1 == expected.name && (expected.args is None
                    || same_value(calls[i].2, expected.args->Some_0));
            missing_calls(first.push(expected), calls) == if made {
                missing_calls(first, calls)
            } else {
                missing_calls(first, calls).push(expected.name)
            }
        }),
    decreases first.len(),
{
    assert(first.push(expected).drop_last() =~= first);
    if first.len() > 0 {
        law_missing_calls_are_named(first.drop_last(), expected, calls);
    }
    let made = exists|i: int|
        0 <= i < calls.len() && (#[trigger] calls[i]).1 == expected.name && (expected.args is None || same_value(
            calls[i].2,
            expected.args->Some_0,
        ));
    if made {
        let i = choose|i: int|
            0 <= i < calls.len() && (#[trigger] calls[i]).1 == expected.name && (expected.args is None || same_value(
                calls[i].2,
                expected.args->Some_0,
            ));
        assert(meets(calls[i], expected));
    }
    if is_called(expected, calls) {
        let i = choose|i: int| 0 <= i < calls.len() && meets(#[trigger] calls[i], expected);
        assert(calls[i].1 == expected.name);
    }
}

/// Of evaluators of one name the last one counts, and the others keep their scores; an
/// answer passes exactly if all scores that it has pass.
pub proof fn law_scores_are_collected(
    first: Seq<(Seq<char>, EvalScoreView)>,
    name: Seq<char>,
    score: EvalScoreView,
    other: Seq<char>,
)
    requires
        other != name,
    ensures
        collected(Seq::empty()) == Map::<Seq<char>, EvalScoreView>::empty(),
        collected(first.push((name, score))).dom().contains(name),
        collected(first.push((name, score)))[name] == score,
        collected(first.push((name, score))).dom().contains(other) <==> collected(first).dom().contains(other),
        collected(first).dom().contains(other) ==> collected(first.push((name, score)))[other] == collected(
            first,
        )[other],
        !score.passed ==> !all_pass(collected(first.push((name, score)))),
        score.passed && all_pass(collected(first)) ==> all_pass(collected(first.push((name, score)))),
{
    assert(first.push((name, score)).drop_last() =~= first);
    let all = collected(first.push((name, score)));
    assert(all.dom().contains(name));
    if score.passed && all_pass(collected(first)) {
        assert forall|n: Seq<char>| #[trigger] all.dom().contains(n) implies all[n].passed by {
            if n != name {
                assert(collected(first).dom().contains(n));
            }
        }
    }
}

/// The results of an evaluation count each answer once: it is among those that passed
/// or those that failed, and an evaluator's scores are those of the answers it scored.
pub proof fn law_results_are_counted(items: Seq<EvalItemResultView>, item: EvalItemResultView, name: Seq<char>)
    requires
        items.len() < usize::MAX,
    ensures
        count_passed(Seq::empty()) == 0,
        count_failed(Seq::empty()) == 0,
        all_pass(item.scores) ==> count_passed(items.push(item)) == count_passed(items) + 1 && count_failed(
            items.push(item),
        ) == count_failed(items),
        !all_pass(item.scores) ==> count_passed(items.push(item)) == count_passed(items) && count_failed(
            items.push(item),
        ) == count_failed(items) + 1,
        rate_of(Seq::empty()) == (Score::Ratio { matched: 0, total: 1 }),
        rate_of(items.push(item)) is Ratio,
        rate_of(items.push(item))->matched == count_passed(items.push(item)),
        rate_of(items.push(item))->total == items.len() + 1,
        scores_named(Seq::empty(), name).len() == 0,
        scores_named(items.push(item), name) == if item.scores.dom().contains(name) {
            scores_named(items, name).push(item.scores[name].score)
        } else {
            scores_named(items, name)
        },
{
    assert(items.push(item).drop_last() =~= items);
    law_each_passes_or_fails(items.push(item));
}

/// A plain question expects nothing, and the models of questions and scores have all
/// that these hold.
pub proof fn law_items(query: Seq<char>, item: EvalItem, score: EvalScore, expected: ExpectedToolCall, result: EvalItemResult)
    ensures
        plain_item(query).query == query,
        plain_item(query).expected_response is None,
        plain_item(query).expected_tool_calls.len() == 0,
        plain_item(query).metadata == Map::<Seq<char>, JsonView>::empty(),
        item@.query == item.query@,
        item@.expected_response == item.expected_response.deep_view(),
        item@.expected_tool_calls == item.expected_tool_calls.deep_view(),
        item@.metadata == item.metadata@,
        score@.score == score.score,
        score@.passed == score.passed,
        score@.reason == score.reason.deep_view(),
        expected@.name == expected.name@,
        expected@.args == expected.args.deep_view(),
        result@.item == result.item@,
        result@.response == result.response@,
        result@.scores == result.scores@,
{
}

} // verus!
