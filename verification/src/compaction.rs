//! Strategies that shorten a conversation so that it fits the model's context window.

use vstd::prelude::*;

use crate::error::{outcome_view, AgentResult, ErrorView};
use crate::json::rendered;
use crate::text::{cat2, cat3, chars_of, decimal, decimal_of, joined, push_joined, string_of};
use crate::types::{
    clone_messages, law_text_message_says_its_text, push_texts, text_message, text_of, texts_of, ChatResponse,
    Content, ContentView, Message, MessageView, Role,
};

verus! {

// ---------------------------------------------------------------------------
// Tokenizer
// ---------------------------------------------------------------------------

/// An estimate of how many tokens a text takes.
pub trait Tokenizer {
    /// The number of tokens that the tokenizer counts in a text.
    spec fn tokens(&self, text: Seq<char>) -> nat;

    /// Estimate the number of tokens in the given text.
    fn count_tokens(&self, text: &str) -> (n: usize)
        ensures
            n == self.tokens(text@),
    ;
}

/// A simple tokenizer that takes about four characters for a token.
#[derive(Debug, Clone, Copy)]
pub struct CharEstimatorTokenizer {
    chars_per_token: usize,
}

impl CharEstimatorTokenizer {
    /// How many characters of text make one token.
    pub closed spec fn per_token(&self) -> nat {
        if self.chars_per_token == 0 {
            1
        } else {
            self.chars_per_token as nat
        }
    }

    /// A tokenizer that takes the given number of characters for a token, at least one.
    pub fn new(chars_per_token: usize) -> (tokenizer: Self)
        ensures
            tokenizer.per_token() == if chars_per_token == 0 {
                1
            } else {
                chars_per_token as int
            },
    {
        CharEstimatorTokenizer {
            chars_per_token: if chars_per_token == 0 {
                1
            } else {
                chars_per_token
            },
        }
    }
}

impl Default for CharEstimatorTokenizer {
    fn default() -> (tokenizer: Self)
        ensures
            tokenizer.per_token() == 4,
    {
        CharEstimatorTokenizer { chars_per_token: 4 }
    }
}

/// The quotient rounded up.
pub open spec fn ceil_div(n: nat, d: nat) -> nat {
    if n % d == 0 {
        n / d
    } else {
        n / d + 1
    }
}

impl Tokenizer for CharEstimatorTokenizer {
    open spec fn tokens(&self, text: Seq<char>) -> nat {
        ceil_div(text.len(), self.per_token())
    }

    fn count_tokens(&self, text: &str) -> (n: usize) {
        let len: usize = chars_of(text).len();
        let per: usize = if self.chars_per_token == 0 {
            1
        } else {
            self.chars_per_token
        };
        let whole: usize = len / per;
        assert(whole <= len) by (nonlinear_arith)
            requires
                whole == len / per,
                per >= 1,
        ;
        if len % per == 0 {
            whole
        } else {
            assert(whole < len) by (nonlinear_arith)
                requires
                    whole == len / per,
                    len % per != 0,
                    per >= 1,
            ;
            whole + 1
        }
    }
}

// ---------------------------------------------------------------------------
// System messages and the others
// ---------------------------------------------------------------------------

/// The system messages, in order.
pub open spec fn systems(messages: Seq<MessageView>) -> Seq<MessageView>
    decreases messages.len(),
{
    if messages.len() == 0 {
        Seq::empty()
    } else if messages.last().role == Role::System {
        systems(messages.drop_last()).push(messages.last())
    } else {
        systems(messages.drop_last())
    }
}

/// The messages that are no system messages, in order.
pub open spec fn others(messages: Seq<MessageView>) -> Seq<MessageView>
    decreases messages.len(),
{
    if messages.len() == 0 {
        Seq::empty()
    } else if messages.last().role == Role::System {
        others(messages.drop_last())
    } else {
        others(messages.drop_last()).push(messages.last())
    }
}

/// Part the messages into the system messages and the others.
fn part(messages: &Vec<Message>) -> (parts: (Vec<Message>, Vec<Message>))
    ensures
        parts.0.deep_view() == systems(messages.deep_view()),
        parts.1.deep_view() == others(messages.deep_view()),
{
    let mut system: Vec<Message> = Vec::new();
    let mut rest: Vec<Message> = Vec::new();
    let ghost all = messages.deep_view();
    assert(system.deep_view() =~= Seq::empty());
    assert(rest.deep_view() =~= Seq::empty());
    let mut i: usize = 0;
    while i < messages.len()
        invariant
            i <= messages@.len(),
            all == messages.deep_view(),
            system.deep_view() == systems(all.take(i as int)),
            rest.deep_view() == others(all.take(i as int)),
        decreases messages@.len() - i,
    {
        let ghost s = system.deep_view();
        let ghost r = rest.deep_view();
        assert(all.take(i + 1).drop_last() =~= all.take(i as int));
        if messages[i].role == Role::System {
            system.push(messages[i].clone());
            assert(system.deep_view() =~= s.push(all[i as int]));
        } else {
            rest.push(messages[i].clone());
            assert(rest.deep_view() =~= r.push(all[i as int]));
        }
        i += 1;
    }
    assert(all.take(i as int) =~= all);
    (system, rest)
}

/// The last `n` items, or all where there are fewer.
pub open spec fn last_items<T>(items: Seq<T>, n: nat) -> Seq<T> {
    if items.len() > n {
        items.skip(items.len() - n)
    } else {
        items
    }
}

/// Append copies of the messages from position `from` on.
fn push_from(out: &mut Vec<Message>, messages: &Vec<Message>, from: usize)
    requires
        from <= messages@.len(),
    ensures
        final(out).deep_view() == old(out).deep_view() + messages.deep_view().skip(from as int),
{
    let ghost start = out.deep_view();
    let ghost all = messages.deep_view();
    assert(start + all.subrange(from as int, from as int) =~= start);
    let mut i: usize = from;
    while i < messages.len()
        invariant
            from <= i <= messages@.len(),
            all == messages.deep_view(),
            out.deep_view() == start + all.subrange(from as int, i as int),
        decreases messages@.len() - i,
    {
        let ghost before = out.deep_view();
        out.push(messages[i].clone());
        assert(out.deep_view() =~= before.push(all[i as int]));
        assert(start + all.subrange(from as int, i + 1) =~= before.push(all[i as int]));
        i += 1;
    }
    assert(all.subrange(from as int, i as int) =~= all.skip(from as int));
}

// ---------------------------------------------------------------------------
// Sliding window
// ---------------------------------------------------------------------------

/// Keep only the most recent messages, and all system messages.
#[derive(Debug)]
pub struct SlidingWindowStrategy {
    pub max_messages: usize,
}

/// What the sliding window keeps.
pub open spec fn window(messages: Seq<MessageView>, max_messages: nat) -> Seq<MessageView> {
    systems(messages) + last_items(others(messages), max_messages)
}

impl SlidingWindowStrategy {
    /// Keep at most `max_messages` messages besides the system messages.
    pub fn new(max_messages: usize) -> (strategy: Self)
        ensures
            strategy.max_messages == max_messages,
    {
        SlidingWindowStrategy { max_messages }
    }

    /// Compact the given messages.
    pub fn compact(&self, messages: Vec<Message>) -> (result: AgentResult<Vec<Message>>)
        ensures
            result is Ok,
            result->Ok_0.deep_view() == window(messages.deep_view(), self.max_messages as nat),
    {
        let (system, rest) = part(&messages);
        let mut out = system;
        let from: usize = if rest.len() > self.max_messages {
            rest.len() - self.max_messages
        } else {
            0
        };
        push_from(&mut out, &rest, from);
        assert(rest.deep_view().skip(from as int) =~= last_items(rest.deep_view(), self.max_messages as nat));
        Ok(out)
    }
}

// ---------------------------------------------------------------------------
// Truncation
// ---------------------------------------------------------------------------

/// Drop the oldest messages that are no system messages until the rest fits a token budget.
#[derive(Debug)]
pub struct TruncationStrategy<T: Tokenizer> {
    pub max_tokens: usize,
    pub tokenizer: T,
}

/// The tokens of one block.
pub open spec fn block_tokens<T: Tokenizer>(block: ContentView, tokenizer: T) -> nat {
    match block {
        ContentView::Text { text } => tokenizer.tokens(text),
        ContentView::ToolCall { arguments, .. } => tokenizer.tokens(rendered(arguments)),
        ContentView::ToolResult { content, .. } => tokenizer.tokens(content),
        _ => 0,
    }
}

/// The tokens of blocks.
pub open spec fn blocks_tokens<T: Tokenizer>(content: Seq<ContentView>, tokenizer: T) -> nat
    decreases content.len(),
{
    if content.len() == 0 {
        0
    } else {
        blocks_tokens(content.drop_last(), tokenizer) + block_tokens(content.last(), tokenizer)
    }
}

/// The tokens of a message: those of its blocks and four for the message itself.
pub open spec fn message_tokens_of<T: Tokenizer>(message: MessageView, tokenizer: T) -> nat {
    blocks_tokens(message.content, tokenizer) + 4
}

/// The tokens of messages.
pub open spec fn total_tokens<T: Tokenizer>(messages: Seq<MessageView>, tokenizer: T) -> nat
    decreases messages.len(),
{
    if messages.len() == 0 {
        0
    } else {
        total_tokens(messages.drop_last(), tokenizer) + message_tokens_of(messages.last(), tokenizer)
    }
}

/// How many of the newest messages fit the budget together.
pub open spec fn fitting<T: Tokenizer>(messages: Seq<MessageView>, budget: nat, tokenizer: T) -> nat
    decreases messages.len(),
{
    if messages.len() == 0 || message_tokens_of(messages.last(), tokenizer) > budget {
        0
    } else {
        1 + fitting(
            messages.drop_last(),
            (budget - message_tokens_of(messages.last(), tokenizer)) as nat,
            tokenizer,
        )
    }
}

/// What is left of the token budget for messages that are no system messages.
pub open spec fn token_budget<T: Tokenizer>(messages: Seq<MessageView>, max_tokens: nat, tokenizer: T) -> nat {
    let used = total_tokens(systems(messages), tokenizer);
    if used >= max_tokens {
        0
    } else {
        (max_tokens - used) as nat
    }
}

/// What truncation keeps.
pub open spec fn fitted<T: Tokenizer>(messages: Seq<MessageView>, max_tokens: nat, tokenizer: T) -> Seq<MessageView> {
    systems(messages) + last_items(
        others(messages),
        fitting(others(messages), token_budget(messages, max_tokens, tokenizer), tokenizer),
    )
}

/// The tokens of a message.
pub fn message_tokens<T: Tokenizer>(message: &Message, tokenizer: &T) -> (n: u128)
    ensures
        n == message_tokens_of(message@, *tokenizer),
        n <= 0xffff_ffff_ffff_ffff * 0xffff_ffff_ffff_ffff + 4,
{
    let mut n: u128 = 0;
    let mut i: usize = 0;
    let ghost all = message@.content;
    while i < message.content.len()
        invariant
            i <= message.content@.len(),
            all == message.content.deep_view(),
            n == blocks_tokens(all.take(i as int), *tokenizer),
            n <= i * 0xffff_ffff_ffff_ffff,
        decreases message.content@.len() - i,
    {
        assert(all.take(i + 1).drop_last() =~= all.take(i as int));
        let t: usize = match &message.content[i] {
            Content::Text { text } => tokenizer.count_tokens(text.as_str()),
            Content::ToolCall { arguments, .. } => tokenizer.count_tokens(arguments.to_text().as_str()),
            Content::ToolResult { content, .. } => tokenizer.count_tokens(content.as_str()),
            _ => 0,
        };
        n = n + t as u128;
        i += 1;
    }
    assert(all.take(i as int) =~= all);
    n + 4
}

/// The part of `limit` that the tokens of messages leave.
fn budget_left<T: Tokenizer>(messages: &Vec<Message>, limit: usize, tokenizer: &T) -> (left: usize)
    ensures
        left == if total_tokens(messages.deep_view(), *tokenizer) >= limit {
            0
        } else {
            limit - total_tokens(messages.deep_view(), *tokenizer)
        },
{
    let mut left: usize = limit;
    let mut i: usize = 0;
    let ghost all = messages.deep_view();
    while i < messages.len()
        invariant
            i <= messages@.len(),
            all == messages.deep_view(),
            left == if total_tokens(all.take(i as int), *tokenizer) >= limit {
                0
            } else {
                limit - total_tokens(all.take(i as int), *tokenizer)
            },
        decreases messages@.len() - i,
    {
        assert(all.take(i + 1).drop_last() =~= all.take(i as int));
        let t: u128 = message_tokens(&messages[i], tokenizer);
        if t >= left as u128 {
            left = 0;
        } else {
            left = left - t as usize;
        }
        i += 1;
    }
    assert(all.take(i as int) =~= all);
    left
}

/// How many of the newest messages fit the budget together.
fn count_fitting<T: Tokenizer>(messages: &Vec<Message>, budget: usize, tokenizer: &T) -> (n: usize)
    ensures
        n == fitting(messages.deep_view(), budget as nat, *tokenizer),
        n <= messages@.len(),
{
    let ghost all = messages.deep_view();
    let mut n: usize = 0;
    let mut left: usize = budget;
    assert(all.take(all.len() as int) =~= all);
    while n < messages.len()
        invariant
            n <= messages@.len(),
            all == messages.deep_view(),
            fitting(all, budget as nat, *tokenizer) == n + fitting(all.take(all.len() - n), left as nat, *tokenizer),
        decreases messages@.len() - n,
    {
        let ghost rest = all.take(all.len() - n);
        assert(rest.drop_last() =~= all.take(all.len() - n - 1));
        let t: u128 = message_tokens(&messages[messages.len() - n - 1], tokenizer);
        if t > left as u128 {
            return n;
        }
        left = left - t as usize;
        n += 1;
    }
    n
}

impl TruncationStrategy<CharEstimatorTokenizer> {
    /// A budget that is counted with the default tokenizer.
    pub fn with_default_tokenizer(max_tokens: usize) -> (strategy: Self)
        ensures
            strategy.max_tokens == max_tokens,
            strategy.tokenizer.per_token() == 4,
    {
        TruncationStrategy { max_tokens, tokenizer: CharEstimatorTokenizer::default() }
    }
}

impl<T: Tokenizer> TruncationStrategy<T> {
    /// A budget that is counted with the given tokenizer.
    pub fn new(max_tokens: usize, tokenizer: T) -> (strategy: Self)
        ensures
            strategy.max_tokens == max_tokens,
            strategy.tokenizer == tokenizer,
    {
        TruncationStrategy { max_tokens, tokenizer }
    }

    /// Compact the given messages.
    pub fn compact(&self, messages: Vec<Message>) -> (result: AgentResult<Vec<Message>>)
        ensures
            result is Ok,
            result->Ok_0.deep_view() == fitted(messages.deep_view(), self.max_tokens as nat, self.tokenizer),
    {
        let (system, rest) = part(&messages);
        let budget: usize = budget_left(&system, self.max_tokens, &self.tokenizer);
        let n: usize = count_fitting(&rest, budget, &self.tokenizer);
        let mut out = system;
        let from: usize = rest.len() - n;
        push_from(&mut out, &rest, from);
        assert(rest.deep_view().skip(from as int) =~= last_items(rest.deep_view(), n as nat));
        Ok(out)
    }
}

// ---------------------------------------------------------------------------
// Tool results
// ---------------------------------------------------------------------------

/// Cut long tool results to a maximum number of characters.
#[derive(Debug)]
pub struct ToolResultCompactionStrategy {
    pub max_result_chars: usize,
}

/// A text cut to at most `max` characters, with a note on how many are missing.
pub open spec fn shortened(text: Seq<char>, max: nat) -> Seq<char> {
    if text.len() > max {
        text.take(max as int) + "... [truncated "@ + decimal((text.len() - max) as nat) + " chars]"@
    } else {
        text
    }
}

/// A block with a tool result cut to at most `max` characters.
pub open spec fn block_shortened(block: ContentView, max: nat) -> ContentView {
    match block {
        ContentView::ToolResult { tool_call_id, content } => ContentView::ToolResult {
            tool_call_id,
            content: shortened(content, max),
        },
        other => other,
    }
}

/// A message with its tool results cut to at most `max` characters.
pub open spec fn message_shortened(message: MessageView, max: nat) -> MessageView {
    MessageView {
        content: Seq::new(message.content.len(), |i: int| block_shortened(message.content[i], max)),
        ..message
    }
}

/// Messages with their tool results cut to at most `max` characters.
pub open spec fn results_shortened(messages: Seq<MessageView>, max: nat) -> Seq<MessageView> {
    Seq::new(messages.len(), |i: int| message_shortened(messages[i], max))
}

/// The text cut to at most `max` characters, with a note on how many are missing.
pub fn shorten(text: &str, max: usize) -> (out: String)
    ensures
        out@ == shortened(text@, max as nat),
{
    let chars = chars_of(text);
    if chars.len() <= max {
        return text.to_owned();
    }
    let mut out = string_of(&chars, 0, max);
    assert(text@.subrange(0, max as int) =~= text@.take(max as int));
    out.append("... [truncated ");
    out.append(decimal_of((chars.len() - max) as u64).as_str());
    out.append(" chars]");
    out
}

impl ToolResultCompactionStrategy {
    /// Cut tool results to at most `max_result_chars` characters.
    pub fn new(max_result_chars: usize) -> (strategy: Self)
        ensures
            strategy.max_result_chars == max_result_chars,
    {
        ToolResultCompactionStrategy { max_result_chars }
    }

    fn compact_message(&self, message: &Message) -> (out: Message)
        ensures
            out@ == message_shortened(message@, self.max_result_chars as nat),
    {
        let mut content: Vec<Content> = Vec::new();
        let ghost all = message_shortened(message@, self.max_result_chars as nat).content;
        let mut i: usize = 0;
        assert(content.deep_view() =~= all.take(0));
        while i < message.content.len()
            invariant
                i <= message.content@.len(),
                all == message_shortened(message@, self.max_result_chars as nat).content,
                content.deep_view() == all.take(i as int),
            decreases message.content@.len() - i,
        {
            let ghost before = content.deep_view();
            let block = match &message.content[i] {
                Content::ToolResult { tool_call_id, content: result } => Content::ToolResult {
                    tool_call_id: tool_call_id.clone(),
                    content: shorten(result.as_str(), self.max_result_chars),
                },
                other => other.clone(),
            };
            content.push(block);
            assert(content.deep_view() =~= before.push(all[i as int]));
            assert(all.take(i + 1) =~= before.push(all[i as int]));
            i += 1;
        }
        let mut out = message.clone();
        out.content = content;
        assert(all.take(i as int) =~= all);
        out
    }

    /// Compact the given messages.
    pub fn compact(&self, messages: Vec<Message>) -> (result: AgentResult<Vec<Message>>)
        ensures
            result is Ok,
            result->Ok_0.deep_view() == results_shortened(messages.deep_view(), self.max_result_chars as nat),
    {
        let mut out: Vec<Message> = Vec::new();
        let ghost all = results_shortened(messages.deep_view(), self.max_result_chars as nat);
        let mut i: usize = 0;
        assert(out.deep_view() =~= all.take(0));
        while i < messages.len()
            invariant
                i <= messages@.len(),
                all == results_shortened(messages.deep_view(), self.max_result_chars as nat),
                out.deep_view() == all.take(i as int),
            decreases messages@.len() - i,
        {
            let ghost before = out.deep_view();
            out.push(self.compact_message(&messages[i]));
            assert(out.deep_view() =~= before.push(all[i as int]));
            assert(all.take(i + 1) =~= before.push(all[i as int]));
            i += 1;
        }
        assert(all.take(i as int) =~= all);
        Ok(out)
    }
}

// ---------------------------------------------------------------------------
// Pipeline
// ---------------------------------------------------------------------------

/// A strategy that a pipeline can hold.
#[derive(Debug)]
pub enum CompactionStep {
    SlidingWindow(SlidingWindowStrategy),
    Truncation(TruncationStrategy<CharEstimatorTokenizer>),
    ToolResult(ToolResultCompactionStrategy),
}

/// What one step of a pipeline makes of the messages.
pub open spec fn step_compacted(step: CompactionStep, messages: Seq<MessageView>) -> Seq<MessageView> {
    match step {
        CompactionStep::SlidingWindow(s) => window(messages, s.max_messages as nat),
        CompactionStep::Truncation(s) => fitted(messages, s.max_tokens as nat, s.tokenizer),
        CompactionStep::ToolResult(s) => results_shortened(messages, s.max_result_chars as nat),
    }
}

/// What the steps make of the messages, one after the other.
pub open spec fn steps_compacted(steps: Seq<CompactionStep>, messages: Seq<MessageView>) -> Seq<MessageView>
    decreases steps.len(),
{
    if steps.len() == 0 {
        messages
    } else {
        step_compacted(steps.last(), steps_compacted(steps.drop_last(), messages))
    }
}

/// Chain strategies: what one makes is given to the next.
#[derive(Debug)]
pub struct PipelineCompactionStrategy {
    pub strategies: Vec<CompactionStep>,
}

impl Default for PipelineCompactionStrategy {
    fn default() -> (pipeline: Self)
        ensures
            pipeline.strategies@ == Seq::<CompactionStep>::empty(),
    {
        PipelineCompactionStrategy { strategies: Vec::new() }
    }
}

impl PipelineCompactionStrategy {
    /// A pipeline without strategies.
    pub fn new() -> (pipeline: Self)
        ensures
            pipeline.strategies@ == Seq::<CompactionStep>::empty(),
    {
        PipelineCompactionStrategy { strategies: Vec::new() }
    }

    /// The pipeline with one more strategy at its end.
    pub fn add(self, strategy: CompactionStep) -> (pipeline: Self)
        ensures
            pipeline.strategies@ == self.strategies@.push(strategy),
    {
        let mut pipeline = self;
        pipeline.strategies.push(strategy);
        pipeline
    }

    /// Compact the given messages.
    pub fn compact(&self, messages: Vec<Message>) -> (result: AgentResult<Vec<Message>>)
        ensures
            result is Ok,
            result->Ok_0.deep_view() == steps_compacted(self.strategies@, messages.deep_view()),
    {
        let ghost start = messages.deep_view();
        let mut current = messages;
        let mut i: usize = 0;
        while i < self.strategies.len()
            invariant
                i <= self.strategies@.len(),
                current.deep_view() == steps_compacted(self.strategies@.take(i as int), start),
            decreases self.strategies@.len() - i,
        {
            assert(self.strategies@.take(i + 1).drop_last() =~= self.strategies@.take(i as int));
            let step = match &self.strategies[i] {
                CompactionStep::SlidingWindow(s) => s.compact(current),
                CompactionStep::Truncation(s) => s.compact(current),
                CompactionStep::ToolResult(s) => s.compact(current),
            };
            match step {
                Ok(compacted) => {
                    current = compacted;
                },
                Err(error) => return Err(error),
            }
            i += 1;
        }
        assert(self.strategies@.take(i as int) =~= self.strategies@);
        Ok(current)
    }
}

/// A run of a pipeline whose strategies are applied elsewhere, such as one that asks a
/// model for a summary.
#[derive(Debug)]
pub struct PipelineRun {
    /// The number of strategies.
    pub strategies: usize,
    /// The strategy that comes next.
    pub next: usize,
    /// What the strategies before it have made, or the error of the last of them.
    pub outcome: AgentResult<Vec<Message>>,
}

/// What the state of such a run holds.
#[verifier::ext_equal]
pub struct PipelineRunView {
    pub strategies: nat,
    pub next: nat,
    pub outcome: Result<Seq<MessageView>, ErrorView>,
}

impl View for PipelineRun {
    type V = PipelineRunView;

    open spec fn view(&self) -> PipelineRunView {
        PipelineRunView {
            strategies: self.strategies as nat,
            next: self.next as nat,
            outcome: outcome_view(self.outcome),
        }
    }
}

/// The state before the first strategy.
pub open spec fn pipeline_start(strategies: nat, messages: Seq<MessageView>) -> PipelineRunView {
    PipelineRunView { strategies, next: 0, outcome: Ok(messages) }
}

/// Whether another strategy is applied.
pub open spec fn pipeline_goes_on(run: PipelineRunView) -> bool {
    run.next < run.strategies && run.outcome is Ok
}

/// The state after a strategy.
pub open spec fn pipeline_step(run: PipelineRunView, outcome: Result<Seq<MessageView>, ErrorView>) -> PipelineRunView {
    PipelineRunView { next: run.next + 1, outcome, ..run }
}

/// The state after several strategies.
pub open spec fn pipeline_steps(
    run: PipelineRunView,
    outcomes: Seq<Result<Seq<MessageView>, ErrorView>>,
) -> PipelineRunView
    decreases outcomes.len(),
{
    if outcomes.len() == 0 {
        run
    } else {
        pipeline_step(pipeline_steps(run, outcomes.drop_last()), outcomes.last())
    }
}

impl PipelineRun {
    /// Start a pipeline of so many strategies on the messages.
    pub fn start(strategies: usize, messages: Vec<Message>) -> (run: Self)
        ensures
            run@ == pipeline_start(strategies as nat, messages.deep_view()),
    {
        PipelineRun { strategies, next: 0, outcome: Ok(messages) }
    }

    /// The strategy that is applied next and the messages that it gets, `None` when the
    /// pipeline is done.
    pub fn next_strategy(&self) -> (step: Option<(usize, Vec<Message>)>)
        ensures
            match step {
                Some(s) => pipeline_goes_on(self@) && s.0 == self@.next && Ok::<Seq<MessageView>, ErrorView>(
                    s.1.deep_view(),
                ) == self@.outcome,
                None => !pipeline_goes_on(self@),
            },
    {
        match &self.outcome {
            Ok(messages) => if self.next < self.strategies {
                Some((self.next, clone_messages(messages)))
            } else {
                None
            },
            Err(_) => None,
        }
    }

    /// Take in what a strategy has made. An error ends the pipeline.
    pub fn on_outcome(&mut self, outcome: AgentResult<Vec<Message>>)
        requires
            pipeline_goes_on(old(self)@),
        ensures
            final(self)@ == pipeline_step(old(self)@, outcome_view(outcome)),
    {
        self.next += 1;
        self.outcome = outcome;
    }

    /// What the pipeline has come to.
    pub fn finish(self) -> (result: AgentResult<Vec<Message>>)
        ensures
            outcome_view(result) == self@.outcome,
    {
        self.outcome
    }
}

/// A pipeline applies every strategy once and gives each what the one before has made,
/// the first of them the messages. An error ends it, and what comes out is what the last
/// strategy has made.
pub proof fn law_pipeline_chains(
    strategies: nat,
    messages: Seq<MessageView>,
    outcomes: Seq<Result<Seq<MessageView>, ErrorView>>,
)
    requires
        forall|i: int|
            0 <= i < outcomes.len() ==> pipeline_goes_on(
                #[trigger] pipeline_steps(pipeline_start(strategies, messages), outcomes.take(i)),
            ),
    ensures
        ({
            let run = pipeline_steps(pipeline_start(strategies, messages), outcomes);
            &&& run.strategies == strategies
            &&& run.next == outcomes.len() <= strategies
            &&& run.outcome == if outcomes.len() == 0 {
                Ok(messages)
            } else {
                outcomes.last()
            }
            &&& pipeline_goes_on(run) <==> outcomes.len() < strategies && (outcomes.len() == 0
                || outcomes.last() is Ok)
        }),
        forall|i: int| 0 <= i < outcomes.len() - 1 ==> (#[trigger] outcomes[i]) is Ok,
    decreases outcomes.len(),
{
    let start = pipeline_start(strategies, messages);
    if outcomes.len() > 0 {
        let n = outcomes.len() - 1;
        let before = outcomes.drop_last();
        assert(outcomes.take(n) =~= before);
        assert(pipeline_goes_on(pipeline_steps(start, outcomes.take(n))));
        assert forall|i: int| 0 <= i < before.len() implies pipeline_goes_on(
            #[trigger] pipeline_steps(start, before.take(i)),
        ) by {
            assert(before.take(i) =~= outcomes.take(i));
            assert(pipeline_goes_on(pipeline_steps(start, outcomes.take(i))));
        }
        law_pipeline_chains(strategies, messages, before);
        assert forall|i: int| 0 <= i < n implies (#[trigger] outcomes[i]) is Ok by {
            assert(outcomes[i] == before[i]);
        }
    }
}

// ---------------------------------------------------------------------------
// Summarization
// ---------------------------------------------------------------------------

/// Replace older messages with a summary that a model writes, and keep the recent ones.
#[derive(Debug)]
pub struct SummarizationStrategy {
    /// Number of recent messages to keep as they are.
    pub keep_recent: usize,
    /// What the model is asked to do.
    pub prompt: String,
}

/// What a summarization asks for: nothing, where the messages are few enough, or
/// a summary of the older ones.
#[derive(Debug)]
pub enum SummaryPlan {
    /// The messages as they are kept.
    Keep(Vec<Message>),
    /// The request for a summary, the system messages and the recent messages.
    Summarize { request: Vec<Message>, system: Vec<Message>, recent: Vec<Message> },
}

/// The name that a transcript gives to a role.
pub open spec fn speaker(role: Role) -> Seq<char> {
    match role {
        Role::System => "System"@,
        Role::User => "User"@,
        Role::Assistant => "Assistant"@,
        Role::Tool => "Tool"@,
    }
}

/// The lines of a transcript: who spoke and what was said.
pub open spec fn transcript_lines(messages: Seq<MessageView>) -> Seq<Seq<char>> {
    Seq::new(messages.len(), |i: int| speaker(messages[i].role) + ": "@ + text_of(messages[i].content))
}

/// The default prompt of a summarization.
pub open spec fn summary_prompt() -> Seq<char> {
    "Summarize the following conversation concisely, preserving key facts, decisions, and context needed for continuing the conversation."@
}

/// What a summarization leaves of the messages, given the summary.
pub open spec fn summarized(
    system: Seq<MessageView>,
    summary: Seq<char>,
    recent: Seq<MessageView>,
) -> Seq<MessageView> {
    if summary.len() == 0 {
        system + recent
    } else {
        system.push(text_message(Role::System, "[Conversation summary]: "@ + summary)) + recent
    }
}

/// The name that a transcript gives to a role.
pub fn speaker_of(role: Role) -> (name: &'static str)
    ensures
        name@ == speaker(role),
{
    match role {
        Role::System => "System",
        Role::User => "User",
        Role::Assistant => "Assistant",
        Role::Tool => "Tool",
    }
}

/// The transcript of the first `n` messages.
fn transcript(messages: &Vec<Message>, n: usize) -> (text: String)
    requires
        n <= messages@.len(),
    ensures
        text@ == joined(transcript_lines(messages.deep_view().take(n as int)), "\n"@),
{
    let mut text = String::new();
    let ghost lines = transcript_lines(messages.deep_view().take(n as int));
    let mut i: usize = 0;
    while i < n
        invariant
            i <= n <= messages@.len(),
            lines == transcript_lines(messages.deep_view().take(n as int)),
            text@ == joined(lines.take(i as int), "\n"@),
        decreases n - i,
    {
        let line = cat3(speaker_of(messages[i].role), ": ", messages[i].text().as_str());
        push_joined(&mut text, i == 0, "\n", line.as_str(), Ghost(lines.take(i as int)));
        assert(lines.take(i + 1) =~= lines.take(i as int).push(line@));
        i += 1;
    }
    assert(lines.take(i as int) =~= lines);
    text
}

impl SummarizationStrategy {
    /// Keep the given number of recent messages, with the default prompt.
    pub fn new(keep_recent: usize) -> (strategy: Self)
        ensures
            strategy.keep_recent == keep_recent,
            strategy.prompt@ == summary_prompt(),
    {
        SummarizationStrategy {
            keep_recent,
            prompt: "Summarize the following conversation concisely, preserving key facts, decisions, and context needed for continuing the conversation.".to_owned(),
        }
    }

    /// Replace the prompt.
    pub fn with_prompt(self, prompt: &str) -> (strategy: Self)
        ensures
            strategy.keep_recent == self.keep_recent,
            strategy.prompt@ == prompt@,
    {
        SummarizationStrategy { keep_recent: self.keep_recent, prompt: prompt.to_owned() }
    }

    /// What to ask the model for, if anything.
    pub fn plan(&self, messages: Vec<Message>) -> (plan: SummaryPlan)
        ensures
            match plan {
                SummaryPlan::Keep(kept) => {
                    &&& others(messages.deep_view()).len() <= self.keep_recent
                    &&& kept.deep_view() == systems(messages.deep_view()) + others(messages.deep_view())
                },
                SummaryPlan::Summarize { request, system, recent } => {
                    let rest = others(messages.deep_view());
                    let old = rest.take(rest.len() - self.keep_recent);
                    &&& rest.len() > self.keep_recent
                    &&& system.deep_view() == systems(messages.deep_view())
                    &&& recent.deep_view() == last_items(rest, self.keep_recent as nat)
                    &&& request.deep_view() == seq![
                        text_message(Role::System, self.prompt@),
                        text_message(Role::User, joined(transcript_lines(old), "\n"@)),
                    ]
                },
            },
    {
        let (system, rest) = part(&messages);
        if rest.len() <= self.keep_recent {
            let mut kept = system;
            push_from(&mut kept, &rest, 0);
            assert(rest.deep_view().skip(0) =~= rest.deep_view());
            return SummaryPlan::Keep(kept);
        }
        let split: usize = rest.len() - self.keep_recent;
        let mut request: Vec<Message> = Vec::new();
        request.push(Message::system(self.prompt.as_str()));
        request.push(Message::user(transcript(&rest, split).as_str()));
        assert(request.deep_view() =~= seq![
            text_message(Role::System, self.prompt@),
            text_message(Role::User, joined(transcript_lines(rest.deep_view().take(split as int)), "\n"@)),
        ]);
        let mut recent: Vec<Message> = Vec::new();
        push_from(&mut recent, &rest, split);
        assert(recent.deep_view() =~= last_items(rest.deep_view(), self.keep_recent as nat));
        SummaryPlan::Summarize { request, system, recent }
    }
}

/// The conversation with the summary in place of the older messages.
pub fn apply_summary(system: Vec<Message>, response: &ChatResponse, recent: &Vec<Message>) -> (out: Vec<Message>)
    ensures
        out.deep_view() == summarized(system.deep_view(), texts_of(response@.messages), recent.deep_view()),
{
    let mut summary = String::new();
    let ghost all = response@.messages;
    let mut i: usize = 0;
    while i < response.messages.len()
        invariant
            i <= response.messages@.len(),
            all == response.messages.deep_view(),
            summary@ == texts_of(all.take(i as int)),
        decreases response.messages@.len() - i,
    {
        assert(all.take(i + 1).drop_last() =~= all.take(i as int));
        push_texts(&mut summary, &response.messages[i].content);
        i += 1;
    }
    assert(all.take(i as int) =~= all);
    let mut out = system;
    let ghost first = out.deep_view();
    if !summary.as_str().is_empty() {
        out.push(Message::system(cat2("[Conversation summary]: ", summary.as_str()).as_str()));
        assert(out.deep_view() =~= first.push(
            text_message(Role::System, "[Conversation summary]: "@ + summary@),
        ));
    }
    push_from(&mut out, recent, 0);
    assert(recent.deep_view().skip(0) =~= recent.deep_view());
    out
}

// ---------------------------------------------------------------------------
// Laws
// ---------------------------------------------------------------------------

/// Parting messages one after the other parts each on its own.
proof fn lemma_part_append(a: Seq<MessageView>, b: Seq<MessageView>)
    ensures
        systems(a + b) == systems(a) + systems(b),
        others(a + b) == others(a) + others(b),
    decreases b.len(),
{
    if b.len() == 0 {
        assert(a + b =~= a);
        assert(systems(a) + systems(b) =~= systems(a));
        assert(others(a) + others(b) =~= others(a));
    } else {
        assert((a + b).drop_last() =~= a + b.drop_last());
        lemma_part_append(a, b.drop_last());
        assert(systems(a + b) =~= systems(a) + systems(b));
        assert(others(a + b) =~= others(a) + others(b));
    }
}

/// System messages part into themselves, and the others into themselves.
proof fn lemma_part_parts(messages: Seq<MessageView>)
    ensures
        systems(systems(messages)) == systems(messages),
        others(systems(messages)) == Seq::<MessageView>::empty(),
        systems(others(messages)) == Seq::<MessageView>::empty(),
        others(others(messages)) == others(messages),
    decreases messages.len(),
{
    if messages.len() > 0 {
        lemma_part_parts(messages.drop_last());
        let s = systems(messages);
        let o = others(messages);
        if messages.last().role == Role::System {
            assert(s.drop_last() =~= systems(messages.drop_last()));
        } else {
            assert(o.drop_last() =~= others(messages.drop_last()));
        }
    }
}

/// A part of messages without system messages has none either.
proof fn lemma_part_skip(messages: Seq<MessageView>, n: int)
    requires
        0 <= n <= messages.len(),
        systems(messages) == Seq::<MessageView>::empty(),
        others(messages) == messages,
    ensures
        systems(messages.skip(n)) == Seq::<MessageView>::empty(),
        others(messages.skip(n)) == messages.skip(n),
{
    lemma_part_append(messages.take(n), messages.skip(n));
    assert(messages.take(n) + messages.skip(n) =~= messages);
    lemma_part_lengths(messages.take(n));
    lemma_part_lengths(messages.skip(n));
    assert(systems(messages.skip(n)) =~= Seq::<MessageView>::empty());
    assert(others(messages.skip(n)) =~= messages.skip(n)) by {
        assert forall|i: int| 0 <= i < messages.skip(n).len() implies others(messages.skip(n))[i] == messages.skip(
            n,
        )[i] by {
            assert((others(messages.take(n)) + others(messages.skip(n)))[n + i] == messages[n + i]);
        }
    }
}

/// Every message is a system message or one of the others.
proof fn lemma_part_lengths(messages: Seq<MessageView>)
    ensures
        systems(messages).len() + others(messages).len() == messages.len(),
    decreases messages.len(),
{
    if messages.len() > 0 {
        lemma_part_lengths(messages.drop_last());
    }
}

/// What is left of a compaction that keeps the system messages and the end of the others.
proof fn lemma_kept_parts(messages: Seq<MessageView>, n: nat)
    ensures
        systems(systems(messages) + last_items(others(messages), n)) == systems(messages),
        others(systems(messages) + last_items(others(messages), n)) == last_items(others(messages), n),
{
    let rest = others(messages);
    let kept = last_items(rest, n);
    lemma_part_append(systems(messages), kept);
    lemma_part_parts(messages);
    if rest.len() > n {
        lemma_part_skip(rest, rest.len() - n);
    }
    assert(systems(messages) + Seq::<MessageView>::empty() =~= systems(messages));
    assert(Seq::<MessageView>::empty() + kept =~= kept);
}

/// The sliding window keeps every system message, keeps no more than its number
/// of the others, and changes nothing when it is applied once more.
pub proof fn law_sliding_window(messages: Seq<MessageView>, max_messages: nat)
    ensures
        systems(window(messages, max_messages)) == systems(messages),
        others(window(messages, max_messages)).len() <= max_messages,
        window(messages, max_messages).len() <= systems(messages).len() + max_messages,
        window(window(messages, max_messages), max_messages) == window(messages, max_messages),
{
    lemma_kept_parts(messages, max_messages);
}

/// The tokens of messages one after the other add up.
proof fn lemma_tokens_append<T: Tokenizer>(a: Seq<MessageView>, b: Seq<MessageView>, tokenizer: T)
    ensures
        total_tokens(a + b, tokenizer) == total_tokens(a, tokenizer) + total_tokens(b, tokenizer),
    decreases b.len(),
{
    if b.len() == 0 {
        assert(a + b =~= a);
    } else {
        assert((a + b).drop_last() =~= a + b.drop_last());
        lemma_tokens_append(a, b.drop_last(), tokenizer);
    }
}

/// The newest messages that fit a budget take no more tokens than it has.
proof fn lemma_fitting<T: Tokenizer>(messages: Seq<MessageView>, budget: nat, tokenizer: T)
    ensures
        fitting(messages, budget, tokenizer) <= messages.len(),
        total_tokens(last_items(messages, fitting(messages, budget, tokenizer)), tokenizer) <= budget,
        fitting(messages, budget, tokenizer) < messages.len() ==> total_tokens(
            last_items(messages, fitting(messages, budget, tokenizer) + 1),
            tokenizer,
        ) > budget,
    decreases messages.len(),
{
    if messages.len() == 0 {
    } else if message_tokens_of(messages.last(), tokenizer) > budget {
        assert(last_items(messages, 0) =~= Seq::empty());
        let one = last_items(messages, 1);
        assert(one.last() == messages.last());
        assert(one.drop_last() =~= Seq::empty());
    } else {
        let t = message_tokens_of(messages.last(), tokenizer);
        let rest = messages.drop_last();
        let left = (budget - t) as nat;
        lemma_fitting(rest, left, tokenizer);
        let n = fitting(rest, left, tokenizer);
        let kept = last_items(messages, n + 1);
        assert(kept.drop_last() =~= last_items(rest, n));
        assert(kept.last() == messages.last());
        if n < rest.len() {
            let more = last_items(messages, n + 2);
            assert(more.drop_last() =~= last_items(rest, n + 1));
            assert(more.last() == messages.last());
        }
    }
}

/// Truncation keeps every system message. Where those leave some budget, what is
/// kept takes no more tokens than the limit; and it is the longest end of the
/// conversation that fits: one more message would exceed the budget.
pub proof fn law_truncation<T: Tokenizer>(messages: Seq<MessageView>, max_tokens: nat, tokenizer: T)
    ensures
        systems(fitted(messages, max_tokens, tokenizer)) == systems(messages),
        total_tokens(systems(messages), tokenizer) <= max_tokens ==> total_tokens(
            fitted(messages, max_tokens, tokenizer),
            tokenizer,
        ) <= max_tokens,
        ({
            let rest = others(messages);
            let budget = token_budget(messages, max_tokens, tokenizer);
            let n = fitting(rest, budget, tokenizer);
            n < rest.len() ==> total_tokens(last_items(rest, n + 1), tokenizer) > budget
        }),
{
    let rest = others(messages);
    let budget = token_budget(messages, max_tokens, tokenizer);
    let n = fitting(rest, budget, tokenizer);
    lemma_kept_parts(messages, n);
    lemma_fitting(rest, budget, tokenizer);
    lemma_tokens_append(systems(messages), last_items(rest, n), tokenizer);
}

/// A summary keeps every system message and the recent messages.
pub proof fn law_summary(messages: Seq<MessageView>, keep_recent: nat, summary: Seq<char>)
    ensures
        others(summarized(systems(messages), summary, last_items(others(messages), keep_recent))) == last_items(
            others(messages),
            keep_recent,
        ),
        systems(summarized(systems(messages), summary, last_items(others(messages), keep_recent))) == if summary.len()
            == 0 {
            systems(messages)
        } else {
            systems(messages).push(text_message(Role::System, "[Conversation summary]: "@ + summary))
        },
{
    let kept = last_items(others(messages), keep_recent);
    lemma_kept_parts(messages, keep_recent);
    if summary.len() > 0 {
        let note = text_message(Role::System, "[Conversation summary]: "@ + summary);
        let head = systems(messages).push(note);
        assert(head.drop_last() =~= systems(messages));
        lemma_part_parts(messages);
        assert(systems(head) =~= head);
        assert(others(head) =~= Seq::<MessageView>::empty());
        lemma_part_append(head, kept);
        lemma_part_append(systems(messages), kept);
        assert(systems(kept) =~= Seq::<MessageView>::empty()) by {
            assert((systems(messages) + systems(kept)).len() == systems(messages).len());
        }
        assert(others(kept) =~= kept) by {
            assert(Seq::<MessageView>::empty() + others(kept) =~= others(kept));
        }
        assert(head + Seq::<MessageView>::empty() =~= head);
        assert(Seq::<MessageView>::empty() + kept =~= kept);
    }
}

// ---------------------------------------------------------------------------
// What compaction is for
// ---------------------------------------------------------------------------

/// A message that says one text takes the tokens that the tokenizer counts in it and
/// four, and so does one that holds one tool result or the arguments of one call. The
/// tokens of blocks and of messages add up, and no other block takes any.
pub proof fn law_tokens_are_counted<T: Tokenizer>(
    role: Role,
    text: Seq<char>,
    message: MessageView,
    first: Seq<ContentView>,
    block: ContentView,
    before: Seq<MessageView>,
    tokenizer: T,
)
    ensures
        message_tokens_of(text_message(role, text), tokenizer) == tokenizer.tokens(text) + 4,
        message.content.len() == 0 ==> message_tokens_of(message, tokenizer) == 4,
        message.content == first.push(block) ==> message_tokens_of(message, tokenizer) == message_tokens_of(
            MessageView { content: first, ..message },
            tokenizer,
        ) + match block {
            ContentView::Text { text } => tokenizer.tokens(text),
            ContentView::ToolResult { content, .. } => tokenizer.tokens(content),
            ContentView::ToolCall { arguments, .. } => tokenizer.tokens(rendered(arguments)),
            ContentView::Data { .. } => 0,
            ContentView::Uri { .. } => 0,
        },
        total_tokens(Seq::empty(), tokenizer) == 0,
        total_tokens(before.push(message), tokenizer) == total_tokens(before, tokenizer) + message_tokens_of(
            message,
            tokenizer,
        ),
{
    let one = text_message(role, text).content;
    assert(one =~= Seq::empty().push(ContentView::Text { text }));
    assert(one.drop_last() =~= Seq::empty());
    assert(blocks_tokens(one.drop_last(), tokenizer) == 0);
    assert(first.push(block).drop_last() =~= first);
    assert(before.push(message).drop_last() =~= before);
}

/// The estimate is the number of characters divided by those that make a token, rounded
/// up: that many tokens hold the text, and one less does not.
pub proof fn law_estimate_rounds_up(tokenizer: CharEstimatorTokenizer, text: Seq<char>)
    ensures
        tokenizer.per_token() >= 1,
        tokenizer.tokens(text) * tokenizer.per_token() >= text.len(),
        text.len() > 0 ==> tokenizer.tokens(text) > 0 && (tokenizer.tokens(text) - 1) * tokenizer.per_token()
            < text.len(),
        text.len() == 0 ==> tokenizer.tokens(text) == 0,
{
    let d = tokenizer.per_token() as int;
    let n = text.len() as int;
    vstd::arithmetic::div_mod::lemma_fundamental_div_mod(n, d);
    vstd::arithmetic::div_mod::lemma_mod_bound(n, d);
    let q = n / d;
    assert(q * d == d * q) by (nonlinear_arith);
    assert((q + 1) * d == q * d + d) by (nonlinear_arith);
    assert((q - 1) * d == q * d - d) by (nonlinear_arith);
    assert(n > 0 && n % d == 0 ==> q > 0) by (nonlinear_arith)
        requires
            n == d * q + n % d,
            d >= 1,
    ;
    assert(n == 0 ==> q == 0 && n % d == 0) by (nonlinear_arith)
        requires
            n == d * q + n % d,
            0 <= n % d < d,
            d >= 1,
    ;
}

/// Every message is either a system message or one of the others, and both keep the
/// messages as they are, in their order.
pub proof fn law_messages_are_parted(first: Seq<MessageView>, message: MessageView, rest: Seq<MessageView>)
    ensures
        systems(Seq::empty()).len() == 0,
        others(Seq::empty()).len() == 0,
        systems(first + rest) == systems(first) + systems(rest),
        others(first + rest) == others(first) + others(rest),
        message.role == Role::System ==> systems(seq![message]) == seq![message] && others(seq![message]).len() == 0,
        message.role != Role::System ==> systems(seq![message]).len() == 0 && others(seq![message]) == seq![message],
{
    lemma_part_append(first, rest);
    let one = seq![message];
    assert(one.drop_last() =~= Seq::empty());
    assert(systems(one.drop_last()) =~= Seq::empty());
    assert(others(one.drop_last()) =~= Seq::empty());
    if message.role == Role::System {
        assert(systems(one) =~= one);
    } else {
        assert(others(one) =~= one);
    }
}

/// The sliding window keeps the system messages first and then the newest of the
/// others: all of them where they are few enough, else exactly as many as it may.
pub proof fn law_window_keeps_the_newest(messages: Seq<MessageView>, max_messages: nat)
    ensures
        ({
            let kept = window(messages, max_messages);
            let s = systems(messages).len() as int;
            let rest = others(messages);
            &&& kept.len() >= s
            &&& kept.take(s) == systems(messages)
            &&& rest.len() <= max_messages ==> kept.skip(s) == rest
            &&& rest.len() > max_messages ==> kept.len() == s + max_messages && kept.skip(s) == rest.skip(
                rest.len() - max_messages,
            )
        }),
{
    let kept = window(messages, max_messages);
    let s = systems(messages).len() as int;
    let rest = others(messages);
    assert(kept.take(s) =~= systems(messages));
    if rest.len() <= max_messages {
        assert(kept.skip(s) =~= rest);
    } else {
        assert(kept.skip(s) =~= rest.skip(rest.len() - max_messages));
    }
}

/// Truncation keeps the system messages first and then an end of the others. Where the
/// system messages leave room, what is kept fits the limit, counted with the tokenizer,
/// and with the next older message it would not; where they leave none, no other
/// message that takes tokens stays.
pub proof fn law_truncation_keeps_what_fits<T: Tokenizer>(messages: Seq<MessageView>, max_tokens: nat, tokenizer: T)
    ensures
        ({
            let kept = fitted(messages, max_tokens, tokenizer);
            let s = systems(messages).len() as int;
            let rest = others(messages);
            let n = kept.len() - s;
            let used = total_tokens(systems(messages), tokenizer);
            &&& 0 <= n <= rest.len()
            &&& kept.take(s) == systems(messages)
            &&& kept.skip(s) == rest.skip(rest.len() - n)
            &&& used < max_tokens ==> used + total_tokens(kept.skip(s), tokenizer) <= max_tokens
            &&& used < max_tokens && n < rest.len() ==> used + total_tokens(
                rest.skip(rest.len() - n - 1),
                tokenizer,
            ) > max_tokens
            &&& used >= max_tokens ==> n == 0
        }),
{
    let rest = others(messages);
    let budget = token_budget(messages, max_tokens, tokenizer);
    let m = fitting(rest, budget, tokenizer);
    lemma_fitting(rest, budget, tokenizer);
    let kept = fitted(messages, max_tokens, tokenizer);
    let s = systems(messages).len() as int;
    let n = kept.len() - s;
    assert(last_items(rest, m) =~= rest.skip(rest.len() - m));
    assert(n == m);
    assert(kept.take(s) =~= systems(messages));
    assert(kept.skip(s) =~= rest.skip(rest.len() - n));
    if n < rest.len() {
        assert(last_items(rest, (n + 1) as nat) =~= rest.skip(rest.len() - n - 1));
    }
    if total_tokens(systems(messages), tokenizer) >= max_tokens && rest.len() > 0 {
        assert(message_tokens_of(rest.last(), tokenizer) > 0);
    }
}

/// Messages of one text each, such as people write, are truncated by their texts: what
/// is kept has texts whose tokens, and four for each message, sum to at most the limit.
pub proof fn law_kept_texts_fit<T: Tokenizer>(
    role: Role,
    texts: Seq<Seq<char>>,
    messages: Seq<MessageView>,
    tokenizer: T,
)
    requires
        messages.len() == texts.len(),
        forall|i: int| 0 <= i < texts.len() ==> #[trigger] messages[i] == text_message(role, texts[i]),
    ensures
        total_tokens(messages, tokenizer) == texts.fold_left(
            0nat,
            |sum: nat, text: Seq<char>| sum + tokenizer.tokens(text) + 4,
        ),
    decreases texts.len(),
{
    let add = |sum: nat, text: Seq<char>| sum + tokenizer.tokens(text) + 4;
    reveal_with_fuel(Seq::<_>::fold_left, 2);
    if texts.len() > 0 {
        let rest = messages.drop_last();
        assert forall|i: int| 0 <= i < rest.len() implies #[trigger] rest[i] == text_message(
            role,
            texts.drop_last()[i],
        ) by {
            assert(rest[i] == messages[i]);
        }
        law_kept_texts_fit(role, texts.drop_last(), rest, tokenizer);
        assert(messages[messages.len() - 1] == text_message(role, texts.last()));
        law_tokens_are_counted(
            role,
            texts.last(),
            messages.last(),
            Seq::empty(),
            ContentView::Text { text: texts.last() },
            rest,
            tokenizer,
        );
        assert(rest.push(messages.last()) =~= messages);
    }
}

/// A text that is short enough stays as it is. Of a longer one the first characters
/// stay, as many as it may have, and a note says how many are missing.
pub proof fn law_shortening_keeps_the_beginning(text: Seq<char>, max: nat)
    ensures
        text.len() <= max ==> shortened(text, max) == text,
        text.len() > max ==> {
            &&& shortened(text, max).len() > max
            &&& shortened(text, max).take(max as int) == text.take(max as int)
            &&& shortened(text, max).skip(max as int) == "... [truncated "@ + decimal((text.len() - max) as nat)
                + " chars]"@
        },
{
    if text.len() > max {
        reveal_strlit("... [truncated ");
        assert(shortened(text, max).take(max as int) =~= text.take(max as int));
        assert(shortened(text, max).skip(max as int) =~= "... [truncated "@ + decimal((text.len() - max) as nat)
            + " chars]"@);
    }
}

/// Cutting tool results changes nothing but the contents of tool results: every message
/// stays in its place with its role, name and metadata, every other block stays as it
/// is, and a tool result still answers the same call.
pub proof fn law_only_tool_results_are_cut(messages: Seq<MessageView>, max: nat)
    ensures
        results_shortened(messages, max).len() == messages.len(),
        forall|i: int|
            0 <= i < messages.len() ==> {
                let after = #[trigger] results_shortened(messages, max)[i];
                &&& after.role == messages[i].role
                &&& after.name == messages[i].name
                &&& after.metadata == messages[i].metadata
                &&& after.content.len() == messages[i].content.len()
            },
        forall|i: int, j: int|
            0 <= i < messages.len() && 0 <= j < messages[i].content.len() ==> {
                let block = messages[i].content[j];
                let after = #[trigger] results_shortened(messages, max)[i].content[j];
                &&& !(block is ToolResult) ==> after == block
                &&& block is ToolResult ==> after is ToolResult && after->tool_call_id == block->tool_call_id
                    && after->content == shortened(block->content, max)
            },
{
}

/// A pipeline gives what one strategy makes to the next. A window step keeps the newest
/// messages, a truncation step what fits, and a step on tool results cuts them, each
/// with its own limit; a pipeline without steps changes nothing.
pub proof fn law_pipeline_composes(
    first: Seq<CompactionStep>,
    step: CompactionStep,
    rest: Seq<CompactionStep>,
    messages: Seq<MessageView>,
)
    ensures
        steps_compacted(Seq::empty(), messages) == messages,
        steps_compacted(first + rest, messages) == steps_compacted(rest, steps_compacted(first, messages)),
        match step {
            CompactionStep::SlidingWindow(s) => steps_compacted(seq![step], messages) == window(
                messages,
                s.max_messages as nat,
            ),
            CompactionStep::Truncation(s) => steps_compacted(seq![step], messages) == fitted(
                messages,
                s.max_tokens as nat,
                s.tokenizer,
            ),
            CompactionStep::ToolResult(s) => steps_compacted(seq![step], messages) == results_shortened(
                messages,
                s.max_result_chars as nat,
            ),
        },
    decreases rest.len(),
{
    let one = seq![step];
    assert(one.drop_last() =~= Seq::empty());
    assert(steps_compacted(one.drop_last(), messages) == messages);
    if rest.len() == 0 {
        assert(first + rest =~= first);
    } else {
        law_pipeline_composes(first, step, rest.drop_last(), messages);
        assert((first + rest).drop_last() =~= first + rest.drop_last());
        assert((first + rest).last() == rest.last());
    }
}

/// What a summary leaves stands in this order: the system messages, a system message
/// that says the summary, if there is one, and the recent messages.
pub proof fn law_summary_stands_before_the_recent(
    system: Seq<MessageView>,
    summary: Seq<char>,
    recent: Seq<MessageView>,
)
    ensures
        ({
            let out = summarized(system, summary, recent);
            let s = system.len() as int;
            &&& out.len() == s + recent.len() + if summary.len() == 0 { 0int } else { 1int }
            &&& out.take(s) == system
            &&& out.skip(out.len() - recent.len()) == recent
            &&& summary.len() > 0 ==> out[s].role == Role::System && text_of(out[s].content)
                == "[Conversation summary]: "@ + summary
        }),
{
    let out = summarized(system, summary, recent);
    let s = system.len() as int;
    assert(out.take(s) =~= system);
    assert(out.skip(out.len() - recent.len()) =~= recent);
    if summary.len() > 0 {
        law_text_message_says_its_text(Role::System, "[Conversation summary]: "@ + summary);
        assert(out[s] == text_message(Role::System, "[Conversation summary]: "@ + summary));
    }
}

/// Unless it is told otherwise, the model is asked for a concise summary that keeps what
/// the conversation needs to go on.
pub proof fn law_default_summary_prompt()
    ensures
        summary_prompt()
            == "Summarize the following conversation concisely, preserving key facts, decisions, and context needed for continuing the conversation."@,
{
}

/// The transcript that is summarized has one line for each message, in their order: who
/// spoke, and all the text that was said.
pub proof fn law_transcript_has_every_message(messages: Seq<MessageView>)
    ensures
        transcript_lines(messages).len() == messages.len(),
        forall|i: int|
            0 <= i < messages.len() ==> #[trigger] transcript_lines(messages)[i] == (match messages[i].role {
                Role::System => "System"@,
                Role::User => "User"@,
                Role::Assistant => "Assistant"@,
                Role::Tool => "Tool"@,
            }) + ": "@ + text_of(messages[i].content),
{
}

} // verus!
