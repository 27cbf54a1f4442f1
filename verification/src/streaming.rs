//! A run that streams: the pieces of text and tool calls that a provider sends
//! are put together into one assistant message per round.

use vstd::prelude::*;

use crate::agent::{answer_message, too_many_rounds, too_many_rounds_error, RunStep};
use crate::error::{AgentError, AgentResult, ErrorView};
use crate::http::DEFAULT_MAX_STREAM_STATE_BYTES;
use crate::json::{parsed, Json, JsonObject, JsonView};
use crate::redact::{byte_len, utf8_len};
use crate::text::{cat2, cat3, decimal, decimal_of, str_eq};
use crate::types::{
    bare_message, calls_of, clone_messages, extend_messages, law_calls_of_blocks, law_text_of_blocks, text_of,
    AgentResponseUpdate, ChatResponseUpdate, Content, ContentView, FinishReason, Message, MessageView, Role, ToolCallUpdate, ToolCallUpdateView, UpdateView,
};

verus! {

/// A tool call that is being put together from streamed pieces.
#[derive(Debug)]
pub struct StreamingToolCall {
    pub id: String,
    pub name: String,
    pub arguments: String,
}

/// What a streamed tool call holds.
#[verifier::ext_equal]
pub struct StreamingCallView {
    pub id: Seq<char>,
    pub name: Seq<char>,
    pub arguments: Seq<char>,
}

impl View for StreamingToolCall {
    type V = StreamingCallView;

    open spec fn view(&self) -> StreamingCallView {
        StreamingCallView { id: self.id@, name: self.name@, arguments: self.arguments@ }
    }
}

impl DeepView for StreamingToolCall {
    type V = StreamingCallView;

    open spec fn deep_view(&self) -> StreamingCallView {
        self@
    }
}

/// The position of the first call of an id.
pub open spec fn call_index(calls: Seq<StreamingCallView>, id: Seq<char>) -> Option<int>
    decreases calls.len(),
{
    if calls.len() == 0 {
        None
    } else {
        match call_index(calls.drop_last(), id) {
            Some(i) => Some(i),
            None => if calls.last().id == id {
                Some(calls.len() - 1)
            } else {
                None
            },
        }
    }
}

/// A call with one more piece: the first name that is not empty stays, and the
/// arguments grow.
pub open spec fn call_extended(call: StreamingCallView, delta: ToolCallUpdateView) -> StreamingCallView {
    StreamingCallView {
        id: call.id,
        name: if call.name.len() == 0 {
            delta.name
        } else {
            call.name
        },
        arguments: call.arguments + delta.arguments_delta,
    }
}

/// The call that a piece belongs to: the one of its id, or the last one if the
/// piece carries no id. `None` if the piece starts a call.
pub open spec fn delta_target(calls: Seq<StreamingCallView>, delta: ToolCallUpdateView) -> Option<int> {
    if delta.id.len() > 0 {
        call_index(calls, delta.id)
    } else if calls.len() > 0 {
        Some(calls.len() - 1)
    } else {
        None
    }
}

/// The calls after one more piece.
pub open spec fn delta_pushed(calls: Seq<StreamingCallView>, delta: ToolCallUpdateView) -> Seq<StreamingCallView> {
    match delta_target(calls, delta) {
        Some(i) => calls.update(i, call_extended(calls[i], delta)),
        None => calls.push(StreamingCallView { id: delta.id, name: delta.name, arguments: delta.arguments_delta }),
    }
}

/// The index that [`call_index`] gives is within the calls and has the id.
pub proof fn lemma_call_index(calls: Seq<StreamingCallView>, id: Seq<char>)
    ensures
        match call_index(calls, id) {
            Some(i) => 0 <= i < calls.len() && calls[i].id == id,
            None => forall|k: int| 0 <= k < calls.len() ==> (#[trigger] calls[k]).id != id,
        },
    decreases calls.len(),
{
    if calls.len() > 0 {
        lemma_call_index(calls.drop_last(), id);
        assert forall|k: int| 0 <= k < calls.len() - 1 implies (#[trigger] calls[k]) == calls.drop_last()[k] by {}
    }
}

/// The position of the first call of an id.
fn find_call(calls: &Vec<StreamingToolCall>, id: &str) -> (found: Option<usize>)
    ensures
        match found {
            Some(i) => call_index(calls.deep_view(), id@) == Some(i as int) && i < calls@.len(),
            None => call_index(calls.deep_view(), id@) is None,
        },
{
    let mut i: usize = 0;
    let ghost all = calls.deep_view();
    while i < calls.len()
        invariant
            i <= calls@.len(),
            all == calls.deep_view(),
            call_index(all.take(i as int), id@) is None,
        decreases calls@.len() - i,
    {
        assert(all.take(i + 1).drop_last() =~= all.take(i as int));
        if str_eq(calls[i].id.as_str(), id) {
            proof {
                lemma_call_found(all, id@, i + 1);
            }
            return Some(i);
        }
        i += 1;
    }
    assert(all.take(i as int) =~= all);
    None
}

/// A call found among the first ones is the one found among all.
proof fn lemma_call_found(calls: Seq<StreamingCallView>, id: Seq<char>, n: int)
    requires
        0 <= n <= calls.len(),
        call_index(calls.take(n), id) is Some,
    ensures
        call_index(calls, id) == call_index(calls.take(n), id),
    decreases calls.len() - n,
{
    if n < calls.len() {
        assert(calls.take(n + 1).drop_last() =~= calls.take(n));
        lemma_call_found(calls, id, n + 1);
    } else {
        assert(calls.take(n) =~= calls);
    }
}

/// Add a piece of a tool call to the call it belongs to, or start a call with it.
pub fn push_tool_call_delta(acc: &mut Vec<StreamingToolCall>, delta: &ToolCallUpdate)
    ensures
        final(acc).deep_view() == delta_pushed(old(acc).deep_view(), delta@),
{
    let ghost before = acc.deep_view();
    let target: Option<usize> = if !delta.id.as_str().is_empty() {
        find_call(acc, delta.id.as_str())
    } else if acc.len() > 0 {
        Some(acc.len() - 1)
    } else {
        None
    };
    match target {
        Some(i) => {
            let mut call = acc.remove(i);
            if call.name.as_str().is_empty() {
                call.name = delta.name.clone();
            }
            call.arguments.append(delta.arguments_delta.as_str());
            acc.insert(i, call);
            assert(acc.deep_view() =~= before.update(i as int, call_extended(before[i as int], delta@)));
        },
        None => {
            acc.push(
                StreamingToolCall {
                    id: delta.id.clone(),
                    name: delta.name.clone(),
                    arguments: delta.arguments_delta.clone(),
                },
            );
            assert(acc.deep_view() =~= before.push(
                StreamingCallView { id: delta@.id, name: delta@.name, arguments: delta@.arguments_delta },
            ));
        },
    }
}

/// The bytes that calls take: ids, names and arguments.
pub open spec fn calls_bytes(calls: Seq<StreamingCallView>) -> nat
    decreases calls.len(),
{
    if calls.len() == 0 {
        0
    } else {
        let call = calls.last();
        calls_bytes(calls.drop_last()) + utf8_len(call.id) + utf8_len(call.name) + utf8_len(call.arguments)
    }
}

/// One round of a stream: what the provider has sent so far.
#[derive(Debug)]
pub struct StreamRound {
    pub text: String,
    pub calls: Vec<StreamingToolCall>,
    pub finish_reason: Option<FinishReason>,
}

/// What a round holds.
#[verifier::ext_equal]
pub struct StreamRoundView {
    pub text: Seq<char>,
    pub calls: Seq<StreamingCallView>,
    pub finish_reason: Option<FinishReason>,
}

impl View for StreamRound {
    type V = StreamRoundView;

    open spec fn view(&self) -> StreamRoundView {
        StreamRoundView { text: self.text@, calls: self.calls.deep_view(), finish_reason: self.finish_reason }
    }
}

/// A round in which nothing has come yet.
pub open spec fn empty_round() -> StreamRoundView {
    StreamRoundView { text: Seq::empty(), calls: Seq::empty(), finish_reason: None }
}

/// A round after one more update.
pub open spec fn round_updated(round: StreamRoundView, update: UpdateView) -> StreamRoundView {
    StreamRoundView {
        text: match update.text {
            Some(text) => round.text + text,
            None => round.text,
        },
        calls: match update.tool_call {
            Some(delta) => delta_pushed(round.calls, delta),
            None => round.calls,
        },
        finish_reason: match update.finish_reason {
            Some(reason) => Some(reason),
            None => round.finish_reason,
        },
    }
}

/// The bytes that the state of a round takes.
pub open spec fn round_bytes(round: StreamRoundView) -> nat {
    utf8_len(round.text) + calls_bytes(round.calls)
}

/// The error of a round whose state has grown too large.
pub open spec fn state_too_large() -> ErrorView {
    ErrorView::InvalidResponse(
        "streaming state exceeded "@ + decimal(DEFAULT_MAX_STREAM_STATE_BYTES as nat) + " bytes"@,
    )
}

/// The bytes that calls take, or any larger number if it is too large to count.
fn count_calls_bytes(calls: &Vec<StreamingToolCall>) -> (n: usize)
    ensures
        n == calls_bytes(calls.deep_view()) || (n == usize::MAX && calls_bytes(calls.deep_view()) > usize::MAX),
{
    let mut n: usize = 0;
    let mut i: usize = 0;
    let ghost all = calls.deep_view();
    while i < calls.len()
        invariant
            i <= calls@.len(),
            all == calls.deep_view(),
            n == calls_bytes(all.take(i as int)) || (n == usize::MAX && calls_bytes(all.take(i as int)) > usize::MAX),
        decreases calls@.len() - i,
    {
        assert(all.take(i + 1).drop_last() =~= all.take(i as int));
        n = n.saturating_add(byte_len(calls[i].id.as_str()));
        n = n.saturating_add(byte_len(calls[i].name.as_str()));
        n = n.saturating_add(byte_len(calls[i].arguments.as_str()));
        i += 1;
    }
    assert(all.take(i as int) =~= all);
    n
}

impl StreamRound {
    /// A round in which nothing has come yet.
    pub fn new() -> (round: Self)
        ensures
            round@ == empty_round(),
    {
        let round = StreamRound { text: String::new(), calls: Vec::new(), finish_reason: None };
        assert(round@ =~= empty_round());
        round
    }

    /// Take one update. It is passed on to the caller unless the state of the
    /// round has grown too large.
    pub fn on_update(&mut self, update: ChatResponseUpdate) -> (result: AgentResult<AgentResponseUpdate>)
        ensures
            final(self)@ == round_updated(old(self)@, update@),
            match result {
                Ok(passed) => {
                    &&& round_bytes(final(self)@) <= DEFAULT_MAX_STREAM_STATE_BYTES
                    &&& passed.inner@ == update@
                    &&& passed.text.deep_view() == update@.text
                },
                Err(error) => {
                    &&& round_bytes(final(self)@) > DEFAULT_MAX_STREAM_STATE_BYTES
                    &&& error@ == state_too_large()
                },
            },
    {
        if let Some(text) = &update.text {
            self.text.append(text.as_str());
        }
        if let Some(delta) = &update.tool_call {
            push_tool_call_delta(&mut self.calls, delta);
        }
        if update.finish_reason.is_some() {
            self.finish_reason = update.finish_reason;
        }
        let n: usize = byte_len(self.text.as_str()).saturating_add(count_calls_bytes(&self.calls));
        if n > DEFAULT_MAX_STREAM_STATE_BYTES {
            return Err(
                AgentError::InvalidResponse(
                    cat3(
                        "streaming state exceeded ",
                        decimal_of(DEFAULT_MAX_STREAM_STATE_BYTES as u64).as_str(),
                        " bytes",
                    ),
                ),
            );
        }
        Ok(AgentResponseUpdate::from_update(update))
    }
}

/// The arguments of a tool call: the document that the text denotes, or the
/// text itself as a JSON string where it denotes none.
pub open spec fn arguments_of(outcome: Result<JsonView, Seq<char>>, raw: Seq<char>) -> JsonView {
    match outcome {
        Ok(value) => value,
        Err(_) => JsonView::Text(raw),
    }
}

/// The arguments of a tool call, from what the parser made of their text.
pub fn arguments_or_raw(outcome: Result<Json, String>, raw: &str) -> (arguments: Json)
    ensures
        arguments@ == arguments_of(
            match outcome {
                Ok(value) => Ok(value@),
                Err(message) => Err(message@),
            },
            raw@,
        ),
{
    match outcome {
        Ok(value) => value,
        Err(_) => Json::text(raw),
    }
}

/// The tool call blocks of calls, in order.
pub open spec fn call_blocks(calls: Seq<StreamingCallView>) -> Seq<ContentView> {
    Seq::new(
        calls.len(),
        |i: int|
            ContentView::ToolCall {
                id: calls[i].id,
                name: calls[i].name,
                arguments: arguments_of(parsed(calls[i].arguments), calls[i].arguments),
            },
    )
}

/// The assistant message that a round makes: its text, unless it is empty, then its calls.
pub open spec fn round_message(text: Seq<char>, calls: Seq<StreamingCallView>) -> MessageView {
    bare_message(
        Role::Assistant,
        (if text.len() == 0 {
            Seq::<ContentView>::empty()
        } else {
            seq![ContentView::Text { text }]
        }) + call_blocks(calls),
    )
}

/// The assistant message that streamed text and calls make.
pub fn build_assistant_message(text: &str, calls: &Vec<StreamingToolCall>) -> (message: Message)
    ensures
        message@ == round_message(text@, calls.deep_view()),
{
    let mut content: Vec<Content> = Vec::new();
    if !text.is_empty() {
        content.push(Content::text(text));
    }
    let ghost first = content.deep_view();
    let ghost all = calls.deep_view();
    assert(first =~= if text@.len() == 0 {
        Seq::<ContentView>::empty()
    } else {
        seq![ContentView::Text { text: text@ }]
    });
    assert(first + call_blocks(all).take(0) =~= first);
    let mut i: usize = 0;
    while i < calls.len()
        invariant
            i <= calls@.len(),
            all == calls.deep_view(),
            content.deep_view() == first + call_blocks(all).take(i as int),
        decreases calls@.len() - i,
    {
        let ghost before = content.deep_view();
        let raw = calls[i].arguments.as_str();
        let arguments = arguments_or_raw(Json::parse(raw), raw);
        content.push(Content::tool_call(calls[i].id.as_str(), calls[i].name.as_str(), arguments));
        assert(content.deep_view() =~= before.push(call_blocks(all)[i as int]));
        assert(first + call_blocks(all).take(i + 1) =~= before.push(call_blocks(all)[i as int]));
        i += 1;
    }
    assert(call_blocks(all).take(i as int) =~= call_blocks(all));
    Message::bare(Role::Assistant, content)
}

/// One run of an agent that streams.
#[derive(Debug)]
pub struct StreamRun {
    /// The messages that the caller sent.
    pub input: Vec<Message>,
    /// What is sent to the model next.
    pub conversation: Vec<Message>,
    /// What the run has produced so far.
    pub produced: Vec<Message>,
    /// How many streams have been read to their end.
    pub rounds: usize,
    /// How many streams may be opened.
    pub max_rounds: usize,
    /// The tool calls of the last stream that are not answered yet.
    pub pending: Vec<StreamingToolCall>,
}

/// What a streaming run holds.
#[verifier::ext_equal]
pub struct StreamRunView {
    pub input: Seq<MessageView>,
    pub conversation: Seq<MessageView>,
    pub produced: Seq<MessageView>,
    pub rounds: nat,
    pub max_rounds: nat,
    pub pending: Seq<StreamingCallView>,
}

impl View for StreamRun {
    type V = StreamRunView;

    open spec fn view(&self) -> StreamRunView {
        StreamRunView {
            input: self.input.deep_view(),
            conversation: self.conversation.deep_view(),
            produced: self.produced.deep_view(),
            rounds: self.rounds as nat,
            max_rounds: self.max_rounds as nat,
            pending: self.pending.deep_view(),
        }
    }
}

/// Whether a stream ends the run: it called no tool, or the model did not stop to use tools.
pub open spec fn round_ends_run(round: StreamRoundView) -> bool {
    round.calls.len() == 0 || round.finish_reason != Some(FinishReason::ToolUse)
}

/// A run goes on after a stream exactly if it called tools and the model stopped to use
/// them.
pub proof fn law_streaming_run_goes_on_for_tools(round: StreamRoundView)
    ensures
        !round_ends_run(round) <==> round.calls.len() > 0 && round.finish_reason == Some(FinishReason::ToolUse),
{
}

/// The run after a stream was read to its end.
pub open spec fn round_closed(run: StreamRunView, round: StreamRoundView) -> StreamRunView {
    StreamRunView {
        conversation: run.conversation.push(round_message(round.text, round.calls)),
        produced: run.produced.push(round_message(round.text, round.calls)),
        rounds: run.rounds + 1,
        pending: if round_ends_run(round) {
            run.pending
        } else {
            round.calls
        },
        ..run
    }
}

/// The run after the first pending tool call was answered.
pub open spec fn stream_answered(run: StreamRunView, result: Seq<char>) -> StreamRunView {
    let call = run.pending[0];
    let message = answer_message(call.id, call.name, result);
    StreamRunView {
        conversation: run.conversation.push(message),
        produced: run.produced.push(message),
        pending: run.pending.skip(1),
        ..run
    }
}

/// What is done about a pending call: it is invoked with the arguments that its
/// text denotes, or answered at once with the parser's error.
pub open spec fn call_input(outcome: Result<JsonView, Seq<char>>) -> Result<JsonView, Seq<char>> {
    match outcome {
        Ok(value) => Ok(value),
        Err(message) => Err("Error: invalid JSON arguments: "@ + message),
    }
}

/// What is done about a call, from what the parser made of its arguments.
pub fn call_input_of(outcome: Result<Json, String>) -> (input: Result<Json, String>)
    ensures
        match input {
            Ok(value) => outcome is Ok && outcome->Ok_0@ == value@,
            Err(answer) => outcome is Err && answer@ == "Error: invalid JSON arguments: "@ + outcome->Err_0@,
        },
{
    match outcome {
        Ok(value) => Ok(value),
        Err(message) => Err(cat2("Error: invalid JSON arguments: ", message.as_str())),
    }
}

impl StreamRun {
    /// Start a run on a conversation.
    pub fn start(input: Vec<Message>, conversation: Vec<Message>, max_rounds: usize) -> (run: Self)
        ensures
            run@ == (StreamRunView {
                input: input.deep_view(),
                conversation: conversation.deep_view(),
                produced: Seq::empty(),
                rounds: 0,
                max_rounds: max_rounds as nat,
                pending: Seq::empty(),
            }),
    {
        let run = StreamRun {
            input,
            conversation,
            produced: Vec::new(),
            rounds: 0,
            max_rounds,
            pending: Vec::new(),
        };
        assert(run@.produced =~= Seq::empty());
        assert(run@.pending =~= Seq::empty());
        run
    }

    /// What the run does next: it answers the pending tool calls, then opens a
    /// stream, unless all its rounds are used up.
    pub fn next_step(&self) -> (step: RunStep)
        ensures
            match step {
                RunStep::InvokeTool => self@.pending.len() > 0,
                RunStep::CallModel => self@.pending.len() == 0 && self@.rounds < self@.max_rounds,
                RunStep::Fail(error) => self@.pending.len() == 0 && self@.rounds >= self@.max_rounds && error@
                    == too_many_rounds(self@.max_rounds),
            },
    {
        if self.pending.len() > 0 {
            RunStep::InvokeTool
        } else if self.rounds < self.max_rounds {
            RunStep::CallModel
        } else {
            RunStep::Fail(too_many_rounds_error(self.max_rounds))
        }
    }

    /// Close a stream that was read to its end. If it ends the run, what goes to
    /// the history comes back.
    pub fn on_stream_end(&mut self, round: StreamRound) -> (history: Option<Vec<Message>>)
        requires
            old(self)@.pending.len() == 0,
            old(self)@.rounds < old(self)@.max_rounds,
        ensures
            final(self)@ == round_closed(old(self)@, round@),
            match history {
                Some(messages) => round_ends_run(round@) && messages.deep_view() == old(self)@.input
                    + final(self)@.produced,
                None => !round_ends_run(round@),
            },
            history is None <==> round@.calls.len() > 0 && round@.finish_reason == Some(FinishReason::ToolUse),
            final(self)@.conversation.drop_last() == old(self)@.conversation,
            final(self)@.produced.drop_last() == old(self)@.produced,
            final(self)@.conversation.last() == round_message(round@.text, round@.calls),
            final(self)@.produced.last() == final(self)@.conversation.last(),
            history is None ==> final(self)@.pending == round@.calls,
            history is Some ==> final(self)@.pending.len() == 0,
            final(self)@.rounds == old(self)@.rounds + 1,
            final(self)@.max_rounds == old(self)@.max_rounds,
            final(self)@.input == old(self)@.input,
    {
        let ghost before = self@;
        let message = build_assistant_message(round.text.as_str(), &round.calls);
        self.produced.push(message.clone());
        self.conversation.push(message);
        self.rounds = self.rounds + 1;
        let ghost added = round_message(round@.text, round@.calls);
        assert(self.conversation.deep_view() =~= before.conversation.push(added));
        assert(self.produced.deep_view() =~= before.produced.push(added));
        let wants_tools = match round.finish_reason {
            Some(FinishReason::ToolUse) => true,
            _ => false,
        };
        assert(self@.conversation.drop_last() =~= before.conversation);
        assert(self@.produced.drop_last() =~= before.produced);
        if round.calls.len() == 0 || !wants_tools {
            let mut history = clone_messages(&self.input);
            extend_messages(&mut history, &self.produced);
            assert(self@ =~= round_closed(before, round@));
            return Some(history);
        }
        self.pending = round.calls;
        assert(self@ =~= round_closed(before, round@));
        None
    }

    /// What to do about the first pending tool call: its arguments, or the answer
    /// that it gets without being invoked.
    pub fn pending_input(&self) -> (input: Result<Json, String>)
        requires
            self@.pending.len() > 0,
        ensures
            call_input(parsed(self@.pending[0].arguments)) == (match input {
                Ok(value) => Ok(value@),
                Err(answer) => Err(answer@),
            }),
    {
        call_input_of(Json::parse(self.pending[0].arguments.as_str()))
    }

    /// Answer the first pending tool call.
    pub fn on_tool_result(&mut self, result: &str)
        requires
            old(self)@.pending.len() > 0,
        ensures
            final(self)@ == stream_answered(old(self)@, result@),
            final(self)@.conversation.drop_last() == old(self)@.conversation,
            final(self)@.produced.drop_last() == old(self)@.produced,
            final(self)@.conversation.last() == (MessageView {
                role: Role::Tool,
                content: seq![
                    ContentView::ToolResult { tool_call_id: old(self)@.pending[0].id, content: result@ },
                ],
                name: Some(old(self)@.pending[0].name),
                metadata: Map::empty(),
            }),
            final(self)@.produced.last() == final(self)@.conversation.last(),
            final(self)@.pending == old(self)@.pending.skip(1),
            final(self)@.input == old(self)@.input,
            final(self)@.rounds == old(self)@.rounds,
            final(self)@.max_rounds == old(self)@.max_rounds,
    {
        let ghost before = self@;
        let call = self.pending.remove(0);
        let mut content: Vec<Content> = Vec::new();
        content.push(Content::tool_result(call.id.as_str(), result));
        assert(content.deep_view() =~= seq![ContentView::ToolResult { tool_call_id: call.id@, content: result@ }]);
        let message = Message {
            role: Role::Tool,
            content,
            name: Some(call.name.clone()),
            metadata: JsonObject::new(),
        };
        self.conversation.push(message.clone());
        self.produced.push(message);
        let ghost added = answer_message(before.pending[0].id, before.pending[0].name, result@);
        assert(self.conversation.deep_view() =~= before.conversation.push(added));
        assert(self.produced.deep_view() =~= before.produced.push(added));
        assert(self.pending.deep_view() =~= before.pending.skip(1));
        assert(self@ =~= stream_answered(before, result@));
        assert(self@.conversation.drop_last() =~= before.conversation);
        assert(self@.produced.drop_last() =~= before.produced);
    }
}

// ---------------------------------------------------------------------------
// What a stream comes to
// ---------------------------------------------------------------------------

/// The text that updates make, one after the other.
pub open spec fn updates_text(updates: Seq<UpdateView>) -> Seq<char>
    decreases updates.len(),
{
    if updates.len() == 0 {
        Seq::empty()
    } else {
        match updates.last().text {
            Some(text) => updates_text(updates.drop_last()) + text,
            None => updates_text(updates.drop_last()),
        }
    }
}

/// What the elements of a stream of updates hold.
pub open spec fn stream_texts(elements: Seq<AgentResult<AgentResponseUpdate>>) -> Seq<char>
    decreases elements.len(),
{
    if elements.len() == 0 {
        Seq::empty()
    } else {
        let before = stream_texts(elements.drop_last());
        match elements.last() {
            Ok(update) => match update.text {
                Some(text) => before + text@,
                None => before,
            },
            Err(_) => before,
        }
    }
}

/// The text of a whole stream, or the first error in it.
pub fn collect_text(elements: Vec<AgentResult<AgentResponseUpdate>>) -> (result: AgentResult<String>)
    ensures
        match result {
            Ok(text) => text@ == stream_texts(elements@) && forall|i: int|
                0 <= i < elements@.len() ==> (#[trigger] elements@[i]) is Ok,
            Err(error) => exists|k: int|
                0 <= k < elements@.len() && #[trigger] elements@[k] == Err::<AgentResponseUpdate, AgentError>(error)
                    && forall|i: int| 0 <= i < k ==> (#[trigger] elements@[i]) is Ok,
        },
{
    let ghost all = elements@;
    let mut rest = elements;
    let mut text = String::new();
    let ghost mut done: int = 0;
    assert(all.skip(0) =~= all);
    while rest.len() > 0
        invariant
            0 <= done <= all.len(),
            all == elements@,
            rest@ == all.skip(done),
            text@ == stream_texts(all.take(done)),
            forall|i: int| 0 <= i < done ==> (#[trigger] all[i]) is Ok,
        decreases rest@.len(),
    {
        let element = rest.remove(0);
        assert(element == all[done]);
        assert(all.take(done + 1).drop_last() =~= all.take(done));
        match element {
            Ok(update) => {
                if let Some(piece) = &update.text {
                    text.append(piece.as_str());
                }
            },
            Err(error) => {
                return Err(error);
            },
        }
        proof {
            done = done + 1;
        }
        assert(rest@ =~= all.skip(done));
    }
    assert(all.take(done) =~= all);
    Ok(text)
}

/// A round after several updates.
pub open spec fn round_after(updates: Seq<UpdateView>) -> StreamRoundView
    decreases updates.len(),
{
    if updates.len() == 0 {
        empty_round()
    } else {
        round_updated(round_after(updates.drop_last()), updates.last())
    }
}

/// The pieces of tool calls among updates.
pub open spec fn pieces_among(updates: Seq<UpdateView>) -> Seq<ToolCallUpdateView>
    decreases updates.len(),
{
    if updates.len() == 0 {
        Seq::empty()
    } else {
        match updates.last().tool_call {
            Some(piece) => pieces_among(updates.drop_last()).push(piece),
            None => pieces_among(updates.drop_last()),
        }
    }
}

/// The calls that pieces make.
pub open spec fn calls_of_pieces(pieces: Seq<ToolCallUpdateView>) -> Seq<StreamingCallView>
    decreases pieces.len(),
{
    if pieces.len() == 0 {
        Seq::empty()
    } else {
        delta_pushed(calls_of_pieces(pieces.drop_last()), pieces.last())
    }
}

/// The arguments that the pieces of an id make.
pub open spec fn arguments_of_id(pieces: Seq<ToolCallUpdateView>, id: Seq<char>) -> Seq<char>
    decreases pieces.len(),
{
    if pieces.len() == 0 {
        Seq::empty()
    } else if pieces.last().id == id {
        arguments_of_id(pieces.drop_last(), id) + pieces.last().arguments_delta
    } else {
        arguments_of_id(pieces.drop_last(), id)
    }
}

/// Whether pieces of an id have come.
pub open spec fn mentions(pieces: Seq<ToolCallUpdateView>, id: Seq<char>) -> bool {
    exists|i: int| 0 <= i < pieces.len() && (#[trigger] pieces[i]).id == id
}

/// No text is lost or changed in a stream: the message of a round holds the texts of
/// its updates one after the other, and its calls are made of the pieces of calls
/// alone.
pub proof fn law_round_keeps_the_stream(updates: Seq<UpdateView>)
    ensures
        round_after(updates).text == updates_text(updates),
        round_after(updates).calls == calls_of_pieces(pieces_among(updates)),
    decreases updates.len(),
{
    if updates.len() > 0 {
        law_round_keeps_the_stream(updates.drop_last());
        if let Some(piece) = updates.last().tool_call {
            let before = pieces_among(updates.drop_last());
            assert(before.push(piece).drop_last() =~= before);
        }
    }
}

/// Pieces that carry ids make one call for each id, however they are mixed, and its
/// arguments are the pieces of that id one after the other.
pub proof fn law_calls_are_put_together(pieces: Seq<ToolCallUpdateView>, id: Seq<char>)
    requires
        forall|i: int| 0 <= i < pieces.len() ==> (#[trigger] pieces[i]).id.len() > 0,
    ensures
        mentions(pieces, id) <==> call_index(calls_of_pieces(pieces), id) is Some,
        forall|i: int, j: int|
            0 <= i < j < calls_of_pieces(pieces).len() ==> (#[trigger] calls_of_pieces(pieces)[i]).id != (
            #[trigger] calls_of_pieces(pieces)[j]).id,
        match call_index(calls_of_pieces(pieces), id) {
            Some(i) => calls_of_pieces(pieces)[i].id == id && calls_of_pieces(pieces)[i].arguments == arguments_of_id(
                pieces,
                id,
            ),
            None => arguments_of_id(pieces, id) == Seq::<char>::empty(),
        },
    decreases pieces.len(),
{
    let calls = calls_of_pieces(pieces);
    if pieces.len() > 0 {
        let rest = pieces.drop_last();
        let last = pieces.last();
        let before = calls_of_pieces(rest);
        assert forall|i: int| 0 <= i < rest.len() implies (#[trigger] rest[i]).id.len() > 0 by {
            assert(rest[i] == pieces[i]);
        }
        assert(pieces[pieces.len() - 1].id.len() > 0);
        law_calls_are_put_together(rest, id);
        law_calls_are_put_together(rest, last.id);
        lemma_call_index(before, id);
        lemma_call_index(before, last.id);
        lemma_call_index(calls, id);
        lemma_call_index(calls, last.id);
        match call_index(before, last.id) {
            Some(k) => {
                assert forall|i: int| 0 <= i < calls.len() implies (#[trigger] calls[i]).id == before[i].id by {}
                assert(calls.len() == before.len());
            },
            None => {
                assert forall|i: int| 0 <= i < before.len() implies (#[trigger] calls[i]) == before[i] by {}
                assert(calls[before.len() as int].id == last.id);
            },
        }
        assert(distinct_calls(before));
        assert(distinct_calls(calls)) by {
            assert forall|i: int, j: int| 0 <= i < j < calls.len() implies (#[trigger] calls[i]).id != (
            #[trigger] calls[j]).id by {
                if j < before.len() {
                    assert(before[i].id != before[j].id);
                }
            }
        }
        if mentions(rest, id) {
            let i = choose|i: int| 0 <= i < rest.len() && (#[trigger] rest[i]).id == id;
            assert(pieces[i].id == id);
        }
        if mentions(pieces, id) && id != last.id {
            let i = choose|i: int| 0 <= i < pieces.len() && (#[trigger] pieces[i]).id == id;
            assert(rest[i].id == id);
        }
        assert(pieces[pieces.len() - 1].id == last.id);
        if id == last.id {
            match call_index(before, id) {
                Some(k) => {
                    assert(calls[k].id == id);
                    let n = call_index(calls, id)->Some_0;
                    assert(calls[n].id == calls[k].id);
                    assert(n == k);
                },
                None => {
                    let n = call_index(calls, id)->Some_0;
                    assert(calls[n].id == calls[before.len() as int].id);
                    assert(n == before.len());
                    assert(Seq::<char>::empty() + last.arguments_delta =~= last.arguments_delta);
                },
            }
        } else {
            match call_index(before, id) {
                Some(k) => {
                    assert(calls[k].id == id && calls[k] == before[k]);
                    let n = call_index(calls, id)->Some_0;
                    assert(n == k);
                },
                None => {
                    if let Some(n) = call_index(calls, id) {
                        assert(calls[n].id == id);
                        if n < before.len() {
                            assert(before[n].id == id);
                        }
                    }
                },
            }
        }
    }
}

spec fn distinct_calls(calls: Seq<StreamingCallView>) -> bool {
    forall|i: int, j: int| 0 <= i < j < calls.len() ==> (#[trigger] calls[i]).id != (#[trigger] calls[j]).id
}

// ---------------------------------------------------------------------------
// What a streaming run is for
// ---------------------------------------------------------------------------

/// The run after its pending tool calls were answered, one result for each.
pub open spec fn stream_all_answered(run: StreamRunView, results: Seq<Seq<char>>) -> StreamRunView
    decreases results.len(),
{
    if results.len() == 0 {
        run
    } else {
        stream_all_answered(stream_answered(run, results[0]), results.skip(1))
    }
}

/// Every call of a streamed round is answered by exactly one tool message, which holds
/// the result of that call under its id and has its name. The answers stand in the
/// order of the calls, the same ones in the conversation and in what the run produced,
/// and nothing stays pending.
pub proof fn law_every_streamed_call_is_answered(run: StreamRunView, results: Seq<Seq<char>>)
    requires
        results.len() == run.pending.len(),
    ensures
        ({
            let end = stream_all_answered(run, results);
            let n = run.produced.len() as int;
            &&& end.pending.len() == 0
            &&& end.produced.len() == n + results.len()
            &&& end.produced.take(n) == run.produced
            &&& end.conversation == run.conversation + end.produced.skip(n)
            &&& forall|k: int|
                n <= k < end.produced.len() ==> (#[trigger] end.produced[k]) == (MessageView {
                    role: Role::Tool,
                    content: seq![
                        ContentView::ToolResult { tool_call_id: run.pending[k - n].id, content: results[k - n] },
                    ],
                    name: Some(run.pending[k - n].name),
                    metadata: Map::empty(),
                })
            &&& end.input == run.input
            &&& end.rounds == run.rounds
            &&& end.max_rounds == run.max_rounds
        }),
    decreases results.len(),
{
    let end = stream_all_answered(run, results);
    let n = run.produced.len() as int;
    if results.len() == 0 {
        assert(end.produced.take(n) =~= run.produced);
        assert(end.conversation =~= run.conversation + end.produced.skip(n));
    } else {
        let next = stream_answered(run, results[0]);
        let rest = results.skip(1);
        law_every_streamed_call_is_answered(next, rest);
        assert forall|k: int| 0 <= k <= n implies (#[trigger] end.produced[k]) == next.produced[k] by {
            assert(end.produced.take(n + 1)[k] == next.produced[k]);
        }
        assert(end.produced.take(n) =~= run.produced);
        assert(end.conversation =~= run.conversation + end.produced.skip(n)) by {
            assert(end.produced[n] == next.produced[n]);
        }
        assert forall|k: int| n <= k < end.produced.len() implies (#[trigger] end.produced[k]) == (MessageView {
            role: Role::Tool,
            content: seq![
                ContentView::ToolResult { tool_call_id: run.pending[k - n].id, content: results[k - n] },
            ],
            name: Some(run.pending[k - n].name),
            metadata: Map::empty(),
        }) by {
            if k > n {
                assert(results[k - n] == rest[k - n - 1]);
                assert(run.pending[k - n] == next.pending[k - n - 1]);
            }
        }
    }
}

/// The run after streams that were read to their ends, with the answers to the calls of
/// each.
pub open spec fn stream_after_rounds(
    run: StreamRunView,
    rounds: Seq<(StreamRoundView, Seq<Seq<char>>)>,
) -> StreamRunView
    decreases rounds.len(),
{
    if rounds.len() == 0 {
        run
    } else {
        let before = stream_after_rounds(run, rounds.drop_last());
        stream_all_answered(round_closed(before, rounds.last().0), rounds.last().1)
    }
}

/// Nothing of a streaming run is lost: each round adds its message and the answers to
/// its calls, the same to the conversation and to what goes to the history; after all
/// answers the run has what it had before, and the limit and the input stay.
pub proof fn law_streaming_run_keeps_everything(
    run: StreamRunView,
    rounds: Seq<(StreamRoundView, Seq<Seq<char>>)>,
    round: StreamRoundView,
    results: Seq<Seq<char>>,
)
    requires
        run.pending.len() == 0,
        forall|i: int|
            0 <= i < rounds.len() ==> !round_ends_run((#[trigger] rounds[i]).0) && rounds[i].1.len()
                == rounds[i].0.calls.len(),
        !round_ends_run(round),
        results.len() == round.calls.len(),
    ensures
        ({
            let before = stream_after_rounds(run, rounds);
            let after = stream_after_rounds(run, rounds.push((round, results)));
            let n = before.produced.len() as int;
            &&& before.pending.len() == 0
            &&& before.rounds == run.rounds + rounds.len()
            &&& before.input == run.input
            &&& before.max_rounds == run.max_rounds
            &&& after.produced.len() == n + 1 + results.len()
            &&& after.produced.take(n) == before.produced
            &&& after.produced[n].role == Role::Assistant
            &&& text_of(after.produced[n].content) == round.text
            &&& calls_of(after.produced[n].content).len() == round.calls.len()
            &&& forall|i: int|
                0 <= i < round.calls.len() ==> {
                    &&& calls_of(after.produced[n].content)[i].0 == (#[trigger] round.calls[i]).id
                    &&& calls_of(after.produced[n].content)[i].1 == round.calls[i].name
                }
            &&& forall|k: int|
                n < k < after.produced.len() ==> (#[trigger] after.produced[k]) == (MessageView {
                    role: Role::Tool,
                    content: seq![
                        ContentView::ToolResult {
                            tool_call_id: round.calls[k - n - 1].id,
                            content: results[k - n - 1],
                        },
                    ],
                    name: Some(round.calls[k - n - 1].name),
                    metadata: Map::empty(),
                })
            &&& after.conversation == before.conversation + after.produced.skip(n)
        }),
    decreases rounds.len(),
{
    let before = stream_after_rounds(run, rounds);
    if rounds.len() > 0 {
        let rest = rounds.drop_last();
        assert forall|i: int| 0 <= i < rest.len() implies !round_ends_run((#[trigger] rest[i]).0) && rest[i].1.len()
            == rest[i].0.calls.len() by {
            assert(rest[i] == rounds[i]);
        }
        assert(!round_ends_run(rounds[rounds.len() - 1].0));
        law_streaming_run_keeps_everything(run, rest, rounds.last().0, rounds.last().1);
        law_every_streamed_call_is_answered(
            round_closed(stream_after_rounds(run, rest), rounds.last().0),
            rounds.last().1,
        );
    }
    let all = rounds.push((round, results));
    assert(all.drop_last() =~= rounds);
    let closed = round_closed(before, round);
    law_every_streamed_call_is_answered(closed, results);
    law_round_message_says_what_came(round.text, round.calls);
    let after = stream_after_rounds(run, all);
    assert(after == stream_all_answered(closed, results));
    let n = before.produced.len() as int;
    assert forall|k: int| 0 <= k <= n implies (#[trigger] after.produced[k]) == closed.produced[k] by {
        assert(after.produced.take(n + 1)[k] == closed.produced[k]);
    }
    assert(after.produced.take(n) =~= before.produced);
    assert(after.produced[n] == round_message(round.text, round.calls));
    assert(after.conversation =~= before.conversation + after.produced.skip(n));
}

/// The message of a round says the text that came and makes the calls that came, in
/// their order, each under its id and name; its arguments are the document that their
/// text denotes, or that text where it denotes none.
pub proof fn law_round_message_says_what_came(text: Seq<char>, calls: Seq<StreamingCallView>)
    ensures
        round_message(text, calls).role == Role::Assistant,
        round_message(text, calls).name is None,
        text_of(round_message(text, calls).content) == text,
        calls_of(round_message(text, calls).content).len() == calls.len(),
        forall|i: int|
            #![trigger calls[i]]
            0 <= i < calls.len() ==> {
                &&& calls_of(round_message(text, calls).content)[i].0 == calls[i].id
                &&& calls_of(round_message(text, calls).content)[i].1 == calls[i].name
                &&& parsed(calls[i].arguments) is Ok ==> calls_of(round_message(text, calls).content)[i].2 == parsed(
                    calls[i].arguments,
                )->Ok_0
                &&& parsed(calls[i].arguments) is Err ==> calls_of(round_message(text, calls).content)[i].2
                    == JsonView::Text(calls[i].arguments)
            },
        round_message(text, calls).content.len() == calls.len() + if text.len() == 0 { 0int } else { 1int },
        text.len() > 0 ==> round_message(text, calls).content[0] == (ContentView::Text { text }),
        round_message(text, calls).metadata == Map::<Seq<char>, JsonView>::empty(),
{
    let first = if text.len() == 0 {
        Seq::<ContentView>::empty()
    } else {
        seq![ContentView::Text { text }]
    };
    law_text_of_blocks(first, ContentView::Text { text }, call_blocks(calls));
    law_calls_of_blocks(first, ContentView::Text { text }, call_blocks(calls));
    lemma_call_blocks(calls);
    assert(text_of(first) =~= text);
    assert(calls_of(first).len() == 0);
    assert(text_of(first) + Seq::<char>::empty() =~= text);
    assert(calls_of(first) + calls_of(call_blocks(calls)) =~= calls_of(call_blocks(calls)));
}

proof fn lemma_call_blocks(calls: Seq<StreamingCallView>)
    ensures
        text_of(call_blocks(calls)) == Seq::<char>::empty(),
        calls_of(call_blocks(calls)).len() == calls.len(),
        forall|i: int|
            #![trigger calls[i]]
            0 <= i < calls.len() ==> calls_of(call_blocks(calls))[i] == (
                calls[i].id,
                calls[i].name,
                arguments_of(parsed(calls[i].arguments), calls[i].arguments),
            ),
    decreases calls.len(),
{
    if calls.len() > 0 {
        lemma_call_blocks(calls.drop_last());
        assert(call_blocks(calls).drop_last() =~= call_blocks(calls.drop_last()));
        assert forall|i: int| #![trigger calls[i]] 0 <= i < calls.len() implies calls_of(call_blocks(calls))[i] == (
            calls[i].id,
            calls[i].name,
            arguments_of(parsed(calls[i].arguments), calls[i].arguments),
        ) by {
            if i < calls.len() - 1 {
                assert(calls.drop_last()[i] == calls[i]);
            }
        }
    }
}

/// A call is found by its id, and of several calls of one id the first.
pub proof fn law_first_call_of_an_id(calls: Seq<StreamingCallView>, id: Seq<char>)
    ensures
        match call_index(calls, id) {
            Some(i) => {
                &&& 0 <= i < calls.len()
                &&& calls[i].id == id
                &&& forall|k: int| 0 <= k < i ==> (#[trigger] calls[k]).id != id
            },
            None => forall|k: int| 0 <= k < calls.len() ==> (#[trigger] calls[k]).id != id,
        },
    decreases calls.len(),
{
    if calls.len() > 0 {
        law_first_call_of_an_id(calls.drop_last(), id);
        assert forall|k: int| 0 <= k < calls.len() - 1 implies (#[trigger] calls[k]) == calls.drop_last()[k] by {}
    }
}

/// A piece that carries the id of a call, or none while there are calls, belongs to that
/// call or to the last one: its arguments grow by the piece, a name that it has stays,
/// and an empty one is taken from the piece; the id and all other calls stay. Any other
/// piece starts a call with what it carries.
pub proof fn law_piece_goes_to_its_call(calls: Seq<StreamingCallView>, piece: ToolCallUpdateView)
    ensures
        ({
            let after = delta_pushed(calls, piece);
            let known = exists|k: int| 0 <= k < calls.len() && (#[trigger] calls[k]).id == piece.id;
            &&& (known || piece.id.len() == 0 && calls.len() > 0) ==> exists|i: int|
                {
                    &&& 0 <= i < calls.len()
                    &&& piece.id.len() > 0 ==> (#[trigger] calls[i]).id == piece.id
                    &&& piece.id.len() == 0 ==> i == calls.len() - 1
                    &&& after.len() == calls.len()
                    &&& after[i].id == calls[i].id
                    &&& after[i].arguments == calls[i].arguments + piece.arguments_delta
                    &&& calls[i].name.len() > 0 ==> after[i].name == calls[i].name
                    &&& calls[i].name.len() == 0 ==> after[i].name == piece.name
                    &&& forall|k: int| 0 <= k < calls.len() && k != i ==> (#[trigger] after[k]) == calls[k]
                }
            &&& !(known || piece.id.len() == 0 && calls.len() > 0) ==> {
                &&& after.len() == calls.len() + 1
                &&& after.drop_last() == calls
                &&& after.last().id == piece.id
                &&& after.last().name == piece.name
                &&& after.last().arguments == piece.arguments_delta
            }
        }),
{
    let after = delta_pushed(calls, piece);
    lemma_call_index(calls, piece.id);
    let known = exists|k: int| 0 <= k < calls.len() && (#[trigger] calls[k]).id == piece.id;
    if known || piece.id.len() == 0 && calls.len() > 0 {
        let i = delta_target(calls, piece)->Some_0;
        assert(0 <= i < calls.len());
        assert(calls[i] == calls[i]);
        assert forall|k: int| 0 <= k < calls.len() && k != i implies (#[trigger] after[k]) == calls[k] by {}
    } else {
        assert(after.drop_last() =~= calls);
    }
}

/// A round starts with nothing; an update adds its text behind the text that came, its
/// piece to the calls, and its reason to stop replaces the one that came before.
pub proof fn law_update_is_taken(round: StreamRoundView, update: UpdateView)
    ensures
        empty_round().text.len() == 0,
        empty_round().calls.len() == 0,
        empty_round().finish_reason is None,
        update.text is Some ==> round_updated(round, update).text == round.text + update.text->0,
        update.text is None ==> round_updated(round, update).text == round.text,
        update.tool_call is Some ==> round_updated(round, update).calls == delta_pushed(
            round.calls,
            update.tool_call->0,
        ),
        update.tool_call is None ==> round_updated(round, update).calls == round.calls,
        update.finish_reason is Some ==> round_updated(round, update).finish_reason == update.finish_reason,
        update.finish_reason is None ==> round_updated(round, update).finish_reason == round.finish_reason,
{
}

/// The size of a round is that of its text and of the ids, names and arguments of all
/// its calls, in bytes.
pub proof fn law_round_size(
    text: Seq<char>,
    first: Seq<StreamingCallView>,
    call: StreamingCallView,
    reason: Option<FinishReason>,
)
    ensures
        round_bytes(StreamRoundView { text, calls: Seq::empty(), finish_reason: reason }) == utf8_len(text),
        round_bytes(StreamRoundView { text, calls: first.push(call), finish_reason: reason }) == round_bytes(
            StreamRoundView { text, calls: first, finish_reason: reason },
        ) + utf8_len(call.id) + utf8_len(call.name) + utf8_len(call.arguments),
{
    assert(first.push(call).drop_last() =~= first);
}

/// The text of a stream is made of the texts of its updates, in their order.
pub proof fn law_stream_text(
    first: Seq<AgentResult<AgentResponseUpdate>>,
    update: AgentResponseUpdate,
    updates: Seq<UpdateView>,
    last: UpdateView,
)
    ensures
        stream_texts(Seq::empty()).len() == 0,
        stream_texts(first.push(Ok(update))) == stream_texts(first) + match update.text {
            Some(text) => text@,
            None => Seq::<char>::empty(),
        },
        updates_text(Seq::empty()).len() == 0,
        updates_text(updates.push(last)) == updates_text(updates) + match last.text {
            Some(text) => text,
            None => Seq::<char>::empty(),
        },
{
    assert(first.push(Ok(update)).drop_last() =~= first);
    assert(updates.push(last).drop_last() =~= updates);
    assert(stream_texts(first) + Seq::<char>::empty() =~= stream_texts(first));
    assert(updates_text(updates) + Seq::<char>::empty() =~= updates_text(updates));
}

/// A call is invoked with the document that its arguments denote; where they denote
/// none, it is answered with the parser's error and not invoked.
pub proof fn law_only_documents_are_passed_to_tools(arguments: JsonView, message: Seq<char>, raw: Seq<char>)
    ensures
        call_input(Ok(arguments)) == Ok::<JsonView, Seq<char>>(arguments),
        call_input(Err(message)) == Err::<JsonView, Seq<char>>("Error: invalid JSON arguments: "@ + message),
        arguments_of(Ok(arguments), raw) == arguments,
        arguments_of(Err(message), raw) == JsonView::Text(raw),
{
}

/// The model of a streaming run, a round and a call has all that they hold.
pub proof fn law_stream_model_is_complete(run: StreamRun, round: StreamRound, call: StreamingToolCall)
    ensures
        run@.input == run.input.deep_view(),
        run@.conversation == run.conversation.deep_view(),
        run@.produced == run.produced.deep_view(),
        run@.rounds == run.rounds,
        run@.max_rounds == run.max_rounds,
        run@.pending == run.pending.deep_view(),
        round@.text == round.text@,
        round@.calls == round.calls.deep_view(),
        round@.finish_reason == round.finish_reason,
        call@.id == call.id@,
        call@.name == call.name@,
        call@.arguments == call.arguments@,
        state_too_large() == ErrorView::InvalidResponse(
            "streaming state exceeded "@ + decimal(33554432) + " bytes"@,
        ),
{
}

} // verus!
