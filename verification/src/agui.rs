//! The AG-UI protocol: the events that report an agent run to a user interface.

use vstd::prelude::*;

use crate::error::{AgentError, AgentResult};
use crate::ids::{fresh_id, is_uuid};
use crate::json::{rendered, Json, JsonView};
use crate::types::{
    calls_in, calls_of, law_text_message_says_its_text, role_named, text_message, text_of, AgentResponse,
    AgentResponseUpdate, AgentResponseView, Message,
    MessageView,
};

verus! {

/// Events that are sent over a stream.
#[derive(Debug)]
pub enum AguiEvent {
    /// An agent run starts.
    RunStarted { thread_id: String, run_id: String },
    /// A text message of the agent starts.
    TextMessageStart { message_id: String, role: String },
    /// More of a text message.
    TextMessageContent { message_id: String, delta: String },
    /// A text message ends.
    TextMessageEnd { message_id: String },
    /// A tool call starts.
    ToolCallStart { tool_call_id: String, tool_name: String },
    /// More of the arguments of a tool call.
    ToolCallArgs { tool_call_id: String, delta: String },
    /// A tool call ends.
    ToolCallEnd { tool_call_id: String },
    /// An agent run ends.
    RunFinished { thread_id: String, run_id: String },
}

/// What an event holds.
#[allow(inconsistent_fields)]
#[verifier::ext_equal]
pub enum AguiEventView {
    RunStarted { thread_id: Seq<char>, run_id: Seq<char> },
    TextMessageStart { message_id: Seq<char>, role: Seq<char> },
    TextMessageContent { message_id: Seq<char>, delta: Seq<char> },
    TextMessageEnd { message_id: Seq<char> },
    ToolCallStart { tool_call_id: Seq<char>, tool_name: Seq<char> },
    ToolCallArgs { tool_call_id: Seq<char>, delta: Seq<char> },
    ToolCallEnd { tool_call_id: Seq<char> },
    RunFinished { thread_id: Seq<char>, run_id: Seq<char> },
}

impl View for AguiEvent {
    type V = AguiEventView;

    open spec fn view(&self) -> AguiEventView {
        match self {
            AguiEvent::RunStarted { thread_id, run_id } => AguiEventView::RunStarted {
                thread_id: thread_id@,
                run_id: run_id@,
            },
            AguiEvent::TextMessageStart { message_id, role } => AguiEventView::TextMessageStart {
                message_id: message_id@,
                role: role@,
            },
            AguiEvent::TextMessageContent { message_id, delta } => AguiEventView::TextMessageContent {
                message_id: message_id@,
                delta: delta@,
            },
            AguiEvent::TextMessageEnd { message_id } => AguiEventView::TextMessageEnd { message_id: message_id@ },
            AguiEvent::ToolCallStart { tool_call_id, tool_name } => AguiEventView::ToolCallStart {
                tool_call_id: tool_call_id@,
                tool_name: tool_name@,
            },
            AguiEvent::ToolCallArgs { tool_call_id, delta } => AguiEventView::ToolCallArgs {
                tool_call_id: tool_call_id@,
                delta: delta@,
            },
            AguiEvent::ToolCallEnd { tool_call_id } => AguiEventView::ToolCallEnd { tool_call_id: tool_call_id@ },
            AguiEvent::RunFinished { thread_id, run_id } => AguiEventView::RunFinished {
                thread_id: thread_id@,
                run_id: run_id@,
            },
        }
    }
}

impl DeepView for AguiEvent {
    type V = AguiEventView;

    open spec fn deep_view(&self) -> AguiEventView {
        self@
    }
}

/// The name of an event.
pub open spec fn name_of(event: AguiEventView) -> Seq<char> {
    match event {
        AguiEventView::RunStarted { .. } => "RUN_STARTED"@,
        AguiEventView::TextMessageStart { .. } => "TEXT_MESSAGE_START"@,
        AguiEventView::TextMessageContent { .. } => "TEXT_MESSAGE_CONTENT"@,
        AguiEventView::TextMessageEnd { .. } => "TEXT_MESSAGE_END"@,
        AguiEventView::ToolCallStart { .. } => "TOOL_CALL_START"@,
        AguiEventView::ToolCallArgs { .. } => "TOOL_CALL_ARGS"@,
        AguiEventView::ToolCallEnd { .. } => "TOOL_CALL_END"@,
        AguiEventView::RunFinished { .. } => "RUN_FINISHED"@,
    }
}

impl AguiEvent {
    /// The name of the event.
    pub fn event_name(&self) -> (name: &'static str)
        ensures
            name@ == name_of(self@),
    {
        match self {
            AguiEvent::RunStarted { .. } => "RUN_STARTED",
            AguiEvent::TextMessageStart { .. } => "TEXT_MESSAGE_START",
            AguiEvent::TextMessageContent { .. } => "TEXT_MESSAGE_CONTENT",
            AguiEvent::TextMessageEnd { .. } => "TEXT_MESSAGE_END",
            AguiEvent::ToolCallStart { .. } => "TOOL_CALL_START",
            AguiEvent::ToolCallArgs { .. } => "TOOL_CALL_ARGS",
            AguiEvent::ToolCallEnd { .. } => "TOOL_CALL_END",
            AguiEvent::RunFinished { .. } => "RUN_FINISHED",
        }
    }
}

/// A message of the input.
#[derive(Debug)]
pub struct AguiMessage {
    /// The role of the author.
    pub role: String,
    /// The text.
    pub content: String,
}

impl View for AguiMessage {
    type V = (Seq<char>, Seq<char>);

    open spec fn view(&self) -> (Seq<char>, Seq<char>) {
        (self.role@, self.content@)
    }
}

impl DeepView for AguiMessage {
    type V = (Seq<char>, Seq<char>);

    open spec fn deep_view(&self) -> (Seq<char>, Seq<char>) {
        self@
    }
}

/// A tool of the input.
#[derive(Debug)]
pub struct AguiTool {
    /// The tool name.
    pub name: String,
    /// A description of the tool.
    pub description: Option<String>,
    /// JSON Schema for the parameters.
    pub parameters: Option<Json>,
}

/// Input of a run request.
#[derive(Debug)]
pub struct RunAgentInput {
    /// The conversation.
    pub thread_id: Option<String>,
    /// The messages.
    pub messages: Vec<AguiMessage>,
    /// Tools.
    pub tools: Vec<AguiTool>,
}

/// The messages that messages of the input, given by role and text, stand for.
pub open spec fn named_messages(messages: Seq<(Seq<char>, Seq<char>)>) -> Seq<MessageView> {
    Seq::new(messages.len(), |i: int| text_message(role_named(messages[i].0), messages[i].1))
}

impl RunAgentInput {
    /// The messages that the agent is run with.
    pub fn to_messages(&self) -> (messages: Vec<Message>)
        ensures
            messages.deep_view() == named_messages(self.messages.deep_view()),
    {
        let mut messages: Vec<Message> = Vec::new();
        let ghost all = named_messages(self.messages.deep_view());
        let mut i: usize = 0;
        assert(messages.deep_view() =~= all.take(0));
        while i < self.messages.len()
            invariant
                i <= self.messages@.len(),
                all == named_messages(self.messages.deep_view()),
                messages.deep_view() == all.take(i as int),
            decreases self.messages@.len() - i,
        {
            let ghost before = messages.deep_view();
            messages.push(Message::of_role_name(self.messages[i].role.as_str(), self.messages[i].content.as_str()));
            assert(self.messages.deep_view()[i as int] == self.messages@[i as int]@);
            assert(messages.deep_view() =~= before.push(all[i as int]));
            assert(all.take(i + 1) =~= before.push(all[i as int]));
            i += 1;
        }
        assert(all.take(i as int) =~= all);
        messages
    }
}

// ---------------------------------------------------------------------------
// Runs
// ---------------------------------------------------------------------------

/// The identifiers of a run.
#[derive(Debug)]
pub struct AguiRun {
    pub thread_id: String,
    pub run_id: String,
    pub message_id: String,
}

/// What the identifiers of a run hold.
#[verifier::ext_equal]
pub struct AguiRunView {
    pub thread_id: Seq<char>,
    pub run_id: Seq<char>,
    pub message_id: Seq<char>,
}

impl View for AguiRun {
    type V = AguiRunView;

    open spec fn view(&self) -> AguiRunView {
        AguiRunView { thread_id: self.thread_id@, run_id: self.run_id@, message_id: self.message_id@ }
    }
}

/// The event that starts a run.
pub open spec fn run_started(run: AguiRunView) -> AguiEventView {
    AguiEventView::RunStarted { thread_id: run.thread_id, run_id: run.run_id }
}

/// The event that ends a run.
pub open spec fn run_finished(run: AguiRunView) -> AguiEventView {
    AguiEventView::RunFinished { thread_id: run.thread_id, run_id: run.run_id }
}

/// The event that starts the message.
pub open spec fn text_started(run: AguiRunView) -> AguiEventView {
    AguiEventView::TextMessageStart { message_id: run.message_id, role: "assistant"@ }
}

/// The event that brings a text.
pub open spec fn text_content(run: AguiRunView, delta: Seq<char>) -> AguiEventView {
    AguiEventView::TextMessageContent { message_id: run.message_id, delta }
}

/// The event that ends the message.
pub open spec fn text_ended(run: AguiRunView) -> AguiEventView {
    AguiEventView::TextMessageEnd { message_id: run.message_id }
}

/// The events that report a tool call.
pub open spec fn call_events(call: (Seq<char>, Seq<char>, JsonView)) -> Seq<AguiEventView> {
    seq![
        AguiEventView::ToolCallStart { tool_call_id: call.0, tool_name: call.1 },
        AguiEventView::ToolCallArgs { tool_call_id: call.0, delta: rendered(call.2) },
        AguiEventView::ToolCallEnd { tool_call_id: call.0 },
    ]
}

/// The events that report tool calls.
pub open spec fn calls_events(calls: Seq<(Seq<char>, Seq<char>, JsonView)>) -> Seq<AguiEventView>
    decreases calls.len(),
{
    if calls.len() == 0 {
        Seq::empty()
    } else {
        calls_events(calls.drop_last()) + call_events(calls.last())
    }
}

/// The events that report a response: the message, and within it the text unless
/// it is empty and the tool calls.
pub open spec fn response_events(run: AguiRunView, response: AgentResponseView) -> Seq<AguiEventView> {
    let text = if response.text.len() > 0 {
        seq![text_started(run), text_content(run, response.text)]
    } else {
        seq![text_started(run)]
    };
    (text + calls_events(calls_in(response.messages))).push(text_ended(run))
}

/// The events that report the texts of a stream.
pub open spec fn stream_contents(run: AguiRunView, texts: Seq<Seq<char>>) -> Seq<AguiEventView> {
    Seq::new(texts.len(), |i: int| text_content(run, texts[i]))
}

/// All events of a run that was streamed.
pub open spec fn streamed_run(run: AguiRunView, texts: Seq<Seq<char>>) -> Seq<AguiEventView> {
    seq![run_started(run), text_started(run)] + stream_contents(run, texts) + seq![text_ended(run), run_finished(run)]
}

/// All events of a run that was not streamed, where a failed run reports no message.
pub open spec fn plain_run(run: AguiRunView, response: Option<AgentResponseView>) -> Seq<AguiEventView> {
    let middle = match response {
        Some(r) => response_events(run, r),
        None => Seq::empty(),
    };
    seq![run_started(run)] + middle + seq![run_finished(run)]
}

impl AguiRun {
    /// A run of a conversation, or of a fresh one.
    pub fn new(thread_id: Option<String>) -> (run: Self)
        ensures
            match thread_id {
                Some(id) => run.thread_id@ == id@,
                None => is_uuid(run.thread_id@),
            },
            is_uuid(run.run_id@),
            is_uuid(run.message_id@),
    {
        AguiRun {
            thread_id: match thread_id {
                Some(id) => id,
                None => fresh_id(),
            },
            run_id: fresh_id(),
            message_id: fresh_id(),
        }
    }

    /// The event that starts the run.
    pub fn started(&self) -> (event: AguiEvent)
        ensures
            event@ == run_started(self@),
    {
        AguiEvent::RunStarted { thread_id: self.thread_id.clone(), run_id: self.run_id.clone() }
    }

    /// The event that ends the run.
    pub fn finished(&self) -> (event: AguiEvent)
        ensures
            event@ == run_finished(self@),
    {
        AguiEvent::RunFinished { thread_id: self.thread_id.clone(), run_id: self.run_id.clone() }
    }

    /// The event that starts the message.
    pub fn text_start(&self) -> (event: AguiEvent)
        ensures
            event@ == text_started(self@),
    {
        AguiEvent::TextMessageStart { message_id: self.message_id.clone(), role: "assistant".to_owned() }
    }

    /// The event that reports an update of a stream, if it has a text.
    pub fn on_update(&self, text: Option<&str>) -> (event: Option<AguiEvent>)
        ensures
            event.deep_view() == match text {
                Some(delta) => Some(text_content(self@, delta@)),
                None => None,
            },
    {
        match text {
            Some(delta) => Some(
                AguiEvent::TextMessageContent { message_id: self.message_id.clone(), delta: delta.to_owned() },
            ),
            None => None,
        }
    }

    /// The event that ends the message.
    pub fn text_end(&self) -> (event: AguiEvent)
        ensures
            event@ == text_ended(self@),
    {
        AguiEvent::TextMessageEnd { message_id: self.message_id.clone() }
    }

    /// The events that report a response.
    pub fn response_events(&self, response: &AgentResponse) -> (events: Vec<AguiEvent>)
        ensures
            events.deep_view() == response_events(self@, response@),
    {
        let mut events: Vec<AguiEvent> = Vec::new();
        events.push(self.text_start());
        if !response.text.as_str().is_empty() {
            events.push(
                AguiEvent::TextMessageContent { message_id: self.message_id.clone(), delta: response.text.clone() },
            );
            assert(events.deep_view() =~= seq![text_started(self@), text_content(self@, response.text@)]);
        } else {
            assert(events.deep_view() =~= seq![text_started(self@)]);
        }
        let ghost start = events.deep_view();
        let ghost all = response.messages.deep_view();
        let mut i: usize = 0;
        assert(start + calls_events(calls_in(all.take(0))) =~= start);
        while i < response.messages.len()
            invariant
                i <= response.messages@.len(),
                all == response.messages.deep_view(),
                events.deep_view() == start + calls_events(calls_in(all.take(i as int))),
            decreases response.messages@.len() - i,
        {
            assert(all.take(i + 1).drop_last() =~= all.take(i as int));
            let ghost before = calls_in(all.take(i as int));
            push_call_events(&mut events, &response.messages[i]);
            proof {
                lemma_calls_events_append(before, calls_of(all[i as int].content));
                assert(start + calls_events(before) + calls_events(calls_of(all[i as int].content)) =~= start + (
                calls_events(before) + calls_events(calls_of(all[i as int].content))));
            }
            i += 1;
        }
        assert(all.take(i as int) =~= all);
        let ghost before = events.deep_view();
        events.push(self.text_end());
        assert(events.deep_view() =~= before.push(text_ended(self@)));
        events
    }
}

// ---------------------------------------------------------------------------
// Reports
// ---------------------------------------------------------------------------

/// What a report waits for.
#[derive(Debug, Clone, Copy, PartialEq, Eq, Structural)]
pub enum AguiPhase {
    /// Whether the agent gives a stream.
    Opening,
    /// The next element of the stream.
    Streaming,
    /// The outcome of a run without a stream.
    Running,
    /// Nothing: the run is reported.
    Ended,
}

/// The report of a run.
#[derive(Debug)]
pub struct AguiReport {
    pub run: AguiRun,
    pub phase: AguiPhase,
}

/// What a report is told.
pub enum AguiInput {
    /// Whether the agent gave a stream.
    Stream(bool),
    /// An element of the stream, with its text. An element without one, and a
    /// failed one, has none.
    Element(Option<Seq<char>>),
    /// The end of the stream.
    End,
    /// The outcome of a run without a stream, nothing where it failed.
    Outcome(Option<AgentResponseView>),
}

/// What a report waits for next.
pub open spec fn phase_after(input: AguiInput) -> AguiPhase {
    match input {
        AguiInput::Stream(true) => AguiPhase::Streaming,
        AguiInput::Stream(false) => AguiPhase::Running,
        AguiInput::Element(_) => AguiPhase::Streaming,
        AguiInput::End => AguiPhase::Ended,
        AguiInput::Outcome(_) => AguiPhase::Ended,
    }
}

/// The events that are sent for what a report is told. A run without a stream that
/// failed is only ended.
pub open spec fn events_for(run: AguiRunView, input: AguiInput) -> Seq<AguiEventView> {
    match input {
        AguiInput::Stream(true) => seq![text_started(run)],
        AguiInput::Stream(false) => Seq::empty(),
        AguiInput::Element(Some(delta)) => seq![text_content(run, delta)],
        AguiInput::Element(None) => Seq::empty(),
        AguiInput::End => seq![text_ended(run), run_finished(run)],
        AguiInput::Outcome(Some(response)) => response_events(run, response).push(run_finished(run)),
        AguiInput::Outcome(None) => seq![run_finished(run)],
    }
}

/// The text of an element of a stream.
pub open spec fn element_text(element: AgentResult<AgentResponseUpdate>) -> Option<Seq<char>> {
    match element {
        Ok(update) => update.text.deep_view(),
        Err(_) => None,
    }
}

impl AguiReport {
    /// Start to report a run.
    pub fn start(run: AguiRun) -> (started: (Self, AguiEvent))
        ensures
            started.0.run@ == run@,
            started.0.phase == AguiPhase::Opening,
            started.1@ == run_started(run@),
    {
        let event = run.started();
        (AguiReport { run, phase: AguiPhase::Opening }, event)
    }

    /// Take in whether the agent gave a stream.
    pub fn on_stream(&mut self, opened: bool) -> (events: Vec<AguiEvent>)
        requires
            old(self).phase == AguiPhase::Opening,
        ensures
            final(self).run == old(self).run,
            final(self).phase == phase_after(AguiInput::Stream(opened)),
            events.deep_view() == events_for(old(self).run@, AguiInput::Stream(opened)),
    {
        let mut events: Vec<AguiEvent> = Vec::new();
        if opened {
            events.push(self.run.text_start());
            self.phase = AguiPhase::Streaming;
        } else {
            self.phase = AguiPhase::Running;
        }
        assert(events.deep_view() =~= events_for(old(self).run@, AguiInput::Stream(opened)));
        events
    }

    /// Take in an element of the stream. A failed one is passed over.
    pub fn on_element(&mut self, element: AgentResult<AgentResponseUpdate>) -> (events: Vec<AguiEvent>)
        requires
            old(self).phase == AguiPhase::Streaming,
        ensures
            *final(self) == *old(self),
            events.deep_view() == events_for(old(self).run@, AguiInput::Element(element_text(element))),
    {
        let mut events: Vec<AguiEvent> = Vec::new();
        let update = match element {
            Ok(update) => self.run.on_update(
                match &update.text {
                    Some(text) => Some(text.as_str()),
                    None => None,
                },
            ),
            Err(_) => None,
        };
        match update {
            Some(event) => {
                events.push(event);
            },
            None => {},
        }
        assert(events.deep_view() =~= events_for(old(self).run@, AguiInput::Element(element_text(element))));
        events
    }

    /// Take in that the stream has ended.
    pub fn on_end(&mut self) -> (events: Vec<AguiEvent>)
        requires
            old(self).phase == AguiPhase::Streaming,
        ensures
            final(self).run == old(self).run,
            final(self).phase == phase_after(AguiInput::End),
            events.deep_view() == events_for(old(self).run@, AguiInput::End),
    {
        let mut events: Vec<AguiEvent> = Vec::new();
        events.push(self.run.text_end());
        events.push(self.run.finished());
        self.phase = AguiPhase::Ended;
        assert(events.deep_view() =~= events_for(old(self).run@, AguiInput::End));
        events
    }

    /// Take in the outcome of a run without a stream.
    pub fn on_outcome(&mut self, outcome: AgentResult<AgentResponse>) -> (events: Vec<AguiEvent>)
        requires
            old(self).phase == AguiPhase::Running,
        ensures
            final(self).run == old(self).run,
            final(self).phase == AguiPhase::Ended,
            events.deep_view() == events_for(
                old(self).run@,
                AguiInput::Outcome(
                    match outcome {
                        Ok(response) => Some(response@),
                        Err(_) => None,
                    },
                ),
            ),
    {
        let mut events: Vec<AguiEvent> = match &outcome {
            Ok(response) => self.run.response_events(response),
            Err(_) => Vec::new(),
        };
        let ghost before = events.deep_view();
        assert(outcome is Err ==> before =~= Seq::empty());
        events.push(self.run.finished());
        self.phase = AguiPhase::Ended;
        assert(events.deep_view() =~= before.push(run_finished(old(self).run@)));
        events
    }
}

/// The events for all elements of a stream.
pub open spec fn element_events(run: AguiRunView, elements: Seq<Option<Seq<char>>>) -> Seq<AguiEventView>
    decreases elements.len(),
{
    if elements.len() == 0 {
        Seq::empty()
    } else {
        element_events(run, elements.drop_last()) + events_for(run, AguiInput::Element(elements.last()))
    }
}

/// The texts among the elements of a stream.
pub open spec fn texts_among(elements: Seq<Option<Seq<char>>>) -> Seq<Seq<char>>
    decreases elements.len(),
{
    if elements.len() == 0 {
        Seq::empty()
    } else {
        match elements.last() {
            Some(text) => texts_among(elements.drop_last()).push(text),
            None => texts_among(elements.drop_last()),
        }
    }
}

/// A report is complete. Told that there is a stream, of its elements and of its
/// end, it sends in all the events of a streamed run with the texts of the
/// elements; told that there is none and of the outcome, those of a run without a
/// stream.
pub proof fn law_reports_are_complete(
    run: AguiRunView,
    elements: Seq<Option<Seq<char>>>,
    response: Option<AgentResponseView>,
)
    ensures
        seq![run_started(run)] + events_for(run, AguiInput::Stream(true)) + element_events(run, elements) + events_for(
            run,
            AguiInput::End,
        ) == streamed_run(run, texts_among(elements)),
        seq![run_started(run)] + events_for(run, AguiInput::Stream(false)) + events_for(
            run,
            AguiInput::Outcome(response),
        ) == plain_run(run, response),
{
    lemma_element_events(run, elements);
    assert(seq![run_started(run)] + events_for(run, AguiInput::Stream(true)) + element_events(run, elements)
        + events_for(run, AguiInput::End) =~= streamed_run(run, texts_among(elements)));
    assert(seq![run_started(run)] + events_for(run, AguiInput::Stream(false)) + events_for(
        run,
        AguiInput::Outcome(response),
    ) =~= plain_run(run, response));
}

proof fn lemma_element_events(run: AguiRunView, elements: Seq<Option<Seq<char>>>)
    ensures
        element_events(run, elements) == stream_contents(run, texts_among(elements)),
    decreases elements.len(),
{
    if elements.len() > 0 {
        lemma_element_events(run, elements.drop_last());
    }
    assert(element_events(run, elements) =~= stream_contents(run, texts_among(elements)));
}

/// Append the events that report the tool calls of a message.
fn push_call_events(events: &mut Vec<AguiEvent>, message: &Message)
    ensures
        final(events).deep_view() == old(events).deep_view() + calls_events(calls_of(message@.content)),
{
    let ghost start = events.deep_view();
    let calls = message.tool_calls();
    let ghost all = calls.deep_view();
    let mut i: usize = 0;
    assert(start + calls_events(all.take(0)) =~= start);
    while i < calls.len()
        invariant
            i <= calls@.len(),
            all == calls.deep_view(),
            events.deep_view() == start + calls_events(all.take(i as int)),
        decreases calls@.len() - i,
    {
        assert(all.take(i + 1).drop_last() =~= all.take(i as int));
        let ghost before = events.deep_view();
        let (id, name, arguments) = calls[i];
        events.push(AguiEvent::ToolCallStart { tool_call_id: id.to_owned(), tool_name: name.to_owned() });
        events.push(AguiEvent::ToolCallArgs { tool_call_id: id.to_owned(), delta: arguments.to_text() });
        events.push(AguiEvent::ToolCallEnd { tool_call_id: id.to_owned() });
        assert(all[i as int] == (id@, name@, arguments@));
        assert(events.deep_view() =~= before + call_events(all[i as int]));
        assert(start + calls_events(all.take(i as int)) + call_events(all[i as int]) =~= start + (calls_events(
            all.take(i as int),
        ) + call_events(all[i as int])));
        i += 1;
    }
    assert(all.take(i as int) =~= all);
}

proof fn lemma_calls_events_append(
    a: Seq<(Seq<char>, Seq<char>, JsonView)>,
    b: Seq<(Seq<char>, Seq<char>, JsonView)>,
)
    ensures
        calls_events(a + b) == calls_events(a) + calls_events(b),
    decreases b.len(),
{
    if b.len() == 0 {
        assert(a + b =~= a);
        assert(calls_events(a) + calls_events(b) =~= calls_events(a));
    } else {
        lemma_calls_events_append(a, b.drop_last());
        assert((a + b).drop_last() =~= a + b.drop_last());
        assert((a + b).last() == b.last());
        assert(calls_events(a) + calls_events(b.drop_last()) + call_events(b.last()) =~= calls_events(a) + (
        calls_events(b.drop_last()) + call_events(b.last())));
    }
}

/// Every run is reported from its start to its end: whether it is streamed or not,
/// and whether it succeeds or not, the first event starts it and the last one ends
/// it, and neither comes again in between.
pub proof fn law_runs_are_framed(run: AguiRunView, texts: Seq<Seq<char>>, response: Option<AgentResponseView>)
    ensures
        streamed_run(run, texts).first() == run_started(run),
        streamed_run(run, texts).last() == run_finished(run),
        plain_run(run, response).first() == run_started(run),
        plain_run(run, response).last() == run_finished(run),
        forall|i: int|
            0 < i < streamed_run(run, texts).len() - 1 ==> !((#[trigger] streamed_run(run, texts)[i]) is RunStarted)
                && !(streamed_run(run, texts)[i] is RunFinished),
        forall|i: int|
            0 < i < plain_run(run, response).len() - 1 ==> !((#[trigger] plain_run(run, response)[i]) is RunStarted)
                && !(plain_run(run, response)[i] is RunFinished),
{
    match response {
        Some(r) => {
            lemma_call_events_are_inner(calls_in(r.messages));
            let calls = calls_events(calls_in(r.messages));
            let inner = response_events(run, r);
            let head: int = if r.text.len() > 0 {
                2
            } else {
                1
            };
            assert forall|i: int| 0 <= i < inner.len() implies !((#[trigger] inner[i]) is RunStarted) && !(
            inner[i] is RunFinished) by {
                if head <= i < inner.len() - 1 {
                    assert(inner[i] == calls[i - head]);
                }
            }
            let all = plain_run(run, response);
            assert forall|i: int| 0 < i < all.len() - 1 implies !((#[trigger] all[i]) is RunStarted) && !(
            all[i] is RunFinished) by {
                assert(all[i] == inner[i - 1]);
            }
        },
        None => {},
    }
}

proof fn lemma_call_events_are_inner(calls: Seq<(Seq<char>, Seq<char>, JsonView)>)
    ensures
        forall|i: int|
            0 <= i < calls_events(calls).len() ==> !((#[trigger] calls_events(calls)[i]) is RunStarted) && !(
            calls_events(calls)[i] is RunFinished),
    decreases calls.len(),
{
    if calls.len() > 0 {
        lemma_call_events_are_inner(calls.drop_last());
        let before = calls_events(calls.drop_last());
        let last = call_events(calls.last());
        assert forall|i: int| 0 <= i < calls_events(calls).len() implies !((#[trigger] calls_events(
            calls,
        )[i]) is RunStarted) && !(calls_events(calls)[i] is RunFinished) by {
            if i < before.len() {
                assert(calls_events(calls)[i] == before[i]);
            } else {
                assert(calls_events(calls)[i] == last[i - before.len()]);
            }
        }
    }
}

/// Every event is named after what it tells.
pub proof fn law_event_names(a: Seq<char>, b: Seq<char>)
    ensures
        name_of(AguiEventView::RunStarted { thread_id: a, run_id: b }) == "RUN_STARTED"@,
        name_of(AguiEventView::TextMessageStart { message_id: a, role: b }) == "TEXT_MESSAGE_START"@,
        name_of(AguiEventView::TextMessageContent { message_id: a, delta: b }) == "TEXT_MESSAGE_CONTENT"@,
        name_of(AguiEventView::TextMessageEnd { message_id: a }) == "TEXT_MESSAGE_END"@,
        name_of(AguiEventView::ToolCallStart { tool_call_id: a, tool_name: b }) == "TOOL_CALL_START"@,
        name_of(AguiEventView::ToolCallArgs { tool_call_id: a, delta: b }) == "TOOL_CALL_ARGS"@,
        name_of(AguiEventView::ToolCallEnd { tool_call_id: a }) == "TOOL_CALL_END"@,
        name_of(AguiEventView::RunFinished { thread_id: a, run_id: b }) == "RUN_FINISHED"@,
{
}

/// The events of a run carry its identifiers: those of the run that of the conversation
/// and of the run, those of the message that of the message; a text comes as it is.
pub proof fn law_events_carry_their_ids(run: AguiRunView, delta: Seq<char>)
    ensures
        run_started(run) is RunStarted,
        run_started(run)->RunStarted_thread_id == run.thread_id,
        run_started(run)->RunStarted_run_id == run.run_id,
        run_finished(run) is RunFinished,
        run_finished(run)->RunFinished_thread_id == run.thread_id,
        run_finished(run)->RunFinished_run_id == run.run_id,
        text_started(run) is TextMessageStart,
        text_started(run)->TextMessageStart_message_id == run.message_id,
        text_started(run)->role == "assistant"@,
        text_content(run, delta) is TextMessageContent,
        text_content(run, delta)->TextMessageContent_message_id == run.message_id,
        text_content(run, delta)->TextMessageContent_delta == delta,
        text_ended(run) is TextMessageEnd,
        text_ended(run)->TextMessageEnd_message_id == run.message_id,
{
}

/// A tool call is reported by its start, with the name of the tool, its arguments as
/// JSON text, and its end, all under its id; calls are reported one after the other.
pub proof fn law_calls_are_reported(
    first: Seq<(Seq<char>, Seq<char>, JsonView)>,
    id: Seq<char>,
    name: Seq<char>,
    arguments: JsonView,
)
    ensures
        calls_events(Seq::empty()).len() == 0,
        calls_events(first.push((id, name, arguments))) == calls_events(first) + seq![
            AguiEventView::ToolCallStart { tool_call_id: id, tool_name: name },
            AguiEventView::ToolCallArgs { tool_call_id: id, delta: rendered(arguments) },
            AguiEventView::ToolCallEnd { tool_call_id: id },
        ],
{
    assert(first.push((id, name, arguments)).drop_last() =~= first);
}

/// A response is reported as one message: it starts, brings the text unless that is
/// empty, then the tool calls of all messages of the run, and ends.
pub proof fn law_responses_are_reported(run: AguiRunView, response: AgentResponseView)
    ensures
        ({
            let events = response_events(run, response);
            let t: int = if response.text.len() > 0 { 2 } else { 1 };
            let calls = calls_events(calls_in(response.messages));
            &&& events.len() == t + calls.len() + 1
            &&& events[0] == text_started(run)
            &&& response.text.len() > 0 ==> events[1] == text_content(run, response.text)
            &&& events.subrange(t, t + calls.len()) == calls
            &&& events.last() == text_ended(run)
        }),
{
    let events = response_events(run, response);
    let t: int = if response.text.len() > 0 { 2 } else { 1 };
    let calls = calls_events(calls_in(response.messages));
    assert(events.subrange(t, t + calls.len()) =~= calls);
}

/// A stream is reported text by text: each text that comes is sent as it is, in order,
/// and an element without one sends nothing. A report waits for the elements of a
/// stream until it ends, and for the outcome where there is no stream.
pub proof fn law_streams_are_reported(
    run: AguiRunView,
    elements: Seq<Option<Seq<char>>>,
    text: Seq<char>,
    texts: Seq<Seq<char>>,
    response: AgentResponseView,
)
    ensures
        texts_among(Seq::empty()).len() == 0,
        texts_among(elements.push(Some(text))) == texts_among(elements).push(text),
        texts_among(elements.push(None)) == texts_among(elements),
        stream_contents(run, texts).len() == texts.len(),
        forall|i: int| 0 <= i < texts.len() ==> #[trigger] stream_contents(run, texts)[i] == text_content(run, texts[i]),
        streamed_run(run, texts).len() == texts.len() + 4,
        streamed_run(run, texts)[0] == run_started(run),
        streamed_run(run, texts)[1] == text_started(run),
        streamed_run(run, texts).subrange(2, 2 + texts.len() as int) == stream_contents(run, texts),
        streamed_run(run, texts)[2 + texts.len() as int] == text_ended(run),
        streamed_run(run, texts)[3 + texts.len() as int] == run_finished(run),
        plain_run(run, Some(response)) == seq![run_started(run)] + response_events(run, response) + seq![
            run_finished(run),
        ],
        plain_run(run, None) == seq![run_started(run), run_finished(run)],
        events_for(run, AguiInput::Element(Some(text))) == seq![text_content(run, text)],
        events_for(run, AguiInput::Element(None)).len() == 0,
        phase_after(AguiInput::Stream(true)) == AguiPhase::Streaming,
        phase_after(AguiInput::Stream(false)) == AguiPhase::Running,
        phase_after(AguiInput::Element(Some(text))) == AguiPhase::Streaming,
        phase_after(AguiInput::Element(None)) == AguiPhase::Streaming,
        phase_after(AguiInput::End) == AguiPhase::Ended,
        phase_after(AguiInput::Outcome(None)) == AguiPhase::Ended,
        phase_after(AguiInput::Outcome(Some(response))) == AguiPhase::Ended,
{
    assert(elements.push(Some(text)).drop_last() =~= elements);
    assert(elements.push(None).drop_last() =~= elements);
    assert(streamed_run(run, texts).subrange(2, 2 + texts.len() as int) =~= stream_contents(run, texts));
    assert(plain_run(run, None) =~= seq![run_started(run), run_finished(run)]);
}

/// The agent is run with the messages of the input, in order, each with its text and in
/// the role of its name.
pub proof fn law_input_is_kept(messages: Seq<(Seq<char>, Seq<char>)>)
    ensures
        named_messages(messages).len() == messages.len(),
        forall|i: int|
            #![trigger named_messages(messages)[i]]
            0 <= i < messages.len() ==> {
                &&& named_messages(messages)[i].role == role_named(messages[i].0)
                &&& text_of(named_messages(messages)[i].content) == messages[i].1
            },
{
    assert forall|i: int| #![trigger named_messages(messages)[i]] 0 <= i < messages.len() implies {
        &&& named_messages(messages)[i].role == role_named(messages[i].0)
        &&& text_of(named_messages(messages)[i].content) == messages[i].1
    } by {
        law_text_message_says_its_text(role_named(messages[i].0), messages[i].1);
    }
}

/// An element of a stream has the text of its update, and a failed one has none; the
/// models of runs and messages have all that these hold.
pub proof fn law_elements_and_models(
    update: AgentResponseUpdate,
    error: AgentError,
    run: AguiRun,
    message: AguiMessage,
)
    ensures
        element_text(Ok(update)) == update.text.deep_view(),
        element_text(Err(error)) is None,
        run@.thread_id == run.thread_id@,
        run@.run_id == run.run_id@,
        run@.message_id == run.message_id@,
        message@.0 == message.role@,
        message@.1 == message.content@,
{
}

} // verus!
