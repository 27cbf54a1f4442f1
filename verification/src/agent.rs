//! The agent that drives a chat client: what it sends to the model, how it
//! answers the model's tool calls, and when a run ends.

use vstd::prelude::*;

use crate::context::{AIContext, AIContextView};
use crate::error::{error_text, AgentError, AgentResult, ErrorView};
use crate::ids::{fresh_id, is_uuid};
use crate::json::{rendered, Json, JsonObject, JsonView};
use crate::text::{cat2, cat3, decimal, decimal_of, str_eq};
use crate::tools::{ToolDefinition, ToolDefinitionView};
use crate::types::{
    calls_in, calls_of, clone_messages, extend_messages, law_text_message_says_its_text, merged, no_options,
    text_message, text_of, texts_of,
    AgentResponse, AgentResponseView, AgentRunOptions, ChatOptions, ChatOptionsView, ChatResponse, ChatResponseView,
    Content, ContentView, FinishReason, Message, MessageView, Role, Usage,
};

verus! {

/// An agent backed by a chat client: its identity, its instructions, the
/// definitions of its tools and its default options.
#[derive(Debug)]
pub struct ChatClientAgent {
    pub id: String,
    pub name: Option<String>,
    pub description: Option<String>,
    pub instructions: Option<String>,
    pub tools: Vec<ToolDefinition>,
    pub options: ChatOptions,
    pub max_tool_rounds: usize,
}

/// The position of the first tool of a name, `None` if there is none.
pub open spec fn tool_index(tools: Seq<ToolDefinitionView>, name: Seq<char>) -> Option<int>
    decreases tools.len(),
{
    if tools.len() == 0 {
        None
    } else {
        match tool_index(tools.drop_last(), name) {
            Some(i) => Some(i),
            None => if tools.last().name == name {
                Some(tools.len() - 1)
            } else {
                None
            },
        }
    }
}

/// Whether a tool of a name is among the tools.
pub open spec fn has_tool(tools: Seq<ToolDefinitionView>, name: Seq<char>) -> bool {
    tool_index(tools, name) is Some
}

/// The index that [`tool_index`] gives is the first one of that name.
pub proof fn lemma_tool_index(tools: Seq<ToolDefinitionView>, name: Seq<char>)
    ensures
        match tool_index(tools, name) {
            Some(i) => 0 <= i < tools.len() && tools[i].name == name && forall|k: int|
                0 <= k < i ==> (#[trigger] tools[k]).name != name,
            None => forall|k: int| 0 <= k < tools.len() ==> (#[trigger] tools[k]).name != name,
        },
    decreases tools.len(),
{
    if tools.len() > 0 {
        lemma_tool_index(tools.drop_last(), name);
        assert forall|k: int| 0 <= k < tools.len() - 1 implies (#[trigger] tools[k]) == tools.drop_last()[k] by {}
    }
}

/// The position of the first tool of a name.
pub fn find_tool(tools: &Vec<ToolDefinition>, name: &str) -> (found: Option<usize>)
    ensures
        match found {
            Some(i) => tool_index(tools.deep_view(), name@) == Some(i as int),
            None => tool_index(tools.deep_view(), name@) is None,
        },
{
    let mut i: usize = 0;
    let ghost all = tools.deep_view();
    while i < tools.len()
        invariant
            i <= tools@.len(),
            all == tools.deep_view(),
            tool_index(all.take(i as int), name@) is None,
        decreases tools@.len() - i,
    {
        assert(all.take(i + 1).drop_last() =~= all.take(i as int));
        if str_eq(tools[i].name.as_str(), name) {
            proof {
                lemma_tool_index(all, name@);
                lemma_tool_index(all.take(i as int), name@);
                assert(all[i as int].name == name@);
                let j = tool_index(all, name@);
                if j->0 < i {
                    assert(all.take(i as int)[j->0].name == name@);
                }
            }
            return Some(i);
        }
        i += 1;
    }
    assert(all.take(i as int) =~= all);
    None
}

/// The tools with further ones added, each unless one of its name is there already.
pub open spec fn tools_added(tools: Seq<ToolDefinitionView>, more: Seq<ToolDefinitionView>) -> Seq<ToolDefinitionView>
    decreases more.len(),
{
    if more.len() == 0 {
        tools
    } else {
        let before = tools_added(tools, more.drop_last());
        if has_tool(before, more.last().name) {
            before
        } else {
            before.push(more.last())
        }
    }
}

/// Add copies of tools, each unless one of its name is there already.
fn add_tools(tools: &mut Vec<ToolDefinition>, more: &Vec<ToolDefinition>)
    ensures
        final(tools).deep_view() == tools_added(old(tools).deep_view(), more.deep_view()),
{
    let mut i: usize = 0;
    let ghost start = tools.deep_view();
    let ghost all = more.deep_view();
    while i < more.len()
        invariant
            i <= more@.len(),
            all == more.deep_view(),
            tools.deep_view() == tools_added(start, all.take(i as int)),
        decreases more@.len() - i,
    {
        let ghost before = tools.deep_view();
        assert(all.take(i + 1).drop_last() =~= all.take(i as int));
        if find_tool(tools, more[i].name.as_str()).is_none() {
            tools.push(more[i].clone());
            assert(tools.deep_view() =~= before.push(all[i as int]));
        }
        i += 1;
    }
    assert(all.take(i as int) =~= all);
}

/// The options of one run: the agent's, with the overrides of the call laid over
/// them, and with the agent's tools and then the context's tools added.
pub open spec fn run_options(
    options: ChatOptionsView,
    overrides: Option<ChatOptionsView>,
    agent_tools: Seq<ToolDefinitionView>,
    context_tools: Seq<ToolDefinitionView>,
) -> ChatOptionsView {
    let base = match overrides {
        Some(o) => merged(options, o),
        None => options,
    };
    ChatOptionsView { tools: tools_added(tools_added(base.tools, agent_tools), context_tools), ..base }
}

/// The messages that the instructions of the agent and of the call make.
pub open spec fn instruction_messages(
    instructions: Option<Seq<char>>,
    additional: Option<Seq<char>>,
) -> Seq<MessageView> {
    let first = match instructions {
        Some(text) => seq![text_message(Role::System, text)],
        None => Seq::empty(),
    };
    match additional {
        Some(text) => if text.len() > 0 {
            first.push(text_message(Role::System, text))
        } else {
            first
        },
        None => first,
    }
}

/// The messages that the context makes, provider by provider: its instructions
/// as a system message, then its messages.
pub open spec fn context_messages(contexts: Seq<AIContextView>) -> Seq<MessageView>
    decreases contexts.len(),
{
    if contexts.len() == 0 {
        Seq::empty()
    } else {
        let before = context_messages(contexts.drop_last());
        let context = contexts.last();
        match context.instructions {
            Some(text) => before.push(text_message(Role::System, text)) + context.messages,
            None => before + context.messages,
        }
    }
}

/// The tools that the context brings, provider by provider.
pub open spec fn context_tools_of(contexts: Seq<AIContextView>) -> Seq<ToolDefinitionView>
    decreases contexts.len(),
{
    if contexts.len() == 0 {
        Seq::empty()
    } else {
        context_tools_of(contexts.drop_last()) + contexts.last().tools
    }
}

/// The conversation that a run starts from.
pub open spec fn conversation(
    instructions: Option<Seq<char>>,
    additional: Option<Seq<char>>,
    contexts: Seq<AIContextView>,
    history: Seq<MessageView>,
    input: Seq<MessageView>,
) -> Seq<MessageView> {
    instruction_messages(instructions, additional) + context_messages(contexts) + history + input
}

impl ChatClientAgent {
    /// The options of one run, with the tools that the model may call.
    pub fn effective_options(
        &self,
        per_call: Option<&AgentRunOptions>,
        context_tools: &Vec<ToolDefinition>,
    ) -> (options: ChatOptions)
        ensures
            options@ == run_options(
                self.options@,
                match per_call {
                    Some(o) => o.chat_options.deep_view(),
                    None => None,
                },
                self.tools.deep_view(),
                context_tools.deep_view(),
            ),
    {
        let mut options = match per_call {
            Some(o) => match &o.chat_options {
                Some(overrides) => self.options.merge(overrides),
                None => self.options.clone(),
            },
            None => self.options.clone(),
        };
        let mut tools: Vec<ToolDefinition> = Vec::new();
        core::mem::swap(&mut tools, &mut options.tools);
        add_tools(&mut tools, &self.tools);
        add_tools(&mut tools, context_tools);
        options.tools = tools;
        options
    }

    /// The conversation that a run starts from: the instructions, what the
    /// context providers supplied, the history and the input.
    pub fn build_messages(
        &self,
        additional_instructions: Option<&str>,
        contexts: &Vec<AIContext>,
        history: &Vec<Message>,
        input: &Vec<Message>,
    ) -> (messages: Vec<Message>)
        ensures
            messages.deep_view() == conversation(
                self.instructions.deep_view(),
                additional_instructions.deep_view(),
                contexts.deep_view(),
                history.deep_view(),
                input.deep_view(),
            ),
    {
        let mut messages: Vec<Message> = Vec::new();
        if let Some(instructions) = &self.instructions {
            messages.push(Message::system(instructions.as_str()));
        }
        if let Some(extra) = additional_instructions {
            if !extra.is_empty() {
                messages.push(Message::system(extra));
            }
        }
        let ghost first = instruction_messages(self.instructions.deep_view(), additional_instructions.deep_view());
        assert(messages.deep_view() =~= first);
        let ghost all = contexts.deep_view();
        assert(first + Seq::<MessageView>::empty() =~= first);
        let mut i: usize = 0;
        while i < contexts.len()
            invariant
                i <= contexts@.len(),
                all == contexts.deep_view(),
                messages.deep_view() == first + context_messages(all.take(i as int)),
            decreases contexts@.len() - i,
        {
            let ghost before = context_messages(all.take(i as int));
            assert(all.take(i + 1).drop_last() =~= all.take(i as int));
            if let Some(instructions) = &contexts[i].instructions {
                let ghost so_far = messages.deep_view();
                messages.push(Message::system(instructions.as_str()));
                assert(messages.deep_view() =~= so_far.push(text_message(Role::System, instructions@)));
                assert(messages.deep_view() =~= first + before.push(text_message(Role::System, instructions@)));
            }
            extend_messages(&mut messages, &contexts[i].messages);
            assert(messages.deep_view() =~= first + context_messages(all.take(i + 1)));
            i += 1;
        }
        assert(all.take(i as int) =~= all);
        extend_messages(&mut messages, history);
        extend_messages(&mut messages, input);
        messages
    }
}

/// A tool call that the model asked for and that is not answered yet.
#[derive(Debug)]
pub struct PendingCall {
    pub id: String,
    pub name: String,
    pub arguments: Json,
}

impl View for PendingCall {
    type V = (Seq<char>, Seq<char>, JsonView);

    open spec fn view(&self) -> (Seq<char>, Seq<char>, JsonView) {
        (self.id@, self.name@, self.arguments@)
    }
}

impl DeepView for PendingCall {
    type V = (Seq<char>, Seq<char>, JsonView);

    open spec fn deep_view(&self) -> (Seq<char>, Seq<char>, JsonView) {
        self@
    }
}

/// What became of a tool call.
#[derive(Debug)]
pub enum ToolOutcome {
    /// No tool of that name exists.
    Unknown,
    /// The tool returned a value.
    Returned(Json),
    /// The tool failed.
    Failed(AgentError),
}

/// What the outcome of a tool call holds.
pub enum ToolOutcomeView {
    Unknown,
    Returned(JsonView),
    Failed(ErrorView),
}

impl View for ToolOutcome {
    type V = ToolOutcomeView;

    open spec fn view(&self) -> ToolOutcomeView {
        match self {
            ToolOutcome::Unknown => ToolOutcomeView::Unknown,
            ToolOutcome::Returned(value) => ToolOutcomeView::Returned(value@),
            ToolOutcome::Failed(error) => ToolOutcomeView::Failed(error@),
        }
    }
}

/// The text that answers a tool call: the value as JSON text, or the error.
pub open spec fn answer_text(name: Seq<char>, outcome: ToolOutcomeView) -> Seq<char> {
    match outcome {
        ToolOutcomeView::Unknown => "Error: unknown tool '"@ + name + "'"@,
        ToolOutcomeView::Returned(value) => rendered(value),
        ToolOutcomeView::Failed(error) => "Error: "@ + error_text(error),
    }
}

/// The text that answers a tool call.
pub fn tool_answer(name: &str, outcome: &ToolOutcome) -> (text: String)
    ensures
        text@ == answer_text(name@, outcome@),
{
    match outcome {
        ToolOutcome::Unknown => cat3("Error: unknown tool '", name, "'"),
        ToolOutcome::Returned(value) => value.to_text(),
        ToolOutcome::Failed(error) => cat2("Error: ", error.to_text().as_str()),
    }
}

/// Where the tool of a call is found: among the agent's own tools first, then
/// among those of the context.
#[derive(Debug, Clone, Copy, PartialEq, Eq, Structural)]
pub enum ToolSource {
    Agent(usize),
    Context(usize),
    Nowhere,
}

/// Where the tool of a name is found.
pub open spec fn tool_source(
    agent_tools: Seq<ToolDefinitionView>,
    context_tools: Seq<ToolDefinitionView>,
    name: Seq<char>,
) -> ToolSource {
    match tool_index(agent_tools, name) {
        Some(i) => ToolSource::Agent(i as usize),
        None => match tool_index(context_tools, name) {
            Some(i) => ToolSource::Context(i as usize),
            None => ToolSource::Nowhere,
        },
    }
}

impl ChatClientAgent {
    /// Where the tool of a call is found.
    pub fn locate_tool(&self, context_tools: &Vec<ToolDefinition>, name: &str) -> (source: ToolSource)
        ensures
            source == tool_source(self.tools.deep_view(), context_tools.deep_view(), name@),
    {
        match find_tool(&self.tools, name) {
            Some(i) => ToolSource::Agent(i),
            None => match find_tool(context_tools, name) {
                Some(i) => ToolSource::Context(i),
                None => ToolSource::Nowhere,
            },
        }
    }
}

/// The message that answers a tool call.
pub open spec fn answer_message(id: Seq<char>, name: Seq<char>, result: Seq<char>) -> MessageView {
    MessageView {
        role: Role::Tool,
        content: seq![ContentView::ToolResult { tool_call_id: id, content: result }],
        name: Some(name),
        metadata: Map::empty(),
    }
}

/// The message that answers a tool call.
fn tool_message(id: &str, name: &str, result: &str) -> (message: Message)
    ensures
        message@ == answer_message(id@, name@, result@),
{
    let mut content: Vec<Content> = Vec::new();
    content.push(Content::tool_result(id, result));
    assert(content.deep_view() =~= seq![ContentView::ToolResult { tool_call_id: id@, content: result@ }]);
    Message { role: Role::Tool, content, name: Some(name.to_owned()), metadata: JsonObject::new() }
}

/// One run of an agent that takes whole responses from its model.
#[derive(Debug)]
pub struct AgentRun {
    /// The messages that the caller sent.
    pub input: Vec<Message>,
    /// What is sent to the model next.
    pub conversation: Vec<Message>,
    /// What the run has produced so far.
    pub produced: Vec<Message>,
    /// The tokens used so far.
    pub usage: Usage,
    /// How many responses the model has given.
    pub rounds: usize,
    /// How many responses the model may give.
    pub max_rounds: usize,
    /// The tool calls of the last response that are not answered yet.
    pub pending: Vec<PendingCall>,
}

/// What a run holds.
#[verifier::ext_equal]
pub struct AgentRunView {
    pub input: Seq<MessageView>,
    pub conversation: Seq<MessageView>,
    pub produced: Seq<MessageView>,
    pub usage: Usage,
    pub rounds: nat,
    pub max_rounds: nat,
    pub pending: Seq<(Seq<char>, Seq<char>, JsonView)>,
}

impl View for AgentRun {
    type V = AgentRunView;

    open spec fn view(&self) -> AgentRunView {
        AgentRunView {
            input: self.input.deep_view(),
            conversation: self.conversation.deep_view(),
            produced: self.produced.deep_view(),
            usage: self.usage,
            rounds: self.rounds as nat,
            max_rounds: self.max_rounds as nat,
            pending: self.pending.deep_view(),
        }
    }
}

/// What a run does next.
#[derive(Debug)]
pub enum RunStep {
    /// Send the conversation to the model.
    CallModel,
    /// Invoke the first pending tool call.
    InvokeTool,
    /// Give up with the error.
    Fail(AgentError),
}

/// The end of a run: what goes to the history, and what the caller gets.
#[derive(Debug)]
pub struct RunEnd {
    pub history: Vec<Message>,
    pub response: AgentResponse,
}

/// A run that has just started.
pub open spec fn run_started(
    input: Seq<MessageView>,
    conversation: Seq<MessageView>,
    max_rounds: nat,
) -> AgentRunView {
    AgentRunView {
        input,
        conversation,
        produced: Seq::empty(),
        usage: Usage { input_tokens: 0, output_tokens: 0 },
        rounds: 0,
        max_rounds,
        pending: Seq::empty(),
    }
}

/// Whether a response ends the run: it calls no tool, or the model did not stop to use tools.
pub open spec fn ends_run(response: ChatResponseView) -> bool {
    calls_in(response.messages).len() == 0 || response.finish_reason != Some(FinishReason::ToolUse)
}

/// The usage of a run after a response.
pub open spec fn usage_after(usage: Usage, response: ChatResponseView) -> Usage {
    match response.usage {
        Some(u) => Usage {
            input_tokens: (usage.input_tokens + u.input_tokens) as u32,
            output_tokens: (usage.output_tokens + u.output_tokens) as u32,
        },
        None => usage,
    }
}

/// Whether the usage of a response can be added to that of the run.
pub open spec fn usage_fits(usage: Usage, response: ChatResponseView) -> bool {
    match response.usage {
        Some(u) => usage.input_tokens + u.input_tokens <= u32::MAX && usage.output_tokens + u.output_tokens <= u32::MAX,
        None => true,
    }
}

/// The run after a response that calls tools.
pub open spec fn run_continued(run: AgentRunView, response: ChatResponseView) -> AgentRunView {
    AgentRunView {
        conversation: run.conversation + response.messages,
        produced: run.produced + response.messages,
        usage: usage_after(run.usage, response),
        rounds: run.rounds + 1,
        pending: calls_in(response.messages),
        ..run
    }
}

/// The run after the first pending tool call was answered.
pub open spec fn run_answered(run: AgentRunView, result: Seq<char>) -> AgentRunView {
    let call = run.pending[0];
    let message = answer_message(call.0, call.1, result);
    AgentRunView {
        conversation: run.conversation.push(message),
        produced: run.produced.push(message),
        pending: run.pending.skip(1),
        ..run
    }
}

/// What the caller gets after a response that ends the run.
pub open spec fn run_response(run: AgentRunView, response: ChatResponseView) -> AgentResponseView {
    AgentResponseView {
        messages: run.produced + response.messages,
        text: texts_of(response.messages),
        finish_reason: response.finish_reason,
        usage: Some(usage_after(run.usage, response)),
    }
}

/// The error of a run that went on for too long.
pub open spec fn too_many_rounds(max_rounds: nat) -> ErrorView {
    ErrorView::InvalidResponse("Exceeded maximum tool rounds ("@ + decimal(max_rounds) + ")"@)
}

/// The error of a run that went on for too long.
pub fn too_many_rounds_error(max_rounds: usize) -> (error: AgentError)
    ensures
        error@ == too_many_rounds(max_rounds as nat),
{
    AgentError::InvalidResponse(
        cat3("Exceeded maximum tool rounds (", decimal_of(max_rounds as u64).as_str(), ")"),
    )
}

/// Append the tool calls of a message to a list.
fn push_calls(out: &mut Vec<PendingCall>, message: &Message)
    ensures
        final(out).deep_view() == old(out).deep_view() + calls_of(message@.content),
{
    let calls = message.tool_calls();
    let mut i: usize = 0;
    let ghost start = out.deep_view();
    let ghost all = calls.deep_view();
    assert(start + all.take(0) =~= start);
    while i < calls.len()
        invariant
            i <= calls@.len(),
            all == calls.deep_view(),
            out.deep_view() == start + all.take(i as int),
        decreases calls@.len() - i,
    {
        let ghost before = out.deep_view();
        out.push(
            PendingCall {
                id: calls[i].0.to_owned(),
                name: calls[i].1.to_owned(),
                arguments: calls[i].2.clone(),
            },
        );
        assert(out.deep_view() =~= before.push(all[i as int]));
        assert(start + all.take(i + 1) =~= (start + all.take(i as int)).push(all[i as int]));
        i += 1;
    }
    assert(all.take(i as int) =~= all);
}

/// The tool calls of messages, in order.
pub fn collect_calls(messages: &Vec<Message>) -> (calls: Vec<PendingCall>)
    ensures
        calls.deep_view() == calls_in(messages.deep_view()),
{
    let mut calls: Vec<PendingCall> = Vec::new();
    let mut i: usize = 0;
    let ghost all = messages.deep_view();
    assert(calls.deep_view() =~= Seq::empty());
    while i < messages.len()
        invariant
            i <= messages@.len(),
            all == messages.deep_view(),
            calls.deep_view() == calls_in(all.take(i as int)),
        decreases messages@.len() - i,
    {
        assert(all.take(i + 1).drop_last() =~= all.take(i as int));
        push_calls(&mut calls, &messages[i]);
        i += 1;
    }
    assert(all.take(i as int) =~= all);
    calls
}

impl AgentRun {
    /// Start a run on a conversation.
    pub fn start(input: Vec<Message>, conversation: Vec<Message>, max_rounds: usize) -> (run: Self)
        ensures
            run@ == run_started(input.deep_view(), conversation.deep_view(), max_rounds as nat),
    {
        let run = AgentRun {
            input,
            conversation,
            produced: Vec::new(),
            usage: Usage { input_tokens: 0, output_tokens: 0 },
            rounds: 0,
            max_rounds,
            pending: Vec::new(),
        };
        assert(run@ =~= run_started(input.deep_view(), conversation.deep_view(), max_rounds as nat));
        run
    }

    /// What the run does next: it answers the pending tool calls, then calls the
    /// model, unless the model has had all its rounds.
    pub fn next_step(&self) -> (step: RunStep)
        ensures
            match step {
                RunStep::InvokeTool => self@.pending.len() > 0,
                RunStep::CallModel => self@.pending.len() == 0 && self@.rounds < self@.max_rounds,
                RunStep::Fail(error) => self@.pending.len() == 0 && self@.rounds >= self@.max_rounds && error@
                    == too_many_rounds(self@.max_rounds),
            },
    {
        if self.pending.len() > 0 {
            RunStep::InvokeTool
        } else if self.rounds < self.max_rounds {
            RunStep::CallModel
        } else {
            RunStep::Fail(too_many_rounds_error(self.max_rounds))
        }
    }

    /// Whether the usage of a response can be added to that of the run.
    pub fn accepts_usage(&self, response: &ChatResponse) -> (fits: bool)
        ensures
            fits == usage_fits(self@.usage, response@),
    {
        match response.usage {
            Some(u) => self.usage.input_tokens <= u32::MAX - u.input_tokens && self.usage.output_tokens <= u32::MAX
                - u.output_tokens,
            None => true,
        }
    }

    /// Take the model's response. A response that calls no tool, or with which
    /// the model did not stop to use tools, ends the run.
    pub fn on_response(&mut self, response: ChatResponse) -> (end: Option<RunEnd>)
        requires
            old(self)@.pending.len() == 0,
            old(self)@.rounds < old(self)@.max_rounds,
            usage_fits(old(self)@.usage, response@),
        ensures
            match end {
                Some(end) => {
                    &&& ends_run(response@)
                    &&& final(self)@ == (AgentRunView {
                        produced: old(self)@.produced + response@.messages,
                        usage: usage_after(old(self)@.usage, response@),
                        ..old(self)@
                    })
                    &&& end.history.deep_view() == old(self)@.input + old(self)@.produced + response@.messages
                    &&& end.response@ == run_response(old(self)@, response@)
                },
                None => !ends_run(response@) && final(self)@ == run_continued(old(self)@, response@),
            },
            end is None <==> calls_in(response@.messages).len() > 0 && response@.finish_reason == Some(
                FinishReason::ToolUse,
            ),
            end is Some ==> {
                &&& end->0.response@.messages == old(self)@.produced + response@.messages
                &&& end->0.history.deep_view() == old(self)@.input + end->0.response@.messages
                &&& end->0.response@.text == texts_of(response@.messages)
                &&& end->0.response@.finish_reason == response@.finish_reason
                &&& end->0.response@.usage == Some(final(self)@.usage)
            },
            end is None ==> {
                &&& final(self)@.conversation == old(self)@.conversation + response@.messages
                &&& final(self)@.produced == old(self)@.produced + response@.messages
                &&& final(self)@.pending == calls_in(response@.messages)
                &&& final(self)@.rounds == old(self)@.rounds + 1
            },
            final(self)@.input == old(self)@.input,
            final(self)@.max_rounds == old(self)@.max_rounds,
    {
        let ghost before = self@;
        if let Some(u) = response.usage {
            self.usage = Usage {
                input_tokens: self.usage.input_tokens + u.input_tokens,
                output_tokens: self.usage.output_tokens + u.output_tokens,
            };
        }
        extend_messages(&mut self.produced, &response.messages);
        let calls = collect_calls(&response.messages);
        let wants_tools = match response.finish_reason {
            Some(FinishReason::ToolUse) => true,
            _ => false,
        };
        if calls.len() == 0 || !wants_tools {
            let mut history = clone_messages(&self.input);
            extend_messages(&mut history, &self.produced);
            let produced = clone_messages(&self.produced);
            let mut agent_response = AgentResponse::from_chat_response(response, produced);
            agent_response.usage = Some(self.usage);
            assert(history.deep_view() =~= before.input + before.produced + response@.messages);
            assert(history.deep_view() =~= before.input + (before.produced + response@.messages));
            return Some(RunEnd { history, response: agent_response });
        }
        extend_messages(&mut self.conversation, &response.messages);
        self.pending = calls;
        self.rounds = self.rounds + 1;
        assert(self@ =~= run_continued(before, response@));
        None
    }

    /// Answer the first pending tool call.
    pub fn on_tool_result(&mut self, result: &str)
        requires
            old(self)@.pending.len() > 0,
        ensures
            final(self)@ == run_answered(old(self)@, result@),
            final(self)@.conversation.drop_last() == old(self)@.conversation,
            final(self)@.produced.drop_last() == old(self)@.produced,
            final(self)@.conversation.last() == (MessageView {
                role: Role::Tool,
                content: seq![
                    ContentView::ToolResult { tool_call_id: old(self)@.pending[0].0, content: result@ },
                ],
                name: Some(old(self)@.pending[0].1),
                metadata: Map::empty(),
            }),
            final(self)@.produced.last() == final(self)@.conversation.last(),
            final(self)@.pending == old(self)@.pending.skip(1),
            final(self)@.input == old(self)@.input,
            final(self)@.usage == old(self)@.usage,
            final(self)@.rounds == old(self)@.rounds,
            final(self)@.max_rounds == old(self)@.max_rounds,
    {
        let ghost before = self@;
        let call = self.pending.remove(0);
        let message = tool_message(call.id.as_str(), call.name.as_str(), result);
        self.conversation.push(message.clone());
        self.produced.push(message);
        let ghost added = answer_message(before.pending[0].0, before.pending[0].1, result@);
        assert(self.conversation.deep_view() =~= before.conversation.push(added));
        assert(self.produced.deep_view() =~= before.produced.push(added));
        assert(self.pending.deep_view() =~= before.pending.skip(1));
        assert(self@ =~= run_answered(before, result@));
        assert(self@.conversation.drop_last() =~= before.conversation);
        assert(self@.produced.drop_last() =~= before.produced);
    }
}

/// The run after its pending tool calls were answered, one result for each.
pub open spec fn run_all_answered(run: AgentRunView, results: Seq<Seq<char>>) -> AgentRunView
    decreases results.len(),
{
    if results.len() == 0 {
        run
    } else {
        run_all_answered(run_answered(run, results[0]), results.skip(1))
    }
}

/// The answers to tool calls, one for each in order.
pub open spec fn answers(
    calls: Seq<(Seq<char>, Seq<char>, JsonView)>,
    results: Seq<Seq<char>>,
) -> Seq<MessageView> {
    Seq::new(calls.len(), |i: int| answer_message(calls[i].0, calls[i].1, results[i]))
}

/// Every tool call of a response is answered by exactly one message that carries
/// its id and name, in the order of the calls, and then the model is asked again.
pub proof fn law_every_call_is_answered(run: AgentRunView, results: Seq<Seq<char>>)
    requires
        results.len() == run.pending.len(),
    ensures
        run_all_answered(run, results) == (AgentRunView {
            conversation: run.conversation + answers(run.pending, results),
            produced: run.produced + answers(run.pending, results),
            pending: Seq::empty(),
            ..run
        }),
    decreases results.len(),
{
    if results.len() == 0 {
        assert(run.conversation + answers(run.pending, results) =~= run.conversation);
        assert(run.produced + answers(run.pending, results) =~= run.produced);
        assert(run.pending =~= Seq::empty());
    } else {
        let next = run_answered(run, results[0]);
        law_every_call_is_answered(next, results.skip(1));
        assert(next.conversation + answers(next.pending, results.skip(1)) =~= run.conversation + answers(
            run.pending,
            results,
        ));
        assert(next.produced + answers(next.pending, results.skip(1)) =~= run.produced + answers(run.pending, results));
    }
}

/// Nothing is lost between the model and the caller: at every step the
/// conversation is what the run started from followed by what it produced.
pub proof fn law_conversation_grows_by_what_is_produced(
    base: Seq<MessageView>,
    run: AgentRunView,
    response: ChatResponseView,
    result: Seq<char>,
)
    requires
        run.conversation == base + run.produced,
    ensures
        run_continued(run, response).conversation == base + run_continued(run, response).produced,
        run.pending.len() > 0 ==> run_answered(run, result).conversation == base + run_answered(run, result).produced,
        run_started(run.input, base, run.max_rounds).conversation == base + run_started(
            run.input,
            base,
            run.max_rounds,
        ).produced,
{
    assert(run_continued(run, response).conversation =~= base + run_continued(run, response).produced);
    if run.pending.len() > 0 {
        assert(run_answered(run, result).conversation =~= base + run_answered(run, result).produced);
    }
    assert(base =~= base + Seq::<MessageView>::empty());
}

/// The run after rounds in each of which the model called tools and got its answers.
pub open spec fn run_after_rounds(
    run: AgentRunView,
    rounds: Seq<(ChatResponseView, Seq<Seq<char>>)>,
) -> AgentRunView
    decreases rounds.len(),
{
    if rounds.len() == 0 {
        run
    } else {
        let before = run_after_rounds(run, rounds.drop_last());
        run_all_answered(run_continued(before, rounds.last().0), rounds.last().1)
    }
}

/// What rounds add to a conversation: each response, then the answers to its calls.
pub open spec fn messages_of_rounds(rounds: Seq<(ChatResponseView, Seq<Seq<char>>)>) -> Seq<MessageView>
    decreases rounds.len(),
{
    if rounds.len() == 0 {
        Seq::empty()
    } else {
        let last = rounds.last();
        messages_of_rounds(rounds.drop_last()) + last.0.messages + answers(calls_in(last.0.messages), last.1)
    }
}

/// The rounds of a run are bounded, and after each of them the model sees the
/// conversation that the run started from, then every response with the answers to
/// its calls.
pub proof fn law_rounds_are_bounded(
    input: Seq<MessageView>,
    base: Seq<MessageView>,
    max_rounds: nat,
    rounds: Seq<(ChatResponseView, Seq<Seq<char>>)>,
)
    requires
        forall|i: int|
            0 <= i < rounds.len() ==> (#[trigger] rounds[i]).1.len() == calls_in(rounds[i].0.messages).len(),
        forall|i: int|
            0 <= i < rounds.len() ==> (#[trigger] run_after_rounds(
                run_started(input, base, max_rounds),
                rounds.take(i),
            )).rounds < max_rounds,
    ensures
        rounds.len() <= max_rounds,
        run_after_rounds(run_started(input, base, max_rounds), rounds).conversation == base + messages_of_rounds(rounds),
        run_after_rounds(run_started(input, base, max_rounds), rounds).produced == messages_of_rounds(rounds),
        run_after_rounds(run_started(input, base, max_rounds), rounds).pending.len() == 0,
{
    let start = run_started(input, base, max_rounds);
    lemma_rounds(input, base, max_rounds, rounds);
    if rounds.len() > 0 {
        let n = rounds.len() - 1;
        assert forall|i: int| 0 <= i < n implies (#[trigger] rounds.take(n)[i]).1.len() == calls_in(
            rounds.take(n)[i].0.messages,
        ).len() by {
            assert(rounds.take(n)[i] == rounds[i]);
        }
        lemma_rounds(input, base, max_rounds, rounds.take(n));
        assert(run_after_rounds(start, rounds.take(n)).rounds < max_rounds);
    }
}

proof fn lemma_rounds(
    input: Seq<MessageView>,
    base: Seq<MessageView>,
    max_rounds: nat,
    rounds: Seq<(ChatResponseView, Seq<Seq<char>>)>,
)
    requires
        forall|i: int|
            0 <= i < rounds.len() ==> (#[trigger] rounds[i]).1.len() == calls_in(rounds[i].0.messages).len(),
    ensures
        ({
            let run = run_after_rounds(run_started(input, base, max_rounds), rounds);
            &&& run.rounds == rounds.len()
            &&& run.pending.len() == 0
            &&& run.conversation == base + messages_of_rounds(rounds)
            &&& run.produced == messages_of_rounds(rounds)
        }),
    decreases rounds.len(),
{
    if rounds.len() == 0 {
        assert(base + Seq::<MessageView>::empty() =~= base);
    } else {
        let rest = rounds.drop_last();
        let last = rounds.last();
        assert forall|i: int| 0 <= i < rest.len() implies (#[trigger] rest[i]).1.len() == calls_in(
            rest[i].0.messages,
        ).len() by {
            assert(rest[i] == rounds[i]);
        }
        assert(rounds[rounds.len() - 1].1.len() == calls_in(last.0.messages).len());
        lemma_rounds(input, base, max_rounds, rest);
        let before = run_after_rounds(run_started(input, base, max_rounds), rest);
        let asked = run_continued(before, last.0);
        law_every_call_is_answered(asked, last.1);
        let added = answers(calls_in(last.0.messages), last.1);
        assert(asked.conversation + added =~= base + messages_of_rounds(rounds));
        assert(asked.produced + added =~= messages_of_rounds(rounds));
    }
}

/// The tokens that go into the responses of rounds, and those that come out of them.
pub open spec fn tokens_of_rounds(rounds: Seq<(ChatResponseView, Seq<Seq<char>>)>) -> (nat, nat)
    decreases rounds.len(),
{
    if rounds.len() == 0 {
        (0, 0)
    } else {
        let before = tokens_of_rounds(rounds.drop_last());
        match rounds.last().0.usage {
            Some(u) => (before.0 + u.input_tokens as nat, before.1 + u.output_tokens as nat),
            None => before,
        }
    }
}

/// What the caller gets says how many tokens all responses of the run took
/// together, as far as a counter holds them.
pub proof fn law_usage_is_summed(
    input: Seq<MessageView>,
    base: Seq<MessageView>,
    max_rounds: nat,
    rounds: Seq<(ChatResponseView, Seq<Seq<char>>)>,
    last: ChatResponseView,
)
    requires
        tokens_of_rounds(rounds.push((last, Seq::empty()))).0 <= u32::MAX,
        tokens_of_rounds(rounds.push((last, Seq::empty()))).1 <= u32::MAX,
    ensures
        ({
            let run = run_after_rounds(run_started(input, base, max_rounds), rounds);
            let total = tokens_of_rounds(rounds.push((last, Seq::empty())));
            &&& usage_fits(run.usage, last)
            &&& run_response(run, last).usage == Some(
                Usage { input_tokens: total.0 as u32, output_tokens: total.1 as u32 },
            )
        }),
{
    assert(rounds.push((last, Seq::empty())).drop_last() =~= rounds);
    lemma_usage_of_rounds(input, base, max_rounds, rounds);
}

proof fn lemma_usage_of_rounds(
    input: Seq<MessageView>,
    base: Seq<MessageView>,
    max_rounds: nat,
    rounds: Seq<(ChatResponseView, Seq<Seq<char>>)>,
)
    requires
        tokens_of_rounds(rounds).0 <= u32::MAX,
        tokens_of_rounds(rounds).1 <= u32::MAX,
    ensures
        run_after_rounds(run_started(input, base, max_rounds), rounds).usage == (Usage {
            input_tokens: tokens_of_rounds(rounds).0 as u32,
            output_tokens: tokens_of_rounds(rounds).1 as u32,
        }),
    decreases rounds.len(),
{
    if rounds.len() > 0 {
        lemma_usage_of_rounds(input, base, max_rounds, rounds.drop_last());
        let before = run_after_rounds(run_started(input, base, max_rounds), rounds.drop_last());
        lemma_answers_keep_usage(run_continued(before, rounds.last().0), rounds.last().1);
    }
}

proof fn lemma_answers_keep_usage(run: AgentRunView, results: Seq<Seq<char>>)
    ensures
        run_all_answered(run, results).usage == run.usage,
    decreases results.len(),
{
    if results.len() > 0 {
        lemma_answers_keep_usage(run_answered(run, results[0]), results.skip(1));
    }
}

/// Adding tools keeps those that are there, offers every tool by its name, and
/// adds none under a name that is taken.
pub proof fn law_tools_are_added_once(tools: Seq<ToolDefinitionView>, more: Seq<ToolDefinitionView>)
    ensures
        tools.len() <= tools_added(tools, more).len(),
        tools_added(tools, more).take(tools.len() as int) == tools,
        forall|i: int| 0 <= i < more.len() ==> has_tool(tools_added(tools, more), (#[trigger] more[i]).name),
        forall|i: int, j: int|
            0 <= i < j < tools_added(tools, more).len() && tools.len() <= j ==> (#[trigger] tools_added(
                tools,
                more,
            )[i]).name != (#[trigger] tools_added(tools, more)[j]).name,
    decreases more.len(),
{
    if more.len() == 0 {
        assert(tools.take(tools.len() as int) =~= tools);
    } else {
        let before = tools_added(tools, more.drop_last());
        let after = tools_added(tools, more);
        law_tools_are_added_once(tools, more.drop_last());
        lemma_tool_index(before, more.last().name);
        if !has_tool(before, more.last().name) {
            assert(after == before.push(more.last()));
        }
        assert(after.take(tools.len() as int) =~= before.take(tools.len() as int));
        assert forall|i: int| 0 <= i < more.len() implies has_tool(after, (#[trigger] more[i]).name) by {
            lemma_tool_index(after, more[i].name);
            if i < more.len() - 1 {
                assert(more.drop_last()[i] == more[i]);
                lemma_tool_index(before, more[i].name);
                let k = tool_index(before, more[i].name)->0;
                assert(after[k].name == more[i].name);
            } else if !has_tool(before, more.last().name) {
                assert(after[before.len() as int].name == more[i].name);
            }
        }
    }
}

/// Builder for [`ChatClientAgent`].
#[derive(Debug)]
pub struct ChatClientAgentBuilder {
    pub name: Option<String>,
    pub description: Option<String>,
    pub instructions: Option<String>,
    /// Whether a chat client was given.
    pub has_client: bool,
    pub tools: Vec<ToolDefinition>,
    pub options: ChatOptions,
    pub max_tool_rounds: Option<usize>,
}

/// How many rounds of tool calls an agent allows unless it is told otherwise.
pub const DEFAULT_MAX_TOOL_ROUNDS: usize = 10;

impl ChatClientAgent {
    /// A builder for an agent.
    pub fn builder() -> (builder: ChatClientAgentBuilder)
        ensures
            builder.name is None,
            builder.description is None,
            builder.instructions is None,
            !builder.has_client,
            builder.tools.deep_view() == Seq::<ToolDefinitionView>::empty(),
            builder.options@ == no_options(),
            builder.max_tool_rounds is None,
    {
        let tools: Vec<ToolDefinition> = Vec::new();
        assert(tools.deep_view() =~= Seq::<ToolDefinitionView>::empty());
        ChatClientAgentBuilder {
            name: None,
            description: None,
            instructions: None,
            has_client: false,
            tools,
            options: ChatOptions::default(),
            max_tool_rounds: None,
        }
    }
}

impl ChatClientAgentBuilder {
    /// State that a chat client is given. Required.
    pub fn client(self) -> (builder: Self)
        ensures
            builder == (ChatClientAgentBuilder { has_client: true, ..self }),
    {
        ChatClientAgentBuilder { has_client: true, ..self }
    }

    /// Set the agent's human-readable name.
    pub fn name(self, name: &str) -> (builder: Self)
        ensures
            builder.name.deep_view() == Some(name@),
            builder == (ChatClientAgentBuilder { name: builder.name, ..self }),
    {
        ChatClientAgentBuilder { name: Some(name.to_owned()), ..self }
    }

    /// Set the agent's description.
    pub fn description(self, description: &str) -> (builder: Self)
        ensures
            builder.description.deep_view() == Some(description@),
            builder == (ChatClientAgentBuilder { description: builder.description, ..self }),
    {
        ChatClientAgentBuilder { description: Some(description.to_owned()), ..self }
    }

    /// Set the system instructions for the agent.
    pub fn instructions(self, instructions: &str) -> (builder: Self)
        ensures
            builder.instructions.deep_view() == Some(instructions@),
            builder == (ChatClientAgentBuilder { instructions: builder.instructions, ..self }),
    {
        ChatClientAgentBuilder { instructions: Some(instructions.to_owned()), ..self }
    }

    /// Add a tool to the agent.
    pub fn tool(self, tool: ToolDefinition) -> (builder: Self)
        ensures
            builder.tools.deep_view() == self.tools.deep_view().push(tool@),
            builder == (ChatClientAgentBuilder { tools: builder.tools, ..self }),
    {
        let mut builder = self;
        builder.tools.push(tool);
        assert(builder.tools.deep_view() =~= self.tools.deep_view().push(tool@));
        builder
    }

    /// Add multiple tools to the agent.
    pub fn tools(self, tools: Vec<ToolDefinition>) -> (builder: Self)
        ensures
            builder.tools.deep_view() == self.tools.deep_view() + tools.deep_view(),
            builder == (ChatClientAgentBuilder { tools: builder.tools, ..self }),
    {
        let mut builder = self;
        let mut more = tools;
        builder.tools.append(&mut more);
        assert(builder.tools.deep_view() =~= self.tools.deep_view() + tools.deep_view());
        builder
    }

    /// Set default chat options.
    pub fn options(self, options: ChatOptions) -> (builder: Self)
        ensures
            builder == (ChatClientAgentBuilder { options, ..self }),
    {
        ChatClientAgentBuilder { options, ..self }
    }

    /// Set the maximum number of tool-call rounds before giving up.
    pub fn max_tool_rounds(self, max: usize) -> (builder: Self)
        ensures
            builder == (ChatClientAgentBuilder { max_tool_rounds: Some(max), ..self }),
    {
        ChatClientAgentBuilder { max_tool_rounds: Some(max), ..self }
    }

    /// Build the agent. It gets a fresh identifier. A chat client is required.
    pub fn build(self) -> (result: AgentResult<ChatClientAgent>)
        ensures
            match result {
                Ok(agent) => {
                    &&& self.has_client
                    &&& is_uuid(agent.id@)
                    &&& agent.name == self.name
                    &&& agent.description == self.description
                    &&& agent.instructions == self.instructions
                    &&& agent.tools == self.tools
                    &&& agent.options == self.options
                    &&& agent.max_tool_rounds == match self.max_tool_rounds {
                        Some(max) => max,
                        None => DEFAULT_MAX_TOOL_ROUNDS,
                    }
                },
                Err(error) => !self.has_client && error@ == ErrorView::InvalidRequest("A ChatClient is required"@),
            },
    {
        if !self.has_client {
            return Err(AgentError::invalid_request("A ChatClient is required"));
        }
        Ok(
            ChatClientAgent {
                id: fresh_id(),
                name: self.name,
                description: self.description,
                instructions: self.instructions,
                tools: self.tools,
                options: self.options,
                max_tool_rounds: match self.max_tool_rounds {
                    Some(max) => max,
                    None => DEFAULT_MAX_TOOL_ROUNDS,
                },
            },
        )
    }
}

// ---------------------------------------------------------------------------
// What a run is for
// ---------------------------------------------------------------------------

/// Each answer stands where its call stood among the calls, is a message of the tool of
/// that name, and holds one block: the result of that call under its id.
pub proof fn law_answers_carry_the_results(run: AgentRunView, results: Seq<Seq<char>>)
    requires
        results.len() == run.pending.len(),
    ensures
        ({
            let end = run_all_answered(run, results);
            let n = run.produced.len() as int;
            let c = run.conversation.len() as int;
            &&& end.pending.len() == 0
            &&& end.produced.len() == n + results.len()
            &&& end.produced.take(n) == run.produced
            &&& end.conversation.len() == c + results.len()
            &&& end.conversation.take(c) == run.conversation
            &&& forall|i: int|
                #![trigger results[i]]
                0 <= i < results.len() ==> {
                    &&& end.produced[n + i].role == Role::Tool
                    &&& end.produced[n + i].name == Some(run.pending[i].1)
                    &&& end.produced[n + i].content == seq![
                        ContentView::ToolResult { tool_call_id: run.pending[i].0, content: results[i] },
                    ]
                    &&& end.produced[n + i].metadata == Map::<Seq<char>, JsonView>::empty()
                    &&& end.conversation[c + i] == end.produced[n + i]
                }
            &&& end.input == run.input
            &&& end.usage == run.usage
            &&& end.rounds == run.rounds
            &&& end.max_rounds == run.max_rounds
        }),
{
    law_every_call_is_answered(run, results);
    let end = run_all_answered(run, results);
    assert(end.produced.take(run.produced.len() as int) =~= run.produced);
    assert(end.conversation.take(run.conversation.len() as int) =~= run.conversation);
}

/// When a run ends, the caller gets everything that it produced: each response with the
/// answers to its calls, round by round, and then the last response. What the agent
/// says is the text of the last response.
pub proof fn law_caller_gets_the_whole_run(
    input: Seq<MessageView>,
    base: Seq<MessageView>,
    max_rounds: nat,
    rounds: Seq<(ChatResponseView, Seq<Seq<char>>)>,
    last: ChatResponseView,
)
    requires
        forall|i: int|
            0 <= i < rounds.len() ==> (#[trigger] rounds[i]).1.len() == calls_in(rounds[i].0.messages).len(),
    ensures
        ({
            let run = run_after_rounds(run_started(input, base, max_rounds), rounds);
            let response = run_response(run, last);
            &&& response.messages == messages_of_rounds(rounds) + last.messages
            &&& response.text == texts_of(last.messages)
            &&& response.finish_reason == last.finish_reason
            &&& run.input == input
            &&& run.conversation == base + messages_of_rounds(rounds)
            &&& run.rounds == rounds.len()
        }),
    decreases rounds.len(),
{
    lemma_rounds(input, base, max_rounds, rounds);
    lemma_rounds_keep_input(input, base, max_rounds, rounds);
}

proof fn lemma_rounds_keep_input(
    input: Seq<MessageView>,
    base: Seq<MessageView>,
    max_rounds: nat,
    rounds: Seq<(ChatResponseView, Seq<Seq<char>>)>,
)
    ensures
        run_after_rounds(run_started(input, base, max_rounds), rounds).input == input,
    decreases rounds.len(),
{
    if rounds.len() > 0 {
        lemma_rounds_keep_input(input, base, max_rounds, rounds.drop_last());
        let before = run_after_rounds(run_started(input, base, max_rounds), rounds.drop_last());
        lemma_answers_keep_input(run_continued(before, rounds.last().0), rounds.last().1);
    }
}

proof fn lemma_answers_keep_input(run: AgentRunView, results: Seq<Seq<char>>)
    ensures
        run_all_answered(run, results).input == run.input,
    decreases results.len(),
{
    if results.len() > 0 {
        lemma_answers_keep_input(run_answered(run, results[0]), results.skip(1));
    }
}

/// What rounds add is what each round adds, in their order; and a round adds the whole
/// response and after it, for each of its calls, a tool message with the call's id, its
/// name and the result.
pub proof fn law_rounds_hold_calls_and_answers(
    first: Seq<(ChatResponseView, Seq<Seq<char>>)>,
    rest: Seq<(ChatResponseView, Seq<Seq<char>>)>,
    response: ChatResponseView,
    results: Seq<Seq<char>>,
)
    requires
        results.len() == calls_in(response.messages).len(),
    ensures
        messages_of_rounds(Seq::empty()).len() == 0,
        messages_of_rounds(first + rest) == messages_of_rounds(first) + messages_of_rounds(rest),
        ({
            let added = messages_of_rounds(seq![(response, results)]);
            let n = response.messages.len() as int;
            &&& added.len() == n + results.len()
            &&& added.take(n) == response.messages
            &&& forall|i: int|
                #![trigger results[i]]
                0 <= i < results.len() ==> {
                    &&& added[n + i].role == Role::Tool
                    &&& added[n + i].name == Some(calls_in(response.messages)[i].1)
                    &&& added[n + i].content == seq![
                        ContentView::ToolResult {
                            tool_call_id: calls_in(response.messages)[i].0,
                            content: results[i],
                        },
                    ]
                }
        }),
    decreases rest.len(),
{
    let one = seq![(response, results)];
    assert(one.drop_last() =~= Seq::empty());
    assert(messages_of_rounds(one.drop_last()) =~= Seq::empty());
    assert(messages_of_rounds(one) =~= response.messages + answers(calls_in(response.messages), results));
    assert(messages_of_rounds(one).take(response.messages.len() as int) =~= response.messages);
    if rest.len() == 0 {
        assert(first + rest =~= first);
        assert(messages_of_rounds(first) + messages_of_rounds(rest) =~= messages_of_rounds(first));
    } else {
        law_rounds_hold_calls_and_answers(first, rest.drop_last(), response, results);
        assert((first + rest).drop_last() =~= first + rest.drop_last());
        assert((first + rest).last() == rest.last());
        assert(messages_of_rounds(first + rest) =~= messages_of_rounds(first) + messages_of_rounds(rest));
    }
}

/// A run starts with nothing produced, nothing pending, no round gone and no token used,
/// on the conversation and with the limit that it is given.
pub proof fn law_run_starts_empty(input: Seq<MessageView>, conversation: Seq<MessageView>, max_rounds: nat)
    ensures
        run_started(input, conversation, max_rounds).input == input,
        run_started(input, conversation, max_rounds).conversation == conversation,
        run_started(input, conversation, max_rounds).produced.len() == 0,
        run_started(input, conversation, max_rounds).pending.len() == 0,
        run_started(input, conversation, max_rounds).rounds == 0,
        run_started(input, conversation, max_rounds).max_rounds == max_rounds,
        run_started(input, conversation, max_rounds).usage.input_tokens == 0,
        run_started(input, conversation, max_rounds).usage.output_tokens == 0,
{
}

/// The model of a run has all that the run holds, and that of a pending call its id, its
/// name and its arguments.
pub proof fn law_run_model_is_complete(run: AgentRun, call: PendingCall)
    ensures
        run@.input == run.input.deep_view(),
        run@.conversation == run.conversation.deep_view(),
        run@.produced == run.produced.deep_view(),
        run@.usage == run.usage,
        run@.rounds == run.rounds,
        run@.max_rounds == run.max_rounds,
        run@.pending == run.pending.deep_view(),
        call@.0 == call.id@,
        call@.1 == call.name@,
        call@.2 == call.arguments@,
{
}

/// What the model is sent at first ends with the input, before which stands the history;
/// the agent's instructions come first, as a system message, then those of the call, and
/// what the context supplies stands between them and the history.
pub proof fn law_conversation_order(
    instructions: Option<Seq<char>>,
    additional: Option<Seq<char>>,
    contexts: Seq<AIContextView>,
    history: Seq<MessageView>,
    input: Seq<MessageView>,
)
    ensures
        ({
            let all = conversation(instructions, additional, contexts, history, input);
            let a: int = if instructions is Some { 1 } else { 0 };
            let b: int = if additional is Some && additional->0.len() > 0 { 1 } else { 0 };
            let m = context_messages(contexts).len() as int;
            let h = history.len() as int;
            &&& all.len() == a + b + m + h + input.len()
            &&& instructions is Some ==> all[0].role == Role::System && text_of(all[0].content) == instructions->0
            &&& b == 1 ==> all[a].role == Role::System && text_of(all[a].content) == additional->0
            &&& all.subrange(a + b, a + b + m) == context_messages(contexts)
            &&& all.subrange(a + b + m, a + b + m + h) == history
            &&& all.skip(a + b + m + h) == input
        }),
{
    let all = conversation(instructions, additional, contexts, history, input);
    let a: int = if instructions is Some { 1 } else { 0 };
    let b: int = if additional is Some && additional->0.len() > 0 { 1 } else { 0 };
    let m = context_messages(contexts).len() as int;
    let h = history.len() as int;
    if let Some(text) = instructions {
        law_text_message_says_its_text(Role::System, text);
        assert(all[0] == text_message(Role::System, text));
    }
    if b == 1 {
        law_text_message_says_its_text(Role::System, additional->0);
        assert(all[a] == text_message(Role::System, additional->0));
    }
    assert(all.subrange(a + b, a + b + m) =~= context_messages(contexts));
    assert(all.subrange(a + b + m, a + b + m + h) =~= history);
    assert(all.skip(a + b + m + h) =~= input);
}

/// Each provider of context adds its instructions as a system message, if it has any,
/// then its messages; and it brings its tools. Providers add one after the other.
pub proof fn law_context_is_kept(first: Seq<AIContextView>, rest: Seq<AIContextView>, context: AIContextView)
    ensures
        context_messages(Seq::empty()).len() == 0,
        context_messages(first + rest) == context_messages(first) + context_messages(rest),
        context.instructions is None ==> context_messages(seq![context]) == context.messages,
        context.instructions is Some ==> {
            &&& context_messages(seq![context]).len() == context.messages.len() + 1
            &&& context_messages(seq![context])[0].role == Role::System
            &&& text_of(context_messages(seq![context])[0].content) == context.instructions->0
            &&& context_messages(seq![context]).skip(1) == context.messages
        },
        context_tools_of(Seq::empty()).len() == 0,
        context_tools_of(first + rest) == context_tools_of(first) + context_tools_of(rest),
        context_tools_of(seq![context]) == context.tools,
    decreases rest.len(),
{
    let one = seq![context];
    assert(one.drop_last() =~= Seq::empty());
    assert(context_messages(one.drop_last()) =~= Seq::empty());
    assert(context_tools_of(one.drop_last()) =~= Seq::empty());
    assert(context_tools_of(one) =~= context.tools);
    match context.instructions {
        Some(text) => {
            law_text_message_says_its_text(Role::System, text);
            assert(context_messages(one).skip(1) =~= context.messages);
        },
        None => {
            assert(context_messages(one) =~= context.messages);
        },
    }
    if rest.len() == 0 {
        assert(first + rest =~= first);
        assert(context_messages(first) + context_messages(rest) =~= context_messages(first));
        assert(context_tools_of(first) + context_tools_of(rest) =~= context_tools_of(first));
    } else {
        law_context_is_kept(first, rest.drop_last(), context);
        assert((first + rest).drop_last() =~= first + rest.drop_last());
        assert((first + rest).last() == rest.last());
        assert(context_messages(first + rest) =~= context_messages(first) + context_messages(rest));
        assert(context_tools_of(first + rest) =~= context_tools_of(first) + context_tools_of(rest));
    }
}

/// Whoever asks for a tool by its name finds the first of that name among the tools and
/// those that were to be added, and every tool that was added is one of those.
pub proof fn law_first_tool_of_a_name_is_kept(
    tools: Seq<ToolDefinitionView>,
    more: Seq<ToolDefinitionView>,
    name: Seq<char>,
)
    ensures
        has_tool(tools_added(tools, more), name) <==> has_tool(tools + more, name),
        has_tool(tools + more, name) ==> tools_added(tools, more)[tool_index(tools_added(tools, more), name)->0] == (
        tools + more)[tool_index(tools + more, name)->0],
        forall|j: int|
            tools.len() <= j < tools_added(tools, more).len() ==> more.contains(
                #[trigger] tools_added(tools, more)[j],
            ),
    decreases more.len(),
{
    let after = tools_added(tools, more);
    if more.len() == 0 {
        assert(tools + more =~= tools);
    } else {
        let rest = more.drop_last();
        let before = tools_added(tools, rest);
        law_first_tool_of_a_name_is_kept(tools, rest, name);
        law_first_tool_of_a_name_is_kept(tools, rest, more.last().name);
        law_tools_are_added_once(tools, rest);
        assert((tools + more).drop_last() =~= tools + rest);
        assert((tools + more).last() == more.last());
        if !has_tool(before, more.last().name) {
            assert(after == before.push(more.last()));
            assert(after.drop_last() =~= before);
        }
        lemma_tool_index(before, name);
        lemma_tool_index(tools + rest, name);
        assert forall|j: int| tools.len() <= j < after.len() implies more.contains(#[trigger] after[j]) by {
            if j < before.len() {
                assert(after[j] == before[j]);
                assert(rest.contains(before[j]));
                let k = choose|k: int| 0 <= k < rest.len() && rest[k] == before[j];
                assert(more[k] == before[j]);
            } else {
                assert(after[j] == more[more.len() - 1]);
            }
        }
    }
}

/// A run is made with the agent's options where the call overrides nothing and with the
/// merged ones where it does. The tools of these options come first and stay; the model
/// is offered every tool of the agent and of the context by its name.
pub proof fn law_run_options(
    options: ChatOptionsView,
    overrides: Option<ChatOptionsView>,
    agent_tools: Seq<ToolDefinitionView>,
    context_tools: Seq<ToolDefinitionView>,
)
    ensures
        ({
            let base = match overrides {
                Some(o) => merged(options, o),
                None => options,
            };
            let out = run_options(options, overrides, agent_tools, context_tools);
            &&& out == (ChatOptionsView { tools: out.tools, ..base })
            &&& base.tools.len() <= out.tools.len()
            &&& out.tools.take(base.tools.len() as int) == base.tools
            &&& forall|i: int| 0 <= i < agent_tools.len() ==> has_tool(out.tools, (#[trigger] agent_tools[i]).name)
            &&& forall|i: int|
                0 <= i < context_tools.len() ==> has_tool(out.tools, (#[trigger] context_tools[i]).name)
            &&& forall|j: int|
                base.tools.len() <= j < out.tools.len() ==> agent_tools.contains(#[trigger] out.tools[j])
                    || context_tools.contains(out.tools[j])
        }),
{
    let base = match overrides {
        Some(o) => merged(options, o),
        None => options,
    };
    let out = run_options(options, overrides, agent_tools, context_tools);
    let mid = tools_added(base.tools, agent_tools);
    law_tools_are_added_once(base.tools, agent_tools);
    law_tools_are_added_once(mid, context_tools);
    assert(out.tools.take(base.tools.len() as int) =~= mid.take(base.tools.len() as int));
    assert forall|i: int| 0 <= i < agent_tools.len() implies has_tool(out.tools, (#[trigger] agent_tools[i]).name) by {
        let name = agent_tools[i].name;
        lemma_tool_index(mid, name);
        lemma_tool_index(out.tools, name);
        let k = tool_index(mid, name)->0;
        assert(out.tools.take(mid.len() as int)[k] == mid[k]);
        assert(out.tools[k].name == name);
    }
    law_first_tool_of_a_name_is_kept(base.tools, agent_tools, Seq::empty());
    law_first_tool_of_a_name_is_kept(mid, context_tools, Seq::empty());
    assert forall|j: int| base.tools.len() <= j < out.tools.len() implies agent_tools.contains(#[trigger] out.tools[j])
        || context_tools.contains(out.tools[j]) by {
        if j < mid.len() {
            assert(out.tools.take(mid.len() as int)[j] == mid[j]);
        }
    }
}

proof fn lemma_tool_index_append(a: Seq<ToolDefinitionView>, b: Seq<ToolDefinitionView>, name: Seq<char>)
    ensures
        tool_index(a + b, name) == match tool_index(a, name) {
            Some(i) => Some(i),
            None => match tool_index(b, name) {
                Some(i) => Some(a.len() + i),
                None => None,
            },
        },
    decreases b.len(),
{
    if b.len() == 0 {
        assert(a + b =~= a);
    } else {
        lemma_tool_index_append(a, b.drop_last(), name);
        assert((a + b).drop_last() =~= a + b.drop_last());
        assert((a + b).last() == b.last());
    }
}

/// Of several tools of one name the model is offered the first: one of the options
/// before one of the agent, and one of the agent before one of the context.
pub proof fn law_first_tool_is_offered(
    options: ChatOptionsView,
    overrides: Option<ChatOptionsView>,
    agent_tools: Seq<ToolDefinitionView>,
    context_tools: Seq<ToolDefinitionView>,
    name: Seq<char>,
)
    ensures
        ({
            let base = match overrides {
                Some(o) => merged(options, o).tools,
                None => options.tools,
            };
            let all = base + agent_tools + context_tools;
            let offered = run_options(options, overrides, agent_tools, context_tools).tools;
            &&& has_tool(offered, name) <==> has_tool(all, name)
            &&& has_tool(all, name) ==> offered[tool_index(offered, name)->0] == all[tool_index(all, name)->0]
        }),
{
    let base = match overrides {
        Some(o) => merged(options, o).tools,
        None => options.tools,
    };
    let mid = tools_added(base, agent_tools);
    law_first_tool_of_a_name_is_kept(base, agent_tools, name);
    law_first_tool_of_a_name_is_kept(mid, context_tools, name);
    lemma_tool_index_append(mid, context_tools, name);
    lemma_tool_index_append(base + agent_tools, context_tools, name);
    lemma_tool_index(mid, name);
    lemma_tool_index(base + agent_tools, name);
    lemma_tool_index(context_tools, name);
}

/// A call goes to the first tool of its name: one of the agent's, if there is any, else
/// one of the context's, and to none only if neither has one.
pub proof fn law_call_goes_to_the_first_tool_of_its_name(
    agent_tools: Seq<ToolDefinitionView>,
    context_tools: Seq<ToolDefinitionView>,
    name: Seq<char>,
)
    requires
        agent_tools.len() <= usize::MAX,
        context_tools.len() <= usize::MAX,
    ensures
        match tool_source(agent_tools, context_tools, name) {
            ToolSource::Agent(i) => i < agent_tools.len() && agent_tools[i as int].name == name && forall|k: int|
                0 <= k < i ==> (#[trigger] agent_tools[k]).name != name,
            ToolSource::Context(i) => {
                &&& forall|k: int| 0 <= k < agent_tools.len() ==> (#[trigger] agent_tools[k]).name != name
                &&& i < context_tools.len() && context_tools[i as int].name == name
                &&& forall|k: int| 0 <= k < i ==> (#[trigger] context_tools[k]).name != name
            },
            ToolSource::Nowhere => {
                &&& forall|k: int| 0 <= k < agent_tools.len() ==> (#[trigger] agent_tools[k]).name != name
                &&& forall|k: int| 0 <= k < context_tools.len() ==> (#[trigger] context_tools[k]).name != name
            },
        },
{
    lemma_tool_index(agent_tools, name);
    lemma_tool_index(context_tools, name);
}

/// The answer to a call is the value that the tool returned, as JSON text; where it
/// failed or does not exist, the answer says that it is an error and which.
pub proof fn law_tool_answers(name: Seq<char>, value: JsonView, error: ErrorView)
    ensures
        answer_text(name, ToolOutcomeView::Returned(value)) == rendered(value),
        answer_text(name, ToolOutcomeView::Failed(error)) == "Error: "@ + error_text(error),
        answer_text(name, ToolOutcomeView::Unknown) == "Error: unknown tool '"@ + name + "'"@,
{
}

/// A run goes on after a response exactly if it calls tools and the model stopped to use
/// them. Its tokens are added to those of the run, and it counts as a round; its calls
/// are what is pending then.
pub proof fn law_run_goes_on_for_tools(run: AgentRunView, response: ChatResponseView)
    ensures
        !ends_run(response) <==> calls_in(response.messages).len() > 0 && response.finish_reason == Some(
            FinishReason::ToolUse,
        ),
        response.usage is None ==> usage_after(run.usage, response) == run.usage,
        response.usage is Some && usage_fits(run.usage, response) ==> {
            &&& usage_after(run.usage, response).input_tokens == run.usage.input_tokens
                + response.usage->0.input_tokens
            &&& usage_after(run.usage, response).output_tokens == run.usage.output_tokens
                + response.usage->0.output_tokens
        },
        usage_fits(run.usage, response) <==> response.usage is None || (run.usage.input_tokens
            + response.usage->0.input_tokens <= u32::MAX && run.usage.output_tokens + response.usage->0.output_tokens
            <= u32::MAX),
        run_continued(run, response).conversation == run.conversation + response.messages,
        run_continued(run, response).produced == run.produced + response.messages,
        run_continued(run, response).pending == calls_in(response.messages),
        run_continued(run, response).rounds == run.rounds + 1,
        run_continued(run, response).max_rounds == run.max_rounds,
        run_continued(run, response).input == run.input,
{
}

/// A run that has had all its rounds fails with the number of rounds that it had.
pub proof fn law_too_many_rounds(max_rounds: nat)
    ensures
        too_many_rounds(max_rounds) == ErrorView::InvalidResponse(
            "Exceeded maximum tool rounds ("@ + decimal(max_rounds) + ")"@,
        ),
{
}

} // verus!
