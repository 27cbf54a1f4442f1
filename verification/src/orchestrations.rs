//! Several agents on one task: one after the other, side by side, in a group chat,
//! and with one handing over to another. Who runs next, with what input, and what
//! comes out is decided here; running the agents is the caller's part.

use vstd::prelude::*;

use crate::agent::collect_calls;
use crate::error::{AgentError, AgentResult, ErrorView};
use crate::json::JsonView;
use crate::text::{cat3, contains, contains_text, str_eq};
use crate::types::{
    calls_in, clone_messages, extend_messages, law_text_message_says_its_text, text_message, text_of, AgentResponse,
    AgentResponseView, Message, MessageView, Role,
};

verus! {

/// The input that is made of an agent's text.
pub open spec fn as_input(text: Seq<char>) -> Seq<MessageView> {
    seq![text_message(Role::User, text)]
}

fn input_of(text: &str) -> (messages: Vec<Message>)
    ensures
        messages.deep_view() == as_input(text@),
{
    let mut messages: Vec<Message> = Vec::new();
    messages.push(Message::user(text));
    assert(messages.deep_view() =~= as_input(text@));
    messages
}

// ---------------------------------------------------------------------------
// One after the other
// ---------------------------------------------------------------------------

/// A run of agents one after the other, where the text of one is the input of the next.
#[derive(Debug)]
pub struct SequentialOrchestration {
    /// How many agents there are.
    pub agents: usize,
    /// The agent that runs next.
    pub next: usize,
    /// The input of that agent.
    pub input: Vec<Message>,
    /// What the agent before it has answered.
    pub last: Option<AgentResponse>,
}

/// What the state of a sequential run holds.
#[verifier::ext_equal]
pub struct SequentialView {
    pub agents: nat,
    pub next: nat,
    pub input: Seq<MessageView>,
    pub last: Option<AgentResponseView>,
}

impl View for SequentialOrchestration {
    type V = SequentialView;

    open spec fn view(&self) -> SequentialView {
        SequentialView {
            agents: self.agents as nat,
            next: self.next as nat,
            input: self.input.deep_view(),
            last: self.last.deep_view(),
        }
    }
}

/// The state before the first agent runs.
pub open spec fn sequence_start(agents: nat, input: Seq<MessageView>) -> SequentialView {
    SequentialView { agents, next: 0, input, last: None }
}

/// The state after an agent has answered.
pub open spec fn sequence_step(state: SequentialView, response: AgentResponseView) -> SequentialView {
    SequentialView {
        next: state.next + 1,
        input: as_input(response.text),
        last: Some(response),
        ..state
    }
}

/// The state after several agents have answered.
pub open spec fn sequence_steps(state: SequentialView, responses: Seq<AgentResponseView>) -> SequentialView
    decreases responses.len(),
{
    if responses.len() == 0 {
        state
    } else {
        sequence_step(sequence_steps(state, responses.drop_last()), responses.last())
    }
}

impl SequentialOrchestration {
    /// A run of as many agents.
    pub fn start(agents: usize, input: Vec<Message>) -> (run: Self)
        ensures
            run@ == sequence_start(agents as nat, input.deep_view()),
    {
        SequentialOrchestration { agents, next: 0, input, last: None }
    }

    /// The agent that runs next, and its input; `None` when all have run.
    pub fn next_agent(&self) -> (step: Option<(usize, Vec<Message>)>)
        ensures
            match step {
                Some(s) => s.0 == self.next && self.next < self.agents && s.1.deep_view() == self@.input,
                None => self.next >= self.agents,
            },
    {
        if self.next < self.agents {
            Some((self.next, clone_messages(&self.input)))
        } else {
            None
        }
    }

    /// Take in what the agent has answered.
    pub fn on_response(&mut self, response: AgentResponse)
        requires
            old(self).next < old(self).agents,
        ensures
            final(self)@ == sequence_step(old(self)@, response@),
            final(self)@.input.len() == 1,
            final(self)@.input[0].role == Role::User,
            text_of(final(self)@.input[0].content) == response@.text,
            final(self)@.last == Some(response@),
            final(self)@.next == old(self)@.next + 1,
            final(self)@.agents == old(self)@.agents,
    {
        proof {
            law_text_message_says_its_text(Role::User, response@.text);
        }
        self.next += 1;
        self.input = input_of(response.text.as_str());
        self.last = Some(response);
    }

    /// What the run has come to: the last answer.
    pub fn finish(self) -> (result: AgentResult<AgentResponse>)
        ensures
            match self.last {
                Some(response) => result == Ok::<AgentResponse, AgentError>(response),
                None => result is Err && result->Err_0@ == ErrorView::InvalidRequest(
                    "sequential orchestration has no agents"@,
                ),
            },
    {
        match self.last {
            Some(response) => Ok(response),
            None => Err(AgentError::invalid_request("sequential orchestration has no agents")),
        }
    }
}

/// Every agent but the first gets the text of the one before it, and the last answer
/// is what comes out.
pub proof fn law_sequence_pipes(agents: nat, input: Seq<MessageView>, responses: Seq<AgentResponseView>)
    ensures
        sequence_steps(sequence_start(agents, input), responses).next == responses.len(),
        sequence_steps(sequence_start(agents, input), responses).input == if responses.len() == 0 {
            input
        } else {
            as_input(responses.last().text)
        },
        sequence_steps(sequence_start(agents, input), responses).last == if responses.len() == 0 {
            None
        } else {
            Some(responses.last())
        },
        sequence_steps(sequence_start(agents, input), responses).agents == agents,
    decreases responses.len(),
{
    if responses.len() > 0 {
        law_sequence_pipes(agents, input, responses.drop_last());
    }
}

// ---------------------------------------------------------------------------
// Side by side
// ---------------------------------------------------------------------------

/// The answers of agents that run side by side: all of them, in the order of the
/// agents, or the first failure in that order.
pub fn collect_concurrent(outcomes: Vec<AgentResult<AgentResponse>>) -> (result: AgentResult<Vec<AgentResponse>>)
    ensures
        match result {
            Ok(responses) => responses@.len() == outcomes@.len() && forall|i: int|
                0 <= i < outcomes@.len() ==> #[trigger] outcomes@[i] == Ok::<AgentResponse, AgentError>(responses@[i]),
            Err(error) => exists|k: int|
                0 <= k < outcomes@.len() && #[trigger] outcomes@[k] == Err::<AgentResponse, AgentError>(error)
                    && forall|i: int| 0 <= i < k ==> (#[trigger] outcomes@[i]) is Ok,
        },
{
    let ghost all = outcomes@;
    let mut rest = outcomes;
    let mut responses: Vec<AgentResponse> = Vec::new();
    assert(rest@ =~= all.skip(0));
    while rest.len() > 0
        invariant
            all == outcomes@,
            responses@.len() + rest@.len() == all.len(),
            rest@ == all.skip(responses@.len() as int),
            forall|i: int|
                0 <= i < responses@.len() ==> #[trigger] all[i] == Ok::<AgentResponse, AgentError>(responses@[i]),
        decreases rest@.len(),
    {
        let ghost done = responses@;
        let outcome = rest.remove(0);
        assert(outcome == all[done.len() as int]);
        match outcome {
            Ok(response) => {
                responses.push(response);
                assert(rest@ =~= all.skip(responses@.len() as int));
                assert forall|i: int| 0 <= i < responses@.len() implies #[trigger] all[i] == Ok::<
                    AgentResponse,
                    AgentError,
                >(responses@[i]) by {
                    if i < done.len() {
                        assert(responses@[i] == done[i]);
                    }
                }
            },
            Err(error) => {
                return Err(error);
            },
        }
    }
    Ok(responses)
}

// ---------------------------------------------------------------------------
// Group chat
// ---------------------------------------------------------------------------

/// How many rounds a group chat has at most.
pub const MAX_CHAT_ROUNDS: usize = 100;

/// Lets the participants speak in turn.
#[derive(Debug)]
pub struct RoundRobinSelector;

impl RoundRobinSelector {
    /// The participant who speaks in a round.
    pub fn select_next(&self, participants: usize, current_round: usize) -> (speaker: usize)
        requires
            participants > 0,
        ensures
            speaker == current_round % participants,
            speaker < participants,
    {
        current_round % participants
    }
}

/// Whether a chat with a limit ends after a round, counted from zero.
pub open spec fn is_last_round(round: nat, max_rounds: nat) -> bool {
    round + 1 >= max_rounds
}

/// Ends a chat after a fixed number of rounds.
#[derive(Debug)]
pub struct MaxRoundsTermination {
    pub max_rounds: usize,
}

impl MaxRoundsTermination {
    /// End after the given number of rounds.
    pub fn new(max_rounds: usize) -> (termination: Self)
        ensures
            termination.max_rounds == max_rounds,
    {
        MaxRoundsTermination { max_rounds }
    }

    /// Whether the chat ends after a round, counted from zero.
    pub fn should_terminate(&self, round: usize) -> (stop: bool)
        ensures
            stop == is_last_round(round as nat, self.max_rounds as nat),
    {
        self.max_rounds == 0 || round >= self.max_rounds - 1
    }
}

/// Ends a chat when a response has a keyword in it.
#[derive(Debug)]
pub struct KeywordTermination {
    pub keyword: String,
}

impl KeywordTermination {
    /// End at a keyword.
    pub fn new(keyword: &str) -> (termination: Self)
        ensures
            termination.keyword@ == keyword@,
    {
        KeywordTermination { keyword: keyword.to_owned() }
    }

    /// Whether the chat ends after a response.
    pub fn should_terminate(&self, last_response: &AgentResponse) -> (stop: bool)
        ensures
            stop == contains_text(last_response@.text, self.keyword@),
    {
        contains(last_response.text.as_str(), self.keyword.as_str())
    }
}

/// A conversation in which agents take turns.
#[derive(Debug)]
pub struct GroupChatOrchestration {
    /// The names of the participants.
    pub names: Vec<String>,
    /// What was said, with the message that opened the chat first.
    pub history: Vec<Message>,
    /// What the agents have answered.
    pub responses: Vec<AgentResponse>,
    /// The round that comes next.
    pub round: usize,
    /// Whether the chat was ended.
    pub ended: bool,
}

/// What the state of a group chat holds.
#[verifier::ext_equal]
pub struct GroupChatView {
    pub names: Seq<Seq<char>>,
    pub history: Seq<MessageView>,
    pub responses: Seq<AgentResponseView>,
    pub round: nat,
    pub ended: bool,
}

impl View for GroupChatOrchestration {
    type V = GroupChatView;

    open spec fn view(&self) -> GroupChatView {
        GroupChatView {
            names: self.names.deep_view(),
            history: self.history.deep_view(),
            responses: self.responses.deep_view(),
            round: self.round as nat,
            ended: self.ended,
        }
    }
}

/// The message that tells a participant who it is.
pub open spec fn speaker_prompt(name: Seq<char>) -> MessageView {
    text_message(
        Role::System,
        "You are '"@ + name + "'. Respond as this participant in the group conversation."@,
    )
}

/// The message that a participant's answer becomes.
pub open spec fn said(name: Seq<char>, text: Seq<char>) -> MessageView {
    MessageView { name: Some(name), ..text_message(Role::Assistant, text) }
}

/// The state before the first round.
pub open spec fn chat_start(names: Seq<Seq<char>>, opening: MessageView) -> GroupChatView {
    GroupChatView { names, history: seq![opening], responses: Seq::empty(), round: 0, ended: false }
}

/// Whether there is another round.
pub open spec fn chat_goes_on(state: GroupChatView) -> bool {
    !state.ended && state.round < MAX_CHAT_ROUNDS
}

/// The state after a round.
pub open spec fn chat_step(
    state: GroupChatView,
    speaker: int,
    response: AgentResponseView,
    stop: bool,
) -> GroupChatView {
    GroupChatView {
        history: state.history.push(said(state.names[speaker], response.text)),
        responses: state.responses.push(response),
        round: state.round + 1,
        ended: stop,
        ..state
    }
}

/// The state after several rounds, each given by its speaker, its answer and whether
/// it ends the chat.
pub open spec fn chat_steps(state: GroupChatView, rounds: Seq<(int, AgentResponseView, bool)>) -> GroupChatView
    decreases rounds.len(),
{
    if rounds.len() == 0 {
        state
    } else {
        let last = rounds.last();
        chat_step(chat_steps(state, rounds.drop_last()), last.0, last.1, last.2)
    }
}

impl GroupChatOrchestration {
    /// Open a chat. It needs participants.
    pub fn start(names: Vec<String>, opening: Message) -> (result: AgentResult<Self>)
        ensures
            match result {
                Ok(chat) => names@.len() > 0 && chat@ == chat_start(names.deep_view(), opening@),
                Err(error) => names@.len() == 0 && error@ == ErrorView::InvalidRequest(
                    "group chat has no participants"@,
                ),
            },
    {
        if names.len() == 0 {
            return Err(AgentError::invalid_request("group chat has no participants"));
        }
        let ghost view = opening@;
        let mut history: Vec<Message> = Vec::new();
        history.push(opening);
        assert(history.deep_view() =~= seq![view]);
        let chat = GroupChatOrchestration { names, history, responses: Vec::new(), round: 0, ended: false };
        assert(chat@ =~= chat_start(names.deep_view(), view));
        Ok(chat)
    }

    /// The round that comes next, `None` when the chat is over.
    pub fn next_round(&self) -> (round: Option<usize>)
        ensures
            round == if chat_goes_on(self@) {
                Some(self.round)
            } else {
                None
            },
    {
        if !self.ended && self.round < MAX_CHAT_ROUNDS {
            Some(self.round)
        } else {
            None
        }
    }

    /// The input of a speaker: who it is, and what was said.
    pub fn input_for(&self, speaker: usize) -> (messages: Vec<Message>)
        requires
            speaker < self.names@.len(),
        ensures
            messages.deep_view() == seq![speaker_prompt(self@.names[speaker as int])] + self@.history,
            messages.deep_view().skip(1) == self@.history,
            messages.deep_view()[0].role == Role::System,
            text_of(messages.deep_view()[0].content) == "You are '"@ + self@.names[speaker as int]
                + "'. Respond as this participant in the group conversation."@,
    {
        let mut messages: Vec<Message> = Vec::new();
        let prompt = cat3(
            "You are '",
            self.names[speaker].as_str(),
            "'. Respond as this participant in the group conversation.",
        );
        messages.push(Message::system(prompt.as_str()));
        assert(self@.names[speaker as int] == self.names@[speaker as int]@);
        assert(messages.deep_view() =~= seq![speaker_prompt(self@.names[speaker as int])]);
        extend_messages(&mut messages, &self.history);
        proof {
            law_text_message_says_its_text(Role::System, prompt@);
        }
        assert(messages.deep_view().skip(1) =~= self@.history);
        messages
    }

    /// Take in what a speaker has answered. What was said includes it at once, so
    /// that the decision whether the chat ends can see it.
    pub fn on_response(&mut self, speaker: usize, response: AgentResponse)
        requires
            speaker < old(self).names@.len(),
            chat_goes_on(old(self)@),
        ensures
            final(self)@ == (GroupChatView {
                round: old(self)@.round,
                ..chat_step(old(self)@, speaker as int, response@, false)
            }),
            final(self)@.history.drop_last() == old(self)@.history,
            text_of(final(self)@.history.last().content) == response@.text,
            final(self)@.history.last().role == Role::Assistant,
            final(self)@.history.last().name == Some(old(self)@.names[speaker as int]),
            final(self)@.responses == old(self)@.responses.push(response@),
            final(self)@.names == old(self)@.names,
            final(self)@.round == old(self)@.round,
            !final(self)@.ended,
    {
        let ghost before = self@;
        let name = self.names[speaker].clone();
        assert(before.names[speaker as int] == name@);
        let mut message = Message::assistant(response.text.as_str());
        message.name = Some(name);
        let ghost pushed = message@;
        proof {
            law_text_message_says_its_text(Role::Assistant, response@.text);
        }
        self.history.push(message);
        assert(self.history.deep_view().drop_last() =~= before.history);
        assert(self.history.deep_view() =~= before.history.push(pushed));
        let ghost answered = response@;
        self.responses.push(response);
        assert(self.responses.deep_view() =~= before.responses.push(answered));
    }

    /// Close the round, with the decision whether the chat ends.
    pub fn close_round(&mut self, stop: bool)
        requires
            chat_goes_on(old(self)@),
        ensures
            final(self)@ == (GroupChatView { round: old(self)@.round + 1, ended: stop, ..old(self)@ }),
    {
        self.round += 1;
        self.ended = stop;
    }
}

/// A chat ends: it has at most as many rounds as it may, every answer is heard by
/// all later speakers, and there is one answer for each round.
pub proof fn law_chat_is_bounded(
    names: Seq<Seq<char>>,
    opening: MessageView,
    rounds: Seq<(int, AgentResponseView, bool)>,
)
    requires
        forall|i: int|
            0 <= i < rounds.len() ==> chat_goes_on(#[trigger] chat_steps(chat_start(names, opening), rounds.take(i))),
    ensures
        rounds.len() <= MAX_CHAT_ROUNDS,
        chat_steps(chat_start(names, opening), rounds).responses == Seq::new(rounds.len(), |i: int| rounds[i].1),
        chat_steps(chat_start(names, opening), rounds).history == seq![opening] + Seq::new(
            rounds.len(),
            |i: int| said(names[rounds[i].0], rounds[i].1.text),
        ),
{
    lemma_chat_steps(names, opening, rounds);
    if rounds.len() > 0 {
        let n = rounds.len() - 1;
        lemma_chat_steps(names, opening, rounds.take(n));
        assert(chat_goes_on(chat_steps(chat_start(names, opening), rounds.take(n))));
    }
}

proof fn lemma_chat_steps(
    names: Seq<Seq<char>>,
    opening: MessageView,
    rounds: Seq<(int, AgentResponseView, bool)>,
)
    ensures
        chat_steps(chat_start(names, opening), rounds).round == rounds.len(),
        chat_steps(chat_start(names, opening), rounds).names == names,
        chat_steps(chat_start(names, opening), rounds).responses == Seq::new(rounds.len(), |i: int| rounds[i].1),
        chat_steps(chat_start(names, opening), rounds).history == seq![opening] + Seq::new(
            rounds.len(),
            |i: int| said(names[rounds[i].0], rounds[i].1.text),
        ),
    decreases rounds.len(),
{
    let state = chat_steps(chat_start(names, opening), rounds);
    if rounds.len() > 0 {
        lemma_chat_steps(names, opening, rounds.drop_last());
    }
    assert(state.responses =~= Seq::new(rounds.len(), |i: int| rounds[i].1));
    assert(state.history =~= seq![opening] + Seq::new(
        rounds.len(),
        |i: int| said(names[rounds[i].0], rounds[i].1.text),
    ));
}

/// A chat that ends after a fixed number of rounds has that many answers, but for the
/// limit on all chats and for the first round, which always takes place.
pub proof fn law_chat_has_its_rounds(
    names: Seq<Seq<char>>,
    opening: MessageView,
    max_rounds: nat,
    rounds: Seq<(int, AgentResponseView, bool)>,
)
    requires
        forall|i: int|
            0 <= i < rounds.len() ==> chat_goes_on(#[trigger] chat_steps(chat_start(names, opening), rounds.take(i))),
        forall|i: int| 0 <= i < rounds.len() ==> (#[trigger] rounds[i]).2 == is_last_round(i as nat, max_rounds),
    ensures
        1 <= max_rounds <= MAX_CHAT_ROUNDS ==> (!chat_goes_on(chat_steps(chat_start(names, opening), rounds))
            <==> chat_steps(chat_start(names, opening), rounds).responses.len() == max_rounds),
        max_rounds == 0 ==> (!chat_goes_on(chat_steps(chat_start(names, opening), rounds)) <==> chat_steps(
            chat_start(names, opening),
            rounds,
        ).responses.len() == 1),
        max_rounds > MAX_CHAT_ROUNDS ==> (!chat_goes_on(chat_steps(chat_start(names, opening), rounds))
            <==> chat_steps(chat_start(names, opening), rounds).responses.len() == MAX_CHAT_ROUNDS),
{
    let start = chat_start(names, opening);
    lemma_chat_steps(names, opening, rounds);
    if rounds.len() > 0 {
        let n = rounds.len() - 1;
        assert(rounds.take(n) =~= rounds.drop_last());
        lemma_chat_steps(names, opening, rounds.take(n));
        assert(chat_goes_on(chat_steps(start, rounds.take(n))));
        assert(rounds.last() == rounds[n]);
        if n > 0 {
            assert(rounds.take(n - 1) =~= rounds.take(n).drop_last());
            assert(rounds.take(n).last() == rounds[n - 1]);
        }
    }
}

/// In turn means that after as many rounds as there are participants the same one
/// speaks again, and that in the rounds between all others do.
pub proof fn law_round_robin(participants: nat, round: nat, speaker: nat)
    requires
        participants > 0,
        speaker < participants,
    ensures
        (round + participants) % participants == round % participants,
        exists|r: nat| round <= r < round + participants && #[trigger] (r % participants) == speaker,
{
    let at = round % participants;
    vstd::arithmetic::div_mod::lemma_mod_add_multiples_vanish(round as int, participants as int);
    let r: nat = if speaker >= at {
        (round + (speaker - at)) as nat
    } else {
        (round + (speaker + participants - at)) as nat
    };
    vstd::arithmetic::div_mod::lemma_fundamental_div_mod(round as int, participants as int);
    let q = round as int / participants as int;
    let k: int = if speaker >= at {
        q
    } else {
        q + 1
    };
    assert(r == participants * k + speaker) by (nonlinear_arith)
        requires
            round == participants * q + at,
            r == if speaker >= at {
                round + (speaker - at)
            } else {
                round + (speaker + participants - at)
            },
            k == if speaker >= at {
                q
            } else {
                q + 1
            },
    ;
    vstd::arithmetic::div_mod::lemma_fundamental_div_mod_converse(r as int, participants as int, k, speaker as int);
    assert(r % participants == speaker);
}

// ---------------------------------------------------------------------------
// Handing over
// ---------------------------------------------------------------------------

/// How often agents hand over before a run stops, unless it is set otherwise.
pub const DEFAULT_MAX_HANDOFFS: usize = 10;

/// A run in which an agent may hand over to another by calling a tool of its name.
#[derive(Debug)]
pub struct HandoffOrchestration {
    /// The names of the tools that hand over.
    pub targets: Vec<String>,
    /// How often agents hand over before the run stops. The last of these answers is
    /// what comes out, and the agent that it hands over to does not run; with none, no
    /// agent does.
    pub max_handoffs: usize,
    /// How often agents have handed over.
    pub handoffs: usize,
    /// The tool whose agent runs next, `None` for the first agent.
    pub current: Option<String>,
    /// The input of that agent.
    pub input: Vec<Message>,
    /// What the agent before it has answered.
    pub last: Option<AgentResponse>,
    /// Whether that answer is final.
    pub done: bool,
}

/// What the state of such a run holds.
#[verifier::ext_equal]
pub struct HandoffView {
    pub targets: Seq<Seq<char>>,
    pub max_handoffs: nat,
    pub handoffs: nat,
    pub current: Option<Seq<char>>,
    pub input: Seq<MessageView>,
    pub last: Option<AgentResponseView>,
    pub done: bool,
}

impl View for HandoffOrchestration {
    type V = HandoffView;

    open spec fn view(&self) -> HandoffView {
        HandoffView {
            targets: self.targets.deep_view(),
            max_handoffs: self.max_handoffs as nat,
            handoffs: self.handoffs as nat,
            current: self.current.deep_view(),
            input: self.input.deep_view(),
            last: self.last.deep_view(),
            done: self.done,
        }
    }
}

/// The first tool among calls that hands over.
pub open spec fn handoff_call(
    calls: Seq<(Seq<char>, Seq<char>, JsonView)>,
    targets: Seq<Seq<char>>,
) -> Option<Seq<char>>
    decreases calls.len(),
{
    if calls.len() == 0 {
        None
    } else {
        match handoff_call(calls.drop_last(), targets) {
            Some(name) => Some(name),
            None => if targets.contains(calls.last().1) {
                Some(calls.last().1)
            } else {
                None
            },
        }
    }
}

/// The state before the first agent runs.
pub open spec fn handoff_start(targets: Seq<Seq<char>>, max_handoffs: nat, input: Seq<MessageView>) -> HandoffView {
    HandoffView { targets, max_handoffs, handoffs: 0, current: None, input, last: None, done: false }
}

/// Whether another agent runs.
pub open spec fn handoff_goes_on(state: HandoffView) -> bool {
    !state.done && state.handoffs < state.max_handoffs
}

/// The state after an agent has answered: it hands over with its text as the input,
/// or its answer is final.
pub open spec fn handoff_step(state: HandoffView, response: AgentResponseView) -> HandoffView {
    match handoff_call(calls_in(response.messages), state.targets) {
        Some(name) => HandoffView {
            handoffs: state.handoffs + 1,
            current: Some(name),
            input: as_input(response.text),
            last: Some(response),
            ..state
        },
        None => HandoffView { last: Some(response), done: true, ..state },
    }
}

/// The state after several agents have answered.
pub open spec fn handoff_steps(state: HandoffView, responses: Seq<AgentResponseView>) -> HandoffView
    decreases responses.len(),
{
    if responses.len() == 0 {
        state
    } else {
        handoff_step(handoff_steps(state, responses.drop_last()), responses.last())
    }
}

/// Whether a name is among targets.
fn is_target(targets: &Vec<String>, name: &str) -> (found: bool)
    ensures
        found == targets.deep_view().contains(name@),
{
    let ghost all = targets.deep_view();
    let mut i: usize = 0;
    while i < targets.len()
        invariant
            i <= targets@.len(),
            all == targets.deep_view(),
            forall|j: int| 0 <= j < i ==> #[trigger] all[j] != name@,
        decreases targets@.len() - i,
    {
        assert(all[i as int] == targets@[i as int]@);
        if str_eq(targets[i].as_str(), name) {
            assert(all[i as int] == name@);
            return true;
        }
        i += 1;
    }
    false
}

proof fn lemma_handoff_append(
    a: Seq<(Seq<char>, Seq<char>, JsonView)>,
    b: Seq<(Seq<char>, Seq<char>, JsonView)>,
    targets: Seq<Seq<char>>,
)
    ensures
        handoff_call(a + b, targets) == match handoff_call(a, targets) {
            Some(name) => Some(name),
            None => handoff_call(b, targets),
        },
    decreases b.len(),
{
    if b.len() == 0 {
        assert(a + b =~= a);
    } else {
        lemma_handoff_append(a, b.drop_last(), targets);
        assert((a + b).drop_last() =~= a + b.drop_last());
        assert((a + b).last() == b.last());
    }
}

/// The first tool called in messages that hands over.
fn handoff_among(messages: &Vec<Message>, targets: &Vec<String>) -> (found: Option<String>)
    ensures
        found.deep_view() == handoff_call(calls_in(messages.deep_view()), targets.deep_view()),
{
    let calls = collect_calls(messages);
    let ghost all = calls.deep_view();
    let mut i: usize = 0;
    while i < calls.len()
        invariant
            i <= calls@.len(),
            all == calls.deep_view(),
            all == calls_in(messages.deep_view()),
            handoff_call(all.take(i as int), targets.deep_view()) is None,
        decreases calls@.len() - i,
    {
        assert(all.take(i + 1).drop_last() =~= all.take(i as int));
        assert(all[i as int].1 == calls@[i as int].name@);
        if is_target(targets, calls[i].name.as_str()) {
            proof {
                lemma_handoff_append(all.take(i + 1), all.skip(i + 1), targets.deep_view());
                assert(all.take(i + 1) + all.skip(i + 1) =~= all);
            }
            return Some(calls[i].name.clone());
        }
        i += 1;
    }
    assert(all.take(i as int) =~= all);
    None
}

impl HandoffOrchestration {
    /// A run with the given targets that stops once agents have handed over so often.
    pub fn start(targets: Vec<String>, max_handoffs: usize, input: Vec<Message>) -> (run: Self)
        ensures
            run@ == handoff_start(targets.deep_view(), max_handoffs as nat, input.deep_view()),
    {
        HandoffOrchestration { targets, max_handoffs, handoffs: 0, current: None, input, last: None, done: false }
    }

    /// The agent that runs next, given by its tool or `None` for the first agent,
    /// and its input; `None` when the run is over.
    pub fn next_agent(&self) -> (step: Option<(Option<String>, Vec<Message>)>)
        ensures
            match step {
                Some(s) => handoff_goes_on(self@) && s.0.deep_view() == self@.current && s.1.deep_view() == self@.input,
                None => !handoff_goes_on(self@),
            },
    {
        if !self.done && self.handoffs < self.max_handoffs {
            Some(
                (
                    match &self.current {
                        Some(name) => Some(name.clone()),
                        None => None,
                    },
                    clone_messages(&self.input),
                ),
            )
        } else {
            None
        }
    }

    /// Take in what the agent has answered.
    pub fn on_response(&mut self, response: AgentResponse)
        requires
            handoff_goes_on(old(self)@),
        ensures
            final(self)@ == handoff_step(old(self)@, response@),
            final(self)@.last == Some(response@),
            final(self)@.done == (handoff_call(calls_in(response@.messages), old(self)@.targets) is None),
            !final(self)@.done ==> {
                &&& final(self)@.current == handoff_call(calls_in(response@.messages), old(self)@.targets)
                &&& final(self)@.input.len() == 1
                &&& final(self)@.input[0].role == Role::User
                &&& text_of(final(self)@.input[0].content) == response@.text
                &&& final(self)@.handoffs == old(self)@.handoffs + 1
            },
            final(self)@.targets == old(self)@.targets,
            final(self)@.max_handoffs == old(self)@.max_handoffs,
    {
        proof {
            law_text_message_says_its_text(Role::User, response@.text);
        }
        match handoff_among(&response.messages, &self.targets) {
            Some(name) => {
                self.handoffs += 1;
                self.current = Some(name);
                self.input = input_of(response.text.as_str());
            },
            None => {
                self.done = true;
            },
        }
        self.last = Some(response);
    }

    /// What the run has come to: the last answer, also where it hands over and the run
    /// stops at it. Without an answer that is an error.
    pub fn finish(self) -> (result: AgentResult<AgentResponse>)
        ensures
            match self.last {
                Some(response) => result == Ok::<AgentResponse, AgentError>(response),
                None => result is Err && result->Err_0@ == ErrorView::InvalidResponse("no responses generated"@),
            },
    {
        match self.last {
            Some(response) => Ok(response),
            None => Err(AgentError::InvalidResponse("no responses generated".to_owned())),
        }
    }
}

/// Handing over ends: not more agents run than agents may hand over, the run goes on
/// exactly as long as each answer hands over and less have than may, and what comes out
/// is the last answer.
pub proof fn law_handoffs_are_bounded(
    targets: Seq<Seq<char>>,
    max_handoffs: nat,
    input: Seq<MessageView>,
    responses: Seq<AgentResponseView>,
)
    requires
        forall|i: int|
            0 <= i < responses.len() ==> handoff_goes_on(
                #[trigger] handoff_steps(handoff_start(targets, max_handoffs, input), responses.take(i)),
            ),
    ensures
        ({
            let state = handoff_steps(handoff_start(targets, max_handoffs, input), responses);
            &&& state.targets == targets
            &&& state.max_handoffs == max_handoffs
            &&& responses.len() <= max_handoffs
            &&& state.handoffs == if state.done {
                (responses.len() - 1) as nat
            } else {
                responses.len()
            }
            &&& state.last == if responses.len() == 0 {
                None
            } else {
                Some(responses.last())
            }
            &&& handoff_goes_on(state) <==> responses.len() < max_handoffs && (responses.len() == 0 || handoff_call(
                calls_in(responses.last().messages),
                targets,
            ) is Some)
        }),
    decreases responses.len(),
{
    let start = handoff_start(targets, max_handoffs, input);
    if responses.len() > 0 {
        let n = responses.len() - 1;
        let before = responses.drop_last();
        assert(responses.take(n) =~= before);
        assert(handoff_goes_on(handoff_steps(start, responses.take(n))));
        assert forall|i: int| 0 <= i < before.len() implies handoff_goes_on(
            #[trigger] handoff_steps(start, before.take(i)),
        ) by {
            assert(before.take(i) =~= responses.take(i));
            assert(handoff_goes_on(handoff_steps(start, responses.take(i))));
        }
        law_handoffs_are_bounded(targets, max_handoffs, input, before);
    }
}

// ---------------------------------------------------------------------------
// What orchestration is for
// ---------------------------------------------------------------------------

/// An agent's text becomes the input of the next as it is: one message of a user that
/// says that text.
pub proof fn law_text_becomes_input(text: Seq<char>)
    ensures
        as_input(text).len() == 1,
        as_input(text)[0].role == Role::User,
        text_of(as_input(text)[0].content) == text,
        as_input(text)[0].name is None,
{
    law_text_message_says_its_text(Role::User, text);
}

/// In a sequence the first agent gets the input of the run, and every later one a
/// user's message that says what the agent before it has answered.
pub proof fn law_sequence_hears_the_one_before(
    agents: nat,
    input: Seq<MessageView>,
    responses: Seq<AgentResponseView>,
)
    ensures
        sequence_start(agents, input).input == input,
        sequence_start(agents, input).next == 0,
        sequence_start(agents, input).agents == agents,
        sequence_start(agents, input).last is None,
        responses.len() > 0 ==> ({
            let heard = sequence_steps(sequence_start(agents, input), responses).input;
            &&& heard.len() == 1
            &&& heard[0].role == Role::User
            &&& text_of(heard[0].content) == responses.last().text
        }),
{
    law_sequence_pipes(agents, input, responses);
    if responses.len() > 0 {
        law_text_becomes_input(responses.last().text);
    }
}

/// Everyone in a chat hears everything: after any rounds the history is the opening and
/// then, for each round, what was answered in it, said by the assistant under the name
/// of the participant who spoke.
pub proof fn law_chat_hears_every_answer(
    names: Seq<Seq<char>>,
    opening: MessageView,
    rounds: Seq<(int, AgentResponseView, bool)>,
)
    ensures
        ({
            let state = chat_steps(chat_start(names, opening), rounds);
            &&& state.history.len() == rounds.len() + 1
            &&& state.history[0] == opening
            &&& forall|i: int|
                #![trigger rounds[i]]
                0 <= i < rounds.len() ==> {
                    &&& text_of(state.history[i + 1].content) == rounds[i].1.text
                    &&& state.history[i + 1].role == Role::Assistant
                    &&& state.history[i + 1].name == Some(names[rounds[i].0])
                    &&& state.responses[i] == rounds[i].1
                }
            &&& state.responses.len() == rounds.len()
            &&& state.names == names
            &&& state.round == rounds.len()
            &&& state.ended == (rounds.len() > 0 && rounds.last().2)
        }),
{
    lemma_chat_steps(names, opening, rounds);
    let state = chat_steps(chat_start(names, opening), rounds);
    assert forall|i: int| #![trigger rounds[i]] 0 <= i < rounds.len() implies {
        &&& text_of(state.history[i + 1].content) == rounds[i].1.text
        &&& state.history[i + 1].role == Role::Assistant
        &&& state.history[i + 1].name == Some(names[rounds[i].0])
        &&& state.responses[i] == rounds[i].1
    } by {
        law_text_message_says_its_text(Role::Assistant, rounds[i].1.text);
        assert(state.history[i + 1] == said(names[rounds[i].0], rounds[i].1.text));
    }
    if rounds.len() > 0 {
        assert(state.ended == rounds.last().2);
    }
}

/// A participant is told by the system who it is.
pub proof fn law_speaker_is_told_its_name(name: Seq<char>)
    ensures
        speaker_prompt(name).role == Role::System,
        text_of(speaker_prompt(name).content) == "You are '"@ + name
            + "'. Respond as this participant in the group conversation."@,
        speaker_prompt(name).name is None,
{
    law_text_message_says_its_text(
        Role::System,
        "You are '"@ + name + "'. Respond as this participant in the group conversation."@,
    );
}

/// A chat goes on until it was ended or has had all its rounds, and with a limit it is
/// the round before the limit that is the last.
pub proof fn law_chat_goes_on(state: GroupChatView, round: nat, max_rounds: nat)
    ensures
        chat_goes_on(state) <==> !state.ended && state.round < 100,
        is_last_round(round, max_rounds) <==> round + 1 >= max_rounds,
        MAX_CHAT_ROUNDS == 100,
        DEFAULT_MAX_HANDOFFS == 10,
{
}

/// Of the tools that an answer calls, the first that hands over decides: there is one
/// exactly if some call has a target's name, and none before it has.
pub proof fn law_first_handoff_decides(calls: Seq<(Seq<char>, Seq<char>, JsonView)>, targets: Seq<Seq<char>>)
    ensures
        match handoff_call(calls, targets) {
            Some(name) => exists|k: int|
                {
                    &&& 0 <= k < calls.len()
                    &&& (#[trigger] calls[k]).1 == name
                    &&& targets.contains(name)
                    &&& forall|i: int| 0 <= i < k ==> !targets.contains((#[trigger] calls[i]).1)
                },
            None => forall|i: int| 0 <= i < calls.len() ==> !targets.contains((#[trigger] calls[i]).1),
        },
    decreases calls.len(),
{
    if calls.len() > 0 {
        let rest = calls.drop_last();
        law_first_handoff_decides(rest, targets);
        assert forall|i: int| 0 <= i < rest.len() implies (#[trigger] calls[i]) == rest[i] by {}
        match handoff_call(rest, targets) {
            Some(name) => {
                let k = choose|k: int|
                    {
                        &&& 0 <= k < rest.len()
                        &&& (#[trigger] rest[k]).1 == name
                        &&& targets.contains(name)
                        &&& forall|i: int| 0 <= i < k ==> !targets.contains((#[trigger] rest[i]).1)
                    };
                assert(calls[k].1 == name);
                assert forall|i: int| 0 <= i < k implies !targets.contains((#[trigger] calls[i]).1) by {
                    assert(!targets.contains(rest[i].1));
                }
            },
            None => {
                assert forall|i: int| 0 <= i < rest.len() implies !targets.contains((#[trigger] calls[i]).1) by {
                    assert(!targets.contains(rest[i].1));
                }
                assert(calls[calls.len() - 1] == calls.last());
            },
        }
    }
}

/// Handing over passes on what the agent has said, to the agent of the tool that it
/// called; an answer that hands over to nobody is final. The first agent gets the input
/// of the run.
pub proof fn law_handoff_passes_the_text_on(
    targets: Seq<Seq<char>>,
    max_handoffs: nat,
    input: Seq<MessageView>,
    state: HandoffView,
    response: AgentResponseView,
)
    ensures
        handoff_start(targets, max_handoffs, input).current is None,
        handoff_start(targets, max_handoffs, input).input == input,
        handoff_start(targets, max_handoffs, input).handoffs == 0,
        handoff_start(targets, max_handoffs, input).last is None,
        !handoff_start(targets, max_handoffs, input).done,
        handoff_step(state, response).last == Some(response),
        match handoff_call(calls_in(response.messages), state.targets) {
            Some(name) => {
                let next = handoff_step(state, response);
                &&& next.current == Some(name)
                &&& next.input.len() == 1
                &&& next.input[0].role == Role::User
                &&& text_of(next.input[0].content) == response.text
                &&& next.handoffs == state.handoffs + 1
                &&& next.done == state.done
            },
            None => handoff_step(state, response).done && handoff_step(state, response).handoffs == state.handoffs,
        },
        handoff_goes_on(state) <==> !state.done && state.handoffs < state.max_handoffs,
{
    law_text_becomes_input(response.text);
}

/// The models of the orchestrations have all that these hold.
pub proof fn law_orchestration_models_are_complete(
    sequence: SequentialOrchestration,
    chat: GroupChatOrchestration,
    handoff: HandoffOrchestration,
)
    ensures
        sequence@.agents == sequence.agents,
        sequence@.next == sequence.next,
        sequence@.input == sequence.input.deep_view(),
        sequence@.last == sequence.last.deep_view(),
        chat@.names == chat.names.deep_view(),
        chat@.history == chat.history.deep_view(),
        chat@.responses == chat.responses.deep_view(),
        chat@.round == chat.round,
        chat@.ended == chat.ended,
        handoff@.targets == handoff.targets.deep_view(),
        handoff@.max_handoffs == handoff.max_handoffs,
        handoff@.handoffs == handoff.handoffs,
        handoff@.current == handoff.current.deep_view(),
        handoff@.input == handoff.input.deep_view(),
        handoff@.last == handoff.last.deep_view(),
        handoff@.done == handoff.done,
{
}

} // verus!
