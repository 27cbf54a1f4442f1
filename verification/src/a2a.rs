//! Agents that talk to each other over the A2A protocol: serving one, and using a
//! remote one as if it were local.

use vstd::prelude::*;

use crate::error::{error_text, AgentError};
use crate::ids::{fresh_id, is_uuid};
use crate::text::{cat2, join, joined, law_joined_parts, trim_end, trim_end_of};
use crate::types::{
    bare_message, collect_spoken, law_text_message_says_its_text, spoken_texts, text_message, text_of, AgentResponse,
    AgentResponseUpdate, AgentResponseView,
    ChatResponseUpdate, Content, ContentView, FinishReason, Message, MessageView, Role, UpdateView,
};

verus! {

/// Configuration for an [`A2ARemoteAgent`].
#[derive(Debug)]
pub struct A2AClientConfig {
    /// Base URL of the remote server.
    pub server_url: String,
    /// Session token forwarded with each request.
    pub session_token: Option<String>,
}

impl A2AClientConfig {
    /// A config without a token.
    pub fn new(server_url: &str) -> (config: Self)
        ensures
            config.server_url@ == server_url@,
            config.session_token is None,
    {
        A2AClientConfig { server_url: server_url.to_owned(), session_token: None }
    }

    /// Set the session token.
    pub fn with_session_token(self, token: &str) -> (config: Self)
        ensures
            config.server_url == self.server_url,
            config.session_token.deep_view() == Some(token@),
    {
        A2AClientConfig { session_token: Some(token.to_owned()), ..self }
    }
}

// ---------------------------------------------------------------------------
// Wire types
// ---------------------------------------------------------------------------

/// Who has written a message.
#[derive(Debug, Clone, Copy, PartialEq, Eq, Structural)]
pub enum A2aRole {
    Unspecified,
    User,
    Agent,
}

/// A part of a message. Parts other than texts are passed over.
#[derive(Debug)]
pub enum A2aPart {
    Text { text: String },
    Other,
}

/// What a part of a message holds.
#[verifier::ext_equal]
pub enum A2aPartView {
    Text { text: Seq<char> },
    Other,
}

impl View for A2aPart {
    type V = A2aPartView;

    open spec fn view(&self) -> A2aPartView {
        match self {
            A2aPart::Text { text } => A2aPartView::Text { text: text@ },
            A2aPart::Other => A2aPartView::Other,
        }
    }
}

impl DeepView for A2aPart {
    type V = A2aPartView;

    open spec fn deep_view(&self) -> A2aPartView {
        self@
    }
}

/// A message.
#[derive(Debug)]
pub struct A2aMessage {
    pub role: A2aRole,
    pub parts: Vec<A2aPart>,
}

/// What a message holds.
#[verifier::ext_equal]
pub struct A2aMessageView {
    pub role: A2aRole,
    pub parts: Seq<A2aPartView>,
}

impl View for A2aMessage {
    type V = A2aMessageView;

    open spec fn view(&self) -> A2aMessageView {
        A2aMessageView { role: self.role, parts: self.parts.deep_view() }
    }
}

impl DeepView for A2aMessage {
    type V = A2aMessageView;

    open spec fn deep_view(&self) -> A2aMessageView {
        self@
    }
}

/// Something that a task has made.
#[derive(Debug)]
pub struct A2aArtifact {
    pub parts: Vec<A2aPart>,
}

impl View for A2aArtifact {
    type V = Seq<A2aPartView>;

    open spec fn view(&self) -> Seq<A2aPartView> {
        self.parts.deep_view()
    }
}

impl DeepView for A2aArtifact {
    type V = Seq<A2aPartView>;

    open spec fn deep_view(&self) -> Seq<A2aPartView> {
        self@
    }
}

/// A task: its messages and what it has made. What is missing counts as none.
#[derive(Debug)]
pub struct A2aTask {
    pub history: Vec<A2aMessage>,
    pub artifacts: Vec<A2aArtifact>,
}

/// What a remote agent answers.
#[derive(Debug)]
pub enum SendMessageResult {
    Message(A2aMessage),
    Task(A2aTask),
}

// ---------------------------------------------------------------------------
// Texts
// ---------------------------------------------------------------------------

/// The texts of the text parts, one by one.
pub open spec fn part_texts(parts: Seq<A2aPartView>) -> Seq<Seq<char>>
    decreases parts.len(),
{
    if parts.len() == 0 {
        Seq::empty()
    } else {
        match parts.last() {
            A2aPartView::Text { text } => part_texts(parts.drop_last()).push(text),
            A2aPartView::Other => part_texts(parts.drop_last()),
        }
    }
}

/// The text of parts, put together.
pub open spec fn text_of_parts(parts: Seq<A2aPartView>) -> Seq<char> {
    joined(part_texts(parts), ""@)
}

fn collect_part_texts(parts: &Vec<A2aPart>) -> (texts: Vec<String>)
    ensures
        texts.deep_view() == part_texts(parts.deep_view()),
{
    let mut texts: Vec<String> = Vec::new();
    let ghost all = parts.deep_view();
    let mut i: usize = 0;
    assert(texts.deep_view() =~= Seq::empty());
    while i < parts.len()
        invariant
            i <= parts@.len(),
            all == parts.deep_view(),
            texts.deep_view() == part_texts(all.take(i as int)),
        decreases parts@.len() - i,
    {
        assert(all.take(i + 1).drop_last() =~= all.take(i as int));
        if let A2aPart::Text { text } = &parts[i] {
            let ghost before = texts.deep_view();
            texts.push(text.clone());
            assert(texts.deep_view() =~= before.push(text@));
        }
        i += 1;
    }
    assert(all.take(i as int) =~= all);
    texts
}

/// The text of parts, put together.
pub fn collect_text(parts: &Vec<A2aPart>) -> (text: String)
    ensures
        text@ == text_of_parts(parts.deep_view()),
{
    join(&collect_part_texts(parts), "")
}

// ---------------------------------------------------------------------------
// Serving an agent
// ---------------------------------------------------------------------------

/// The version of the protocol: the constant `PROTOCOL_VERSION` of `a2a_rs_core`,
/// which is `1.0`.
#[verifier::external_body]
fn protocol_version() -> (version: String)
    ensures
        version@ == "1.0"@,
{
    a2a_rs_core::PROTOCOL_VERSION.to_string()
}

/// What an agent is advertised to be able to do.
#[derive(Debug)]
pub struct A2aSkill {
    pub id: String,
    pub name: String,
    pub description: String,
    pub tags: Vec<String>,
}

/// What is advertised of an agent. Neither streams, nor push notifications, nor an
/// extended card are offered.
#[derive(Debug)]
pub struct A2aCard {
    pub name: String,
    pub description: String,
    /// Where the agent is reached.
    pub url: String,
    /// How the agent is reached.
    pub protocol_binding: String,
    pub protocol_version: String,
    pub organization: String,
    pub organization_url: String,
    pub skill: A2aSkill,
}

/// An agent that is served over A2A.
#[derive(Debug)]
pub struct A2AAgentHandler {
    pub agent_id: String,
    pub agent_name: Option<String>,
    pub agent_description: Option<String>,
    pub organization: String,
    pub organization_url: String,
}

/// A text, or another one in its place.
pub open spec fn or_else(text: Option<Seq<char>>, default: Seq<char>) -> Seq<char> {
    match text {
        Some(t) => t,
        None => default,
    }
}

fn text_or(text: &Option<String>, default: &str) -> (out: String)
    ensures
        out@ == or_else(text.deep_view(), default@),
{
    match text {
        Some(t) => t.clone(),
        None => default.to_owned(),
    }
}

impl A2AAgentHandler {
    /// Serve an agent.
    pub fn new(id: &str, name: Option<String>, description: Option<String>) -> (handler: Self)
        ensures
            handler.agent_id@ == id@,
            handler.agent_name == name,
            handler.agent_description == description,
            handler.organization@ == "Microsoft Agent Framework"@,
            handler.organization_url@ == "https://github.com/microsoft/agent-framework"@,
    {
        A2AAgentHandler {
            agent_id: id.to_owned(),
            agent_name: name,
            agent_description: description,
            organization: "Microsoft Agent Framework".to_owned(),
            organization_url: "https://github.com/microsoft/agent-framework".to_owned(),
        }
    }

    /// Set the advertised organization.
    pub fn with_organization(self, org: &str) -> (handler: Self)
        ensures
            handler.organization@ == org@,
            handler == (A2AAgentHandler { organization: handler.organization, ..self }),
    {
        A2AAgentHandler { organization: org.to_owned(), ..self }
    }

    /// Set the URL of the advertised organization.
    pub fn with_organization_url(self, url: &str) -> (handler: Self)
        ensures
            handler.organization_url@ == url@,
            handler == (A2AAgentHandler { organization_url: handler.organization_url, ..self }),
    {
        A2AAgentHandler { organization_url: url.to_owned(), ..self }
    }

    /// The messages that the agent is run with: what was said, one part to a line.
    pub fn inbound(message: &A2aMessage) -> (messages: Vec<Message>)
        ensures
            messages.deep_view() == seq![text_message(Role::User, joined(part_texts(message@.parts), "\n"@))],
    {
        let text = join(&collect_part_texts(&message.parts), "\n");
        let mut messages: Vec<Message> = Vec::new();
        messages.push(Message::user(text.as_str()));
        assert(messages.deep_view() =~= seq![text_message(Role::User, text@)]);
        messages
    }

    /// What a failed run is answered.
    pub fn failure_text(error: &AgentError) -> (text: String)
        ensures
            text@ == "agent run failed: "@ + error_text(error@),
    {
        cat2("agent run failed: ", error.to_text().as_str())
    }

    /// What is advertised of the agent at a base URL.
    pub fn agent_card(&self, base_url: &str) -> (card: A2aCard)
        ensures
            card.name@ == or_else(self.agent_name.deep_view(), "Agent"@),
            card.description@ == or_else(self.agent_description.deep_view(), "Microsoft Agent Framework agent"@),
            card.url@ == trim_end(base_url@, '/') + "/v1/rpc"@,
            card.protocol_binding@ == "JSONRPC"@,
            card.protocol_version@ == "1.0"@,
            card.organization@ == self.organization@,
            card.organization_url@ == self.organization_url@,
            card.skill.id@ == self.agent_id@,
            card.skill.name@ == or_else(self.agent_name.deep_view(), "agent"@),
            card.skill.description@ == or_else(self.agent_description.deep_view(), ""@),
            card.skill.tags.deep_view() == seq!["chat"@],
    {
        let mut tags: Vec<String> = Vec::new();
        tags.push("chat".to_owned());
        assert(tags.deep_view() =~= seq!["chat"@]);
        A2aCard {
            name: text_or(&self.agent_name, "Agent"),
            description: text_or(&self.agent_description, "Microsoft Agent Framework agent"),
            url: cat2(trim_end_of(base_url, '/').as_str(), "/v1/rpc"),
            protocol_binding: "JSONRPC".to_owned(),
            protocol_version: protocol_version(),
            organization: self.organization.clone(),
            organization_url: self.organization_url.clone(),
            skill: A2aSkill {
                id: self.agent_id.clone(),
                name: text_or(&self.agent_name, "agent"),
                description: text_or(&self.agent_description, ""),
                tags,
            },
        }
    }
}

// ---------------------------------------------------------------------------
// Using a remote agent
// ---------------------------------------------------------------------------

/// The role that a role of the protocol stands for.
pub open spec fn role_of(role: A2aRole) -> Role {
    match role {
        A2aRole::User => Role::User,
        _ => Role::Assistant,
    }
}

/// The texts of what the agent has said, without those that are empty.
pub open spec fn agent_texts(history: Seq<A2aMessageView>) -> Seq<Seq<char>>
    decreases history.len(),
{
    if history.len() == 0 {
        Seq::empty()
    } else {
        let before = agent_texts(history.drop_last());
        let text = text_of_parts(history.last().parts);
        if history.last().role == A2aRole::Agent && text.len() > 0 {
            before.push(text)
        } else {
            before
        }
    }
}

/// The texts of artifacts, without those that are empty.
pub open spec fn artifact_texts(artifacts: Seq<Seq<A2aPartView>>) -> Seq<Seq<char>>
    decreases artifacts.len(),
{
    if artifacts.len() == 0 {
        Seq::empty()
    } else {
        let before = artifact_texts(artifacts.drop_last());
        let text = text_of_parts(artifacts.last());
        if text.len() > 0 {
            before.push(text)
        } else {
            before
        }
    }
}

/// The message that a message of a task stands for.
pub open spec fn history_message(message: A2aMessageView) -> MessageView {
    bare_message(role_of(message.role), seq![ContentView::Text { text: text_of_parts(message.parts) }])
}

/// The response that a message stands for.
pub open spec fn message_response(message: A2aMessageView) -> AgentResponseView {
    let text = text_of_parts(message.parts);
    AgentResponseView {
        messages: seq![text_message(Role::Assistant, text)],
        text,
        finish_reason: Some(FinishReason::Stop),
        usage: None,
    }
}

/// The response that a task stands for: what the agent has said, or where it has
/// said nothing, the texts of the artifacts, one to a line.
pub open spec fn task_response(
    history: Seq<A2aMessageView>,
    artifacts: Seq<Seq<A2aPartView>>,
) -> AgentResponseView {
    AgentResponseView {
        messages: Seq::new(history.len(), |i: int| history_message(history[i])),
        text: joined(
            if agent_texts(history).len() == 0 {
                artifact_texts(artifacts)
            } else {
                agent_texts(history)
            },
            "\n"@,
        ),
        finish_reason: Some(FinishReason::Stop),
        usage: None,
    }
}

fn collect_agent_texts(history: &Vec<A2aMessage>) -> (texts: Vec<String>)
    ensures
        texts.deep_view() == agent_texts(history.deep_view()),
{
    let mut texts: Vec<String> = Vec::new();
    let ghost all = history.deep_view();
    let mut i: usize = 0;
    assert(texts.deep_view() =~= Seq::empty());
    while i < history.len()
        invariant
            i <= history@.len(),
            all == history.deep_view(),
            texts.deep_view() == agent_texts(all.take(i as int)),
        decreases history@.len() - i,
    {
        assert(all.take(i + 1).drop_last() =~= all.take(i as int));
        if history[i].role == A2aRole::Agent {
            let text = collect_text(&history[i].parts);
            if !text.as_str().is_empty() {
                let ghost before = texts.deep_view();
                let ghost pushed = text@;
                texts.push(text);
                assert(texts.deep_view() =~= before.push(pushed));
            }
        }
        i += 1;
    }
    assert(all.take(i as int) =~= all);
    texts
}

fn collect_artifact_texts(artifacts: &Vec<A2aArtifact>) -> (texts: Vec<String>)
    ensures
        texts.deep_view() == artifact_texts(artifacts.deep_view()),
{
    let mut texts: Vec<String> = Vec::new();
    let ghost all = artifacts.deep_view();
    let mut i: usize = 0;
    assert(texts.deep_view() =~= Seq::empty());
    while i < artifacts.len()
        invariant
            i <= artifacts@.len(),
            all == artifacts.deep_view(),
            texts.deep_view() == artifact_texts(all.take(i as int)),
        decreases artifacts@.len() - i,
    {
        assert(all.take(i + 1).drop_last() =~= all.take(i as int));
        let text = collect_text(&artifacts[i].parts);
        if !text.as_str().is_empty() {
            let ghost before = texts.deep_view();
            let ghost pushed = text@;
            texts.push(text);
            assert(texts.deep_view() =~= before.push(pushed));
        }
        i += 1;
    }
    assert(all.take(i as int) =~= all);
    texts
}

fn convert_history(history: &Vec<A2aMessage>) -> (messages: Vec<Message>)
    ensures
        messages.deep_view() == Seq::new(
            history.deep_view().len(),
            |i: int| history_message(history.deep_view()[i]),
        ),
{
    let mut messages: Vec<Message> = Vec::new();
    let ghost views = history.deep_view();
    let ghost all = Seq::new(views.len(), |i: int| history_message(views[i]));
    let mut i: usize = 0;
    assert(messages.deep_view() =~= all.take(0));
    while i < history.len()
        invariant
            i <= history@.len(),
            views == history.deep_view(),
            all == Seq::new(views.len(), |i: int| history_message(views[i])),
            messages.deep_view() == all.take(i as int),
        decreases history@.len() - i,
    {
        let role = match history[i].role {
            A2aRole::User => Role::User,
            _ => Role::Assistant,
        };
        let text = collect_text(&history[i].parts);
        let mut content: Vec<Content> = Vec::new();
        content.push(Content::text(text.as_str()));
        assert(content.deep_view() =~= seq![ContentView::Text { text: text@ }]);
        let ghost before = messages.deep_view();
        messages.push(Message::bare(role, content));
        assert(messages.deep_view() =~= before.push(all[i as int]));
        assert(all.take(i + 1) =~= before.push(all[i as int]));
        i += 1;
    }
    assert(all.take(i as int) =~= all);
    messages
}

/// The response that a message stands for.
pub fn message_to_agent_response(message: &A2aMessage) -> (response: AgentResponse)
    ensures
        response@ == message_response(message@),
{
    let text = collect_text(&message.parts);
    let mut messages: Vec<Message> = Vec::new();
    messages.push(Message::assistant(text.as_str()));
    assert(messages.deep_view() =~= seq![text_message(Role::Assistant, text@)]);
    AgentResponse { messages, text, finish_reason: Some(FinishReason::Stop), usage: None }
}

/// The response that a task stands for.
pub fn task_to_agent_response(task: &A2aTask) -> (response: AgentResponse)
    ensures
        response@ == task_response(task.history.deep_view(), task.artifacts.deep_view()),
{
    let said = collect_agent_texts(&task.history);
    let texts = if said.len() == 0 {
        collect_artifact_texts(&task.artifacts)
    } else {
        said
    };
    AgentResponse {
        messages: convert_history(&task.history),
        text: join(&texts, "\n"),
        finish_reason: Some(FinishReason::Stop),
        usage: None,
    }
}

/// The response that an answer stands for.
pub fn send_result_to_agent_response(result: &SendMessageResult) -> (response: AgentResponse)
    ensures
        response@ == match *result {
            SendMessageResult::Message(message) => message_response(message@),
            SendMessageResult::Task(task) => task_response(task.history.deep_view(), task.artifacts.deep_view()),
        },
{
    match result {
        SendMessageResult::Message(message) => message_to_agent_response(message),
        SendMessageResult::Task(task) => task_to_agent_response(task),
    }
}

/// A remote agent that is used as if it were local.
#[derive(Debug)]
pub struct A2ARemoteAgent {
    pub id: String,
    pub name: Option<String>,
    pub description: Option<String>,
    pub server_url: String,
    pub session_token: Option<String>,
}

impl A2ARemoteAgent {
    /// An agent with a fresh identifier.
    pub fn new(config: A2AClientConfig) -> (agent: Self)
        ensures
            is_uuid(agent.id@),
            agent.name is None,
            agent.description is None,
            agent.server_url == config.server_url,
            agent.session_token == config.session_token,
    {
        A2ARemoteAgent {
            id: fresh_id(),
            name: None,
            description: None,
            server_url: config.server_url,
            session_token: config.session_token,
        }
    }

    /// Take over the name of the remote agent, and its description unless that is empty.
    pub fn refresh_card(&mut self, name: String, description: String)
        ensures
            final(self).name.deep_view() == Some(name@),
            final(self).description.deep_view() == if description@.len() > 0 {
                Some(description@)
            } else {
                old(self).description.deep_view()
            },
            final(self).id == old(self).id,
            final(self).server_url == old(self).server_url,
            final(self).session_token == old(self).session_token,
    {
        self.name = Some(name);
        if !description.as_str().is_empty() {
            self.description = Some(description);
        }
    }

    /// The message that is sent for a run: what users and the system say, one
    /// message to a line, without those that are empty.
    pub fn outbound(messages: &Vec<Message>) -> (message: A2aMessage)
        ensures
            message@ == (A2aMessageView {
                role: A2aRole::User,
                parts: seq![A2aPartView::Text { text: joined(spoken_texts(messages.deep_view(), false), "\n"@) }],
            }),
    {
        let text = join(&collect_spoken(messages, false), "\n");
        let ghost view = text@;
        let mut parts: Vec<A2aPart> = Vec::new();
        parts.push(A2aPart::Text { text });
        assert(parts.deep_view() =~= seq![A2aPartView::Text { text: view }]);
        A2aMessage { role: A2aRole::User, parts }
    }

    /// The one update of a stream, made of the response to a run.
    pub fn stream_update(response: &AgentResponse) -> (update: AgentResponseUpdate)
        ensures
            update.text.deep_view() == Some(response@.text),
            update.inner@ == (UpdateView {
                text: Some(response@.text),
                tool_call: None,
                finish_reason: response@.finish_reason,
                usage: response@.usage,
            }),
    {
        AgentResponseUpdate {
            text: Some(response.text.clone()),
            inner: ChatResponseUpdate {
                text: Some(response.text.clone()),
                tool_call: None,
                finish_reason: response.finish_reason,
                usage: response.usage,
            },
        }
    }
}

/// What a served agent replies is what a remote agent gives back: a task that holds
/// the question and the reply is read as the reply, unless that is empty.
pub proof fn law_reply_is_read_back(question: A2aMessageView, reply: Seq<char>)
    requires
        question.role == A2aRole::User,
        reply.len() > 0,
    ensures
        task_response(
            seq![
                question,
                A2aMessageView { role: A2aRole::Agent, parts: seq![A2aPartView::Text { text: reply }] },
            ],
            Seq::empty(),
        ).text == reply,
{
    let parts = seq![A2aPartView::Text { text: reply }];
    let answer = A2aMessageView { role: A2aRole::Agent, parts };
    let history = seq![question, answer];
    assert(parts.drop_last() =~= Seq::empty());
    assert(part_texts(Seq::<A2aPartView>::empty()) =~= Seq::empty());
    assert(part_texts(parts) =~= seq![reply]);
    reveal_with_fuel(joined, 2);
    assert(text_of_parts(parts) =~= reply);
    assert(history.drop_last() =~= seq![question]);
    assert(seq![question].drop_last() =~= Seq::empty());
    assert(agent_texts(Seq::<A2aMessageView>::empty()) =~= Seq::empty());
    assert(agent_texts(seq![question]) =~= Seq::empty());
    assert(agent_texts(history) =~= seq![reply]);
    assert(joined(seq![reply], "\n"@) =~= reply);
}

/// The text of parts is made of the texts of the text parts, one after the other with
/// nothing between them, and other parts add nothing.
pub proof fn law_parts_say_their_texts(first: Seq<A2aPartView>, text: Seq<char>)
    ensures
        part_texts(Seq::empty()).len() == 0,
        part_texts(first.push(A2aPartView::Text { text })) == part_texts(first).push(text),
        part_texts(first.push(A2aPartView::Other)) == part_texts(first),
        text_of_parts(Seq::empty()).len() == 0,
        text_of_parts(first.push(A2aPartView::Text { text })) == text_of_parts(first) + text,
        text_of_parts(first.push(A2aPartView::Other)) == text_of_parts(first),
{
    assert(first.push(A2aPartView::Text { text }).drop_last() =~= first);
    assert(first.push(A2aPartView::Other).drop_last() =~= first);
    reveal_strlit("");
    law_joined_parts(part_texts(first), text, ""@);
    if part_texts(first).len() == 0 {
        assert(part_texts(first) =~= Seq::empty());
        assert(part_texts(first).push(text) =~= seq![text]);
        assert(text_of_parts(first) + text =~= text);
    } else {
        assert(joined(part_texts(first), ""@) + ""@ + text =~= text_of_parts(first) + text);
    }
}

/// What a remote agent answers with a message is the text of that message, said by the
/// assistant.
pub proof fn law_message_is_the_response(message: A2aMessageView)
    ensures
        message_response(message).text == text_of_parts(message.parts),
        message_response(message).messages.len() == 1,
        message_response(message).messages[0].role == Role::Assistant,
        text_of(message_response(message).messages[0].content) == text_of_parts(message.parts),
        message_response(message).finish_reason == Some(FinishReason::Stop),
        message_response(message).usage is None,
{
    law_text_message_says_its_text(Role::Assistant, text_of_parts(message.parts));
}

/// What a remote agent answers with a task is what the agent has said in it, and only
/// where it has said nothing what the artifacts say, one to a line. Every message of the
/// task comes with it, in order, said by the user or else by the assistant.
pub proof fn law_task_is_the_response(history: Seq<A2aMessageView>, artifacts: Seq<Seq<A2aPartView>>)
    ensures
        agent_texts(history).len() > 0 ==> task_response(history, artifacts).text == joined(
            agent_texts(history),
            "\n"@,
        ),
        agent_texts(history).len() == 0 ==> task_response(history, artifacts).text == joined(
            artifact_texts(artifacts),
            "\n"@,
        ),
        task_response(history, artifacts).messages.len() == history.len(),
        forall|i: int|
            0 <= i < history.len() ==> {
                let message = #[trigger] task_response(history, artifacts).messages[i];
                &&& message.role == if history[i].role == A2aRole::User { Role::User } else { Role::Assistant }
                &&& message.content == seq![ContentView::Text { text: text_of_parts(history[i].parts) }]
                &&& message.name is None
            },
        task_response(history, artifacts).finish_reason == Some(FinishReason::Stop),
        task_response(history, artifacts).usage is None,
{
}

/// What the agent has said are the texts of the agent's messages alone, in order, unless
/// they are empty; and artifacts say their texts, unless these are empty.
pub proof fn law_only_the_agent_is_heard(
    history: Seq<A2aMessageView>,
    message: A2aMessageView,
    artifacts: Seq<Seq<A2aPartView>>,
    artifact: Seq<A2aPartView>,
)
    ensures
        agent_texts(Seq::empty()).len() == 0,
        message.role == A2aRole::Agent && text_of_parts(message.parts).len() > 0 ==> agent_texts(history.push(message))
            == agent_texts(history).push(text_of_parts(message.parts)),
        message.role != A2aRole::Agent || text_of_parts(message.parts).len() == 0 ==> agent_texts(
            history.push(message),
        ) == agent_texts(history),
        artifact_texts(Seq::empty()).len() == 0,
        text_of_parts(artifact).len() > 0 ==> artifact_texts(artifacts.push(artifact)) == artifact_texts(
            artifacts,
        ).push(text_of_parts(artifact)),
        text_of_parts(artifact).len() == 0 ==> artifact_texts(artifacts.push(artifact)) == artifact_texts(artifacts),
{
    assert(history.push(message).drop_last() =~= history);
    assert(artifacts.push(artifact).drop_last() =~= artifacts);
}

/// A text that is set is taken, and only else the one in its place.
pub proof fn law_defaults_stand_in(text: Seq<char>, default: Seq<char>, part: A2aPart, message: A2aMessage)
    ensures
        or_else(Some(text), default) == text,
        or_else(None, default) == default,
        part is Text ==> part@ is Text && part@->text == part->text@,
        part is Other ==> part@ is Other,
        message@.role == message.role,
        message@.parts == message.parts.deep_view(),
{
}

} // verus!
