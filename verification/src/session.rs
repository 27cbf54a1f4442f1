//! Sessions and the history of their conversations.

use vstd::prelude::*;

use crate::ids::{fresh_id, is_uuid};
use crate::json::{JsonObject, JsonView};
use crate::compaction::last_items;
use crate::table::Table;
use crate::types::{clone_messages, extend_messages, Message, MessageView};

verus! {

/// A conversation session that tracks state across agent runs.
#[derive(Debug)]
pub struct AgentSession {
    /// Client-generated identifier for this session.
    pub session_id: String,
    /// Server-assigned conversation identifier for provider-managed threads.
    pub conversation_id: Option<String>,
    /// Arbitrary key-value state storage.
    pub state: JsonObject,
}

/// What a session holds.
#[verifier::ext_equal]
pub struct AgentSessionView {
    pub session_id: Seq<char>,
    pub conversation_id: Option<Seq<char>>,
    pub state: Map<Seq<char>, JsonView>,
}

impl View for AgentSession {
    type V = AgentSessionView;

    open spec fn view(&self) -> AgentSessionView {
        AgentSessionView {
            session_id: self.session_id@,
            conversation_id: self.conversation_id.deep_view(),
            state: self.state@,
        }
    }
}

/// Which conversation of a provider a run takes place in.
#[derive(Debug)]
pub enum ConversationStep {
    /// In the one that the session keeps.
    Reuse(String),
    /// In one that is to be created.
    Create,
}

/// The conversation of a run: the one that the session keeps, else the created one.
pub open spec fn conversation_of(session: AgentSessionView, created: Seq<char>) -> Seq<char> {
    match session.conversation_id {
        Some(id) => id,
        None => created,
    }
}

/// The session with the conversation of its run kept.
pub open spec fn conversation_kept(session: AgentSessionView, created: Seq<char>) -> AgentSessionView {
    AgentSessionView { conversation_id: Some(conversation_of(session, created)), ..session }
}

/// A conversation that was created is reused by every later run: it takes place in the
/// same one, whatever else might be created, and leaves the session as it is.
pub proof fn law_conversation_is_reused(session: AgentSessionView, first: Seq<char>, second: Seq<char>)
    ensures
        conversation_of(conversation_kept(session, first), second) == conversation_of(session, first),
        conversation_kept(conversation_kept(session, first), second) == conversation_kept(session, first),
        session.conversation_id is None ==> conversation_of(session, first) == first,
        session.conversation_id is Some ==> conversation_kept(session, first) == session,
{
}

impl AgentSession {
    /// The conversation of the next run: the one that is kept, or one to be created.
    pub fn conversation(&self) -> (step: ConversationStep)
        ensures
            match step {
                ConversationStep::Reuse(id) => self@.conversation_id == Some(id@),
                ConversationStep::Create => self@.conversation_id is None,
            },
    {
        match &self.conversation_id {
            Some(id) => ConversationStep::Reuse(id.clone()),
            None => ConversationStep::Create,
        }
    }

    /// Keep a conversation that was created, unless there is one already. What comes out
    /// is the one that the run takes place in.
    pub fn keep_conversation(&mut self, created: &str) -> (id: String)
        ensures
            id@ == conversation_of(old(self)@, created@),
            final(self)@ == conversation_kept(old(self)@, created@),
    {
        match &self.conversation_id {
            Some(id) => id.clone(),
            None => {
                self.conversation_id = Some(created.to_owned());
                created.to_owned()
            },
        }
    }

    /// A new session with a fresh identifier.
    pub fn new() -> (session: Self)
        ensures
            is_uuid(session.session_id@),
            session.conversation_id is None,
            session.state@ == Map::<Seq<char>, JsonView>::empty(),
    {
        AgentSession { session_id: fresh_id(), conversation_id: None, state: JsonObject::new() }
    }

    /// A new session with the given identifier, or a fresh one if there is none.
    pub fn with_id(session_id: Option<String>) -> (session: Self)
        ensures
            match session_id {
                Some(id) => session.session_id@ == id@,
                None => is_uuid(session.session_id@),
            },
            session.conversation_id is None,
            session.state@ == Map::<Seq<char>, JsonView>::empty(),
    {
        let id = match session_id {
            Some(id) => id,
            None => fresh_id(),
        };
        AgentSession { session_id: id, conversation_id: None, state: JsonObject::new() }
    }
}

impl Default for AgentSession {
    fn default() -> (session: Self)
        ensures
            is_uuid(session.session_id@),
            session.conversation_id is None,
            session.state@ == Map::<Seq<char>, JsonView>::empty(),
    {
        AgentSession::new()
    }
}

/// Default cap on the number of messages kept per session.
pub const DEFAULT_MAX_HISTORY_MESSAGES: usize = 1000;

/// The histories of sessions, kept in memory. Each is capped: the oldest
/// messages leave first.
#[derive(Debug)]
pub struct InMemoryHistoryProvider {
    pub sessions: Table<Vec<Message>>,
    /// How many messages are kept per session; zero keeps all.
    pub max_messages: usize,
}

/// What the histories hold: messages by session identifier.
pub open spec fn history_of(
    sessions: Map<Seq<char>, Seq<MessageView>>,
    session_id: Seq<char>,
) -> Seq<MessageView> {
    if sessions.dom().contains(session_id) {
        sessions[session_id]
    } else {
        Seq::empty()
    }
}

/// A history cut to its newest messages; a cap of zero cuts nothing.
pub open spec fn capped(history: Seq<MessageView>, max_messages: nat) -> Seq<MessageView> {
    if max_messages == 0 {
        history
    } else {
        last_items(history, max_messages)
    }
}

/// The histories after messages were added to one of them.
pub open spec fn history_saved(
    sessions: Map<Seq<char>, Seq<MessageView>>,
    session_id: Seq<char>,
    messages: Seq<MessageView>,
    max_messages: nat,
) -> Map<Seq<char>, Seq<MessageView>> {
    sessions.insert(session_id, capped(history_of(sessions, session_id) + messages, max_messages))
}

/// The newest messages of a list.
fn newest(messages: Vec<Message>, max_messages: usize) -> (kept: Vec<Message>)
    ensures
        kept.deep_view() == capped(messages.deep_view(), max_messages as nat),
{
    if max_messages == 0 || messages.len() <= max_messages {
        return messages;
    }
    let mut all = messages;
    let ghost before = all.deep_view();
    let drop_count: usize = all.len() - max_messages;
    let kept = all.split_off(drop_count);
    assert(kept.deep_view() =~= last_items(before, max_messages as nat));
    kept
}

impl InMemoryHistoryProvider {
    /// An empty store with the default cap.
    pub fn new() -> (provider: Self)
        ensures
            provider.sessions@ == Map::<Seq<char>, Seq<MessageView>>::empty(),
            provider.max_messages == DEFAULT_MAX_HISTORY_MESSAGES == 1000,
    {
        InMemoryHistoryProvider { sessions: Table::new(), max_messages: DEFAULT_MAX_HISTORY_MESSAGES }
    }

    /// An empty store with a cap on the messages per session; zero keeps all.
    pub fn with_capacity(max_messages: usize) -> (provider: Self)
        ensures
            provider.sessions@ == Map::<Seq<char>, Seq<MessageView>>::empty(),
            provider.max_messages == max_messages,
    {
        InMemoryHistoryProvider { sessions: Table::new(), max_messages }
    }

    /// The history of a session; that of an unknown session is empty.
    pub fn get_history(&self, session_id: &str) -> (history: Vec<Message>)
        ensures
            history.deep_view() == history_of(self.sessions@, session_id@),
    {
        match self.sessions.get(session_id) {
            Some(messages) => clone_messages(messages),
            None => {
                let none: Vec<Message> = Vec::new();
                assert(none.deep_view() =~= Seq::empty());
                none
            },
        }
    }

    /// Append messages to the history of a session and drop the oldest over the cap.
    pub fn save_history(&mut self, session_id: &str, messages: &Vec<Message>)
        ensures
            final(self).max_messages == old(self).max_messages,
            final(self).sessions@ == history_saved(
                old(self).sessions@,
                session_id@,
                messages.deep_view(),
                old(self).max_messages as nat,
            ),
    {
        let mut history = self.get_history(session_id);
        extend_messages(&mut history, messages);
        let kept = newest(history, self.max_messages);
        self.sessions.insert(session_id, kept);
    }
}

impl Default for InMemoryHistoryProvider {
    fn default() -> (provider: Self)
        ensures
            provider.sessions@ == Map::<Seq<char>, Seq<MessageView>>::empty(),
            provider.max_messages == DEFAULT_MAX_HISTORY_MESSAGES == 1000,
    {
        InMemoryHistoryProvider::new()
    }
}

/// A saved history is read back: what was there, then what was saved, cut to the
/// cap. The history of every other session is untouched.
pub proof fn law_history_reads_back(
    sessions: Map<Seq<char>, Seq<MessageView>>,
    session_id: Seq<char>,
    other: Seq<char>,
    messages: Seq<MessageView>,
    max_messages: nat,
)
    ensures
        history_of(history_saved(sessions, session_id, messages, max_messages), session_id) == capped(
            history_of(sessions, session_id) + messages,
            max_messages,
        ),
        other != session_id ==> history_of(history_saved(sessions, session_id, messages, max_messages), other)
            == history_of(sessions, other),
{
}

/// A history never holds more messages than its cap, and loses its oldest first:
/// saving twice is saving all at once.
pub proof fn law_history_is_capped(
    history: Seq<MessageView>,
    first: Seq<MessageView>,
    second: Seq<MessageView>,
    max_messages: nat,
)
    ensures
        max_messages > 0 ==> capped(history, max_messages).len() <= max_messages,
        capped(capped(history + first, max_messages) + second, max_messages) == capped(
            history + (first + second),
            max_messages,
        ),
{
    assert(capped(capped(history + first, max_messages) + second, max_messages) =~= capped(
        history + (first + second),
        max_messages,
    ));
}

/// A run of a session takes place in the conversation that the session keeps, or else in
/// the one that was created, which is then kept; nothing else of the session changes.
pub proof fn law_created_conversation_is_kept(session: AgentSessionView, created: Seq<char>)
    ensures
        session.conversation_id is Some ==> conversation_of(session, created) == session.conversation_id->0,
        session.conversation_id is None ==> conversation_of(session, created) == created,
        conversation_kept(session, created).conversation_id == Some(conversation_of(session, created)),
        conversation_kept(session, created).session_id == session.session_id,
        conversation_kept(session, created).state == session.state,
{
}

/// What a session's history gives back after a save is what it gave before and then what
/// was saved: all of it, where it is within the cap or there is none, and else exactly
/// the newest messages. An unknown session has no history.
pub proof fn law_history_keeps_the_newest(
    sessions: Map<Seq<char>, Seq<MessageView>>,
    session_id: Seq<char>,
    messages: Seq<MessageView>,
    max_messages: nat,
)
    ensures
        !sessions.dom().contains(session_id) ==> history_of(sessions, session_id).len() == 0,
        sessions.dom().contains(session_id) ==> history_of(sessions, session_id) == sessions[session_id],
        ({
            let all = history_of(sessions, session_id) + messages;
            let kept = history_of(history_saved(sessions, session_id, messages, max_messages), session_id);
            &&& max_messages == 0 || all.len() <= max_messages ==> kept == all
            &&& max_messages > 0 && all.len() > max_messages ==> kept == all.skip(all.len() - max_messages)
        }),
{
}

/// Unless it is told otherwise, a store keeps a thousand messages of a session.
pub proof fn law_default_cap()
    ensures
        DEFAULT_MAX_HISTORY_MESSAGES == 1000,
{
}

/// The model of a session has all that the session holds.
pub proof fn law_session_model_is_complete(session: AgentSession)
    ensures
        session@.session_id == session.session_id@,
        session@.conversation_id == session.conversation_id.deep_view(),
        session@.state == session.state@,
{
}

} // verus!
