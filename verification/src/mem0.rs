//! Long-term memories in Mem0.

use vstd::prelude::*;

use crate::context::{instructions_only, no_context, AIContext};
use crate::debug::{quote, quote_option, quoted, quoted_option, record, record_text};
use crate::error::{AgentError, AgentResult, ErrorView};
use crate::http::{
    credential_headers, is_header_value, json_content_type, missing_variable, required_variable, variable_or, Header,
    HeaderView,
};
use crate::json::{Json, JsonObject, JsonView};
use crate::secret::SecretString;
use crate::text::{cat2, cat3, cat5, trim, trim_end, trim_end_of, trim_start, trim_start_of, trimmed};
use crate::types::{clone_messages, extend_messages, role_name, text_of, Message, MessageView, Role, F32};

verus! {

/// Default base URL for the hosted service.
pub const DEFAULT_BASE_URL: &'static str = "https://api.mem0.ai/v1";

/// Default number of memories that a context provider retrieves.
pub const DEFAULT_MEMORY_LIMIT: usize = 5;

/// Default line before the memories in a context.
pub const DEFAULT_CONTEXT_PROMPT: &'static str = "Relevant memories:";

/// Overall request timeout, in milliseconds.
pub const DEFAULT_REQUEST_TIMEOUT: u64 = 30000;

/// TCP connect timeout, in milliseconds.
pub const DEFAULT_CONNECT_TIMEOUT: u64 = 10000;

/// Configuration for the Mem0 client.
pub struct Mem0Config {
    /// API key.
    pub api_key: SecretString,
    /// Base URL for the API.
    pub base_url: String,
    /// Default user id.
    pub user_id: Option<String>,
}

impl Mem0Config {
    /// Create a config from the values of the environment variables
    /// `MEM0_API_KEY` (required), `MEM0_BASE_URL` and `MEM0_USER_ID`. A user id that
    /// is empty counts as not set.
    pub fn from_env(api_key: Option<String>, base_url: Option<String>, user_id: Option<String>) -> (result: AgentResult<
        Self,
    >)
        ensures
            match result {
                Ok(config) => {
                    &&& api_key.deep_view() == Some(config.api_key@)
                    &&& config.base_url@ == match base_url.deep_view() {
                        Some(text) => text,
                        None => DEFAULT_BASE_URL@,
                    }
                    &&& config.user_id.deep_view() == if user_id is Some && user_id->0@.len() > 0 {
                        user_id.deep_view()
                    } else {
                        None
                    }
                },
                Err(error) => api_key is None && error@ == missing_variable("MEM0_API_KEY"@),
            },
    {
        let key = match required_variable("MEM0_API_KEY", api_key) {
            Ok(value) => value,
            Err(error) => return Err(error),
        };
        Ok(
            Mem0Config {
                api_key: SecretString::new(key.as_str()),
                base_url: variable_or(base_url, DEFAULT_BASE_URL),
                user_id: match user_id {
                    Some(id) => if id.as_str().is_empty() {
                        None
                    } else {
                        Some(id)
                    },
                    None => None,
                },
            },
        )
    }

    /// What a log shows of the configuration: everything but the key.
    pub fn debug_text(&self) -> (text: String)
        ensures
            text@ == record(
                "Mem0Config"@,
                seq![
                    ("api_key"@, "SecretString([REDACTED])"@),
                    ("base_url"@, quoted(self.base_url@)),
                    ("user_id"@, quoted_option(self.user_id.deep_view())),
                ],
            ),
    {
        let mut fields: Vec<(&str, String)> = Vec::new();
        fields.push(("api_key", self.api_key.debug_text()));
        fields.push(("base_url", quote(self.base_url.as_str())));
        fields.push(("user_id", quote_option(&self.user_id)));
        assert(fields.deep_view() =~= seq![
            ("api_key"@, "SecretString([REDACTED])"@),
            ("base_url"@, quoted(self.base_url@)),
            ("user_id"@, quoted_option(self.user_id.deep_view())),
        ]);
        record_text("Mem0Config", &fields)
    }
}

/// A memory that the service has returned.
#[derive(Debug)]
pub struct Memory {
    /// Identifier of the memory.
    pub id: String,
    /// The memory text.
    pub memory: String,
    /// How relevant the memory is.
    pub score: F32,
    /// Metadata attached to the memory.
    pub metadata: Option<Json>,
}

/// What a memory holds.
#[verifier::ext_equal]
pub struct MemoryView {
    pub id: Seq<char>,
    pub memory: Seq<char>,
    pub score: F32,
    pub metadata: Option<JsonView>,
}

impl View for Memory {
    type V = MemoryView;

    open spec fn view(&self) -> MemoryView {
        MemoryView {
            id: self.id@,
            memory: self.memory@,
            score: self.score,
            metadata: self.metadata.deep_view(),
        }
    }
}

impl DeepView for Memory {
    type V = MemoryView;

    open spec fn deep_view(&self) -> MemoryView {
        self@
    }
}

/// The answer to a search: a list, or an object that holds one.
#[derive(Debug)]
pub enum SearchResponse {
    Wrapped { results: Vec<Memory> },
    Bare(Vec<Memory>),
}

impl SearchResponse {
    /// The memories of the answer.
    pub fn into_results(self) -> (results: Vec<Memory>)
        ensures
            results == match self {
                SearchResponse::Wrapped { results } => results,
                SearchResponse::Bare(results) => results,
            },
    {
        match self {
            SearchResponse::Wrapped { results } => results,
            SearchResponse::Bare(results) => results,
        }
    }
}

// ---------------------------------------------------------------------------
// Requests
// ---------------------------------------------------------------------------

/// Whether a message is stored: it is no tool message and its text is not blank.
pub open spec fn is_stored(message: MessageView) -> bool {
    message.role != Role::Tool && trimmed(text_of(message.content)).len() > 0
}

/// A stored message on the wire.
pub open spec fn stored_message(message: MessageView) -> JsonView {
    JsonView::Object(
        Map::<Seq<char>, JsonView>::empty().insert("role"@, JsonView::Text(role_name(message.role))).insert(
            "content"@,
            JsonView::Text(text_of(message.content)),
        ),
    )
}

/// The stored messages on the wire.
pub open spec fn stored_messages(messages: Seq<MessageView>) -> Seq<JsonView>
    decreases messages.len(),
{
    if messages.len() == 0 {
        Seq::empty()
    } else if is_stored(messages.last()) {
        stored_messages(messages.drop_last()).push(stored_message(messages.last()))
    } else {
        stored_messages(messages.drop_last())
    }
}

/// Client for the Mem0 API: what it sends and how it reads what comes back.
pub struct Mem0Client {
    pub config: Mem0Config,
}

/// The error for a request that was answered with a failure.
pub open spec fn request_failed(what: Seq<char>, status: Seq<char>, code: u16, body: Seq<char>) -> ErrorView {
    ErrorView::ProviderError {
        message: "Mem0 "@ + what + " failed ("@ + status + ("): "@ + body),
        status_code: Some(code),
    }
}

impl Mem0Client {
    /// A client with the given configuration.
    pub fn new(config: Mem0Config) -> (client: Self)
        ensures
            client.config == config,
    {
        Mem0Client { config }
    }

    /// The configured base URL.
    pub fn base_url(&self) -> (url: &str)
        ensures
            url@ == self.config.base_url@,
    {
        self.config.base_url.as_str()
    }

    /// The configured default user id.
    pub fn default_user_id(&self) -> (id: Option<&str>)
        ensures
            match id {
                Some(text) => self.config.user_id.deep_view() == Some(text@),
                None => self.config.user_id is None,
            },
    {
        match &self.config.user_id {
            Some(id) => Some(id.as_str()),
            None => None,
        }
    }

    /// Build the HTTP headers of every request.
    pub fn build_headers(&self) -> (result: AgentResult<Vec<Header>>)
        ensures
            match result {
                Ok(headers) => {
                    &&& is_header_value("Token "@ + self.config.api_key@)
                    &&& headers.deep_view() == seq![
                        json_content_type(),
                        HeaderView {
                            name: "authorization"@,
                            value: "Token "@ + self.config.api_key@,
                            sensitive: true,
                        },
                    ]
                },
                Err(error) => {
                    &&& !is_header_value("Token "@ + self.config.api_key@)
                    &&& error@ == ErrorView::InvalidRequest("MEM0_API_KEY contains invalid characters"@)
                },
            },
    {
        credential_headers(
            "authorization",
            cat2("Token ", self.config.api_key.expose()).as_str(),
            "MEM0_API_KEY contains invalid characters",
        )
    }

    /// The URL of a path. Slashes where the two meet count once.
    pub fn endpoint(&self, path: &str) -> (url: String)
        ensures
            url@ == trim_end(self.config.base_url@, '/') + "/"@ + trim_start(path@, '/'),
    {
        let base = trim_end_of(self.config.base_url.as_str(), '/');
        cat3(base.as_str(), "/", trim_start_of(path, '/').as_str())
    }

    /// The body of a request that stores messages, `None` where none is stored.
    pub fn build_add_body(messages: &Vec<Message>, user_id: &str) -> (body: Option<Json>)
        ensures
            body.deep_view() == if stored_messages(messages.deep_view()).len() == 0 {
                None
            } else {
                Some(
                    JsonView::Object(
                        Map::<Seq<char>, JsonView>::empty().insert(
                            "messages"@,
                            JsonView::Array(stored_messages(messages.deep_view())),
                        ).insert("user_id"@, JsonView::Text(user_id@)),
                    ),
                )
            },
    {
        let mut payload: Vec<Json> = Vec::new();
        let ghost all = messages.deep_view();
        let mut i: usize = 0;
        assert(payload.deep_view() =~= Seq::empty());
        while i < messages.len()
            invariant
                i <= messages@.len(),
                all == messages.deep_view(),
                payload.deep_view() == stored_messages(all.take(i as int)),
            decreases messages@.len() - i,
        {
            assert(all.take(i + 1).drop_last() =~= all.take(i as int));
            if messages[i].role != Role::Tool {
                let text = messages[i].text();
                if !trim(text.as_str()).as_str().is_empty() {
                    let ghost before = payload.deep_view();
                    let message = Json::Object(
                        JsonObject::new().with("role", Json::text(messages[i].role.name())).with(
                            "content",
                            Json::Text(text),
                        ),
                    );
                    let ghost pushed = message@;
                    payload.push(message);
                    assert(payload.deep_view() =~= before.push(pushed));
                }
            }
            i += 1;
        }
        assert(all.take(i as int) =~= all);
        if payload.len() == 0 {
            return None;
        }
        Some(
            Json::Object(
                JsonObject::new().with("messages", Json::array(payload)).with("user_id", Json::text(user_id)),
            ),
        )
    }

    /// The body of a request that searches memories.
    pub fn build_search_body(query: &str, user_id: &str, limit: usize) -> (body: Json)
        ensures
            body@ == JsonView::Object(
                Map::<Seq<char>, JsonView>::empty().insert("query"@, JsonView::Text(query@)).insert(
                    "user_id"@,
                    JsonView::Text(user_id@),
                ).insert("limit"@, JsonView::Unsigned(limit as u64)),
            ),
    {
        Json::Object(
            JsonObject::new().with("query", Json::text(query)).with("user_id", Json::text(user_id)).with(
                "limit",
                Json::Unsigned(limit as u64),
            ),
        )
    }

    /// The error for a request that was answered with a failure.
    pub fn request_error(what: &str, status: &str, code: u16, body: &str) -> (error: AgentError)
        ensures
            error@ == request_failed(what@, status@, code, body@),
    {
        let rest = cat2("): ", body);
        AgentError::provider(cat5("Mem0 ", what, " failed (", status, rest.as_str()).as_str(), Some(code))
    }
}

// ---------------------------------------------------------------------------
// Providing context
// ---------------------------------------------------------------------------

/// The user id for a session: the one that was set, or the client's, or the
/// session's own.
pub open spec fn user_id_for(
    chosen: Option<Seq<char>>,
    default: Option<Seq<char>>,
    session_id: Seq<char>,
) -> Seq<char> {
    match chosen {
        Some(id) => id,
        None => match default {
            Some(id) => id,
            None => session_id,
        },
    }
}

/// The memories, one to a line, each after a dash.
pub open spec fn memory_lines(memories: Seq<MemoryView>) -> Seq<char>
    decreases memories.len(),
{
    if memories.len() == 0 {
        Seq::empty()
    } else {
        memory_lines(memories.drop_last()) + "- "@ + memories.last().memory + "\n"@
    }
}

fn resolve(chosen: &Option<String>, default: Option<&str>, session_id: &str) -> (id: String)
    ensures
        id@ == user_id_for(
            chosen.deep_view(),
            match default {
                Some(text) => Some(text@),
                None => None,
            },
            session_id@,
        ),
{
    match chosen {
        Some(id) => id.clone(),
        None => match default {
            Some(id) => id.to_owned(),
            None => session_id.to_owned(),
        },
    }
}

/// Provides memories as instructions.
pub struct Mem0ContextProvider {
    pub client: Mem0Client,
    pub limit: usize,
    pub context_prompt: String,
    pub user_id_override: Option<String>,
}

impl Mem0ContextProvider {
    /// A provider with the default limit and prompt.
    pub fn new(client: Mem0Client) -> (provider: Self)
        ensures
            provider.client == client,
            provider.limit == DEFAULT_MEMORY_LIMIT == 5,
            provider.context_prompt@ == DEFAULT_CONTEXT_PROMPT@,
            provider.user_id_override is None,
    {
        Mem0ContextProvider {
            client,
            limit: DEFAULT_MEMORY_LIMIT,
            context_prompt: DEFAULT_CONTEXT_PROMPT.to_owned(),
            user_id_override: None,
        }
    }

    /// Set how many memories are retrieved per run.
    pub fn with_limit(self, limit: usize) -> (provider: Self)
        ensures
            provider == (Mem0ContextProvider { limit, ..self }),
    {
        Mem0ContextProvider { limit, ..self }
    }

    /// Set the line before the memories.
    pub fn with_context_prompt(self, prompt: &str) -> (provider: Self)
        ensures
            provider.context_prompt@ == prompt@,
            provider == (Mem0ContextProvider { context_prompt: provider.context_prompt, ..self }),
    {
        Mem0ContextProvider { context_prompt: prompt.to_owned(), ..self }
    }

    /// Set the user id for every lookup.
    pub fn with_user_id(self, user_id: &str) -> (provider: Self)
        ensures
            provider.user_id_override.deep_view() == Some(user_id@),
            provider == (Mem0ContextProvider { user_id_override: provider.user_id_override, ..self }),
    {
        Mem0ContextProvider { user_id_override: Some(user_id.to_owned()), ..self }
    }

    /// The user id for a session.
    pub fn resolve_user_id(&self, session_id: &str) -> (id: String)
        ensures
            id@ == user_id_for(
                self.user_id_override.deep_view(),
                self.client.config.user_id.deep_view(),
                session_id@,
            ),
    {
        resolve(&self.user_id_override, self.client.default_user_id(), session_id)
    }

    /// The body of the search for a session: its identifier is the query.
    pub fn search_body(&self, session_id: &str) -> (body: Json)
        ensures
            body@ == JsonView::Object(
                Map::<Seq<char>, JsonView>::empty().insert("query"@, JsonView::Text(session_id@)).insert(
                    "user_id"@,
                    JsonView::Text(
                        user_id_for(
                            self.user_id_override.deep_view(),
                            self.client.config.user_id.deep_view(),
                            session_id@,
                        ),
                    ),
                ).insert("limit"@, JsonView::Unsigned(self.limit as u64)),
            ),
    {
        Mem0Client::build_search_body(session_id, self.resolve_user_id(session_id).as_str(), self.limit)
    }

    /// The context that follows from the outcome of a search: the memories under the
    /// prompt. A search that failed or found nothing adds nothing.
    pub fn context_from(&self, outcome: AgentResult<Vec<Memory>>) -> (context: AIContext)
        ensures
            context@ == match outcome {
                Ok(memories) => if memories@.len() == 0 {
                    no_context()
                } else {
                    instructions_only(self.context_prompt@ + "\n"@ + memory_lines(memories.deep_view()))
                },
                Err(_) => no_context(),
            },
    {
        let memories = match outcome {
            Ok(memories) => memories,
            Err(_) => return AIContext::default(),
        };
        if memories.len() == 0 {
            return AIContext::default();
        }
        let mut text = cat2(self.context_prompt.as_str(), "\n");
        let ghost head = text@;
        let ghost all = memories.deep_view();
        let mut i: usize = 0;
        assert(head + memory_lines(all.take(0)) =~= head);
        while i < memories.len()
            invariant
                i <= memories@.len(),
                all == memories.deep_view(),
                text@ == head + memory_lines(all.take(i as int)),
            decreases memories@.len() - i,
        {
            assert(all.take(i + 1).drop_last() =~= all.take(i as int));
            let ghost before = text@;
            text.append("- ");
            text.append(memories[i].memory.as_str());
            text.append("\n");
            assert(text@ =~= head + (memory_lines(all.take(i as int)) + "- "@ + all[i as int].memory + "\n"@));
            i += 1;
        }
        assert(all.take(i as int) =~= all);
        AIContext::of_instructions(text)
    }
}

/// Stores what an agent run has brought.
pub struct Mem0Middleware {
    pub client: Mem0Client,
    pub user_id_override: Option<String>,
}

impl Mem0Middleware {
    /// A middleware that stores runs through a client.
    pub fn new(client: Mem0Client) -> (middleware: Self)
        ensures
            middleware.client == client,
            middleware.user_id_override is None,
    {
        Mem0Middleware { client, user_id_override: None }
    }

    /// Set the user id under which runs are stored.
    pub fn with_user_id(self, user_id: &str) -> (middleware: Self)
        ensures
            middleware.user_id_override.deep_view() == Some(user_id@),
            middleware.client == self.client,
    {
        Mem0Middleware { user_id_override: Some(user_id.to_owned()), ..self }
    }

    /// The user id for a session.
    pub fn resolve_user_id(&self, session_id: &str) -> (id: String)
        ensures
            id@ == user_id_for(
                self.user_id_override.deep_view(),
                self.client.config.user_id.deep_view(),
                session_id@,
            ),
    {
        resolve(&self.user_id_override, self.client.default_user_id(), session_id)
    }

    /// What is stored of a run: what went in, then what came out.
    pub fn to_store(inbound: &Vec<Message>, outbound: &Vec<Message>) -> (messages: Vec<Message>)
        ensures
            messages.deep_view() == inbound.deep_view() + outbound.deep_view(),
    {
        let mut messages = clone_messages(inbound);
        extend_messages(&mut messages, outbound);
        messages
    }
}

// ---------------------------------------------------------------------------
// Laws of memories
// ---------------------------------------------------------------------------

/// Every message that is no tool's and not blank is stored, by its role and with its
/// text, in order; and no other is.
pub proof fn law_messages_are_stored(first: Seq<MessageView>, message: MessageView)
    ensures
        stored_messages(Seq::empty()).len() == 0,
        message.role != Role::Tool && trimmed(text_of(message.content)).len() > 0 ==> {
            let stored = stored_messages(first.push(message));
            &&& stored.len() == stored_messages(first).len() + 1
            &&& stored.drop_last() == stored_messages(first)
            &&& stored.last() is Object
            &&& stored.last()->Object_0["role"@] == JsonView::Text(role_name(message.role))
            &&& stored.last()->Object_0["content"@] == JsonView::Text(text_of(message.content))
        },
        message.role == Role::Tool || trimmed(text_of(message.content)).len() == 0 ==> stored_messages(
            first.push(message),
        ) == stored_messages(first),
{
    assert(first.push(message).drop_last() =~= first);
    reveal_strlit("role");
    reveal_strlit("content");
    assert("role"@.len() != "content"@.len());
    if message.role != Role::Tool && trimmed(text_of(message.content)).len() > 0 {
        assert(stored_messages(first.push(message)).drop_last() =~= stored_messages(first));
    }
}

/// The model is told every memory as it is, one to a line, in order.
pub proof fn law_memories_are_told(first: Seq<MemoryView>, memory: MemoryView)
    ensures
        memory_lines(Seq::empty()).len() == 0,
        memory_lines(first.push(memory)) == memory_lines(first) + "- "@ + memory.memory + "\n"@,
{
    assert(first.push(memory).drop_last() =~= first);
}

/// Memories belong to the user that was set for the provider, or else to the client's,
/// or else to the session.
pub proof fn law_users_are_chosen(chosen: Seq<char>, default: Option<Seq<char>>, client: Seq<char>, session_id: Seq<char>)
    ensures
        user_id_for(Some(chosen), default, session_id) == chosen,
        user_id_for(None, Some(client), session_id) == client,
        user_id_for(None, None, session_id) == session_id,
{
}

/// A failed request is reported with what failed, the status and what the service said.
pub proof fn law_failures_are_reported(what: Seq<char>, status: Seq<char>, code: u16, body: Seq<char>, memory: Memory)
    ensures
        request_failed(what, status, code, body) == (ErrorView::ProviderError {
            message: "Mem0 "@ + what + " failed ("@ + status + ("): "@ + body),
            status_code: Some(code),
        }),
        memory@.id == memory.id@,
        memory@.memory == memory.memory@,
        memory@.score == memory.score,
        memory@.metadata == memory.metadata.deep_view(),
{
}

} // verus!
