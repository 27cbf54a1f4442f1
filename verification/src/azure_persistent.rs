//! Agents that the Azure AI Persistent Agents service runs: threads, messages and runs.

use vstd::prelude::*;

use crate::debug::{duration, duration_text, quote, quoted, record, record_text};
use crate::error::{AgentError, AgentResult, ErrorView};
use crate::http::{
    credential_headers, error_for_status, is_header_value, json_content_type, missing_variable, required_variable,
    status_error, Header, HeaderView,
};
use crate::ids::{fresh_id, is_uuid};
use crate::json::{Json, JsonObject, JsonView};
use crate::secret::SecretString;
use crate::text::{cat2, cat3, cat4, cat5, str_eq, trim_end, trim_end_of};
use crate::types::{
    bare_message, collect_spoken, replied, spoken_texts, text_of, AgentResponse, Content, ContentView, Message,
    MessageView, Role,
};

verus! {

/// Request timeout of single HTTP calls, in milliseconds.
pub const DEFAULT_REQUEST_TIMEOUT: u64 = 120000;

/// TCP connect timeout, in milliseconds.
pub const DEFAULT_CONNECT_TIMEOUT: u64 = 10000;

/// Interval between run-status polls, in milliseconds.
pub const DEFAULT_POLL_INTERVAL: u64 = 500;

/// Maximum time to wait for a run, in milliseconds.
pub const DEFAULT_RUN_TIMEOUT: u64 = 300000;

/// Configuration for an Azure AI Persistent Agents client.
pub struct PersistentConfig {
    /// Service endpoint.
    pub endpoint: String,
    /// API key, sent in the `api-key` header.
    pub api_key: SecretString,
    /// Identifier of the persistent agent to run.
    pub agent_id: String,
    /// Request timeout of single HTTP calls, in milliseconds.
    pub request_timeout: u64,
    /// TCP connect timeout, in milliseconds.
    pub connect_timeout: u64,
    /// Interval between run-status polls, in milliseconds.
    pub poll_interval: u64,
    /// Maximum time to wait for a single run to end, in milliseconds.
    pub run_timeout: u64,
}

impl PersistentConfig {
    /// Build a config from the values of the environment variables
    /// `AZURE_AI_ENDPOINT`, `AZURE_AI_API_KEY` and `AZURE_AI_AGENT_ID`, all of which
    /// are required.
    pub fn from_env(
        endpoint: Option<String>,
        api_key: Option<String>,
        agent_id: Option<String>,
    ) -> (result: AgentResult<Self>)
        ensures
            match result {
                Ok(config) => {
                    &&& endpoint.deep_view() == Some(config.endpoint@)
                    &&& api_key.deep_view() == Some(config.api_key@)
                    &&& agent_id.deep_view() == Some(config.agent_id@)
                    &&& config.request_timeout == DEFAULT_REQUEST_TIMEOUT == 120000
                    &&& config.connect_timeout == DEFAULT_CONNECT_TIMEOUT == 10000
                    &&& config.poll_interval == DEFAULT_POLL_INTERVAL == 500
                    &&& config.run_timeout == DEFAULT_RUN_TIMEOUT == 300000
                },
                Err(error) => if endpoint is None {
                    error@ == missing_variable("AZURE_AI_ENDPOINT"@)
                } else if api_key is None {
                    error@ == missing_variable("AZURE_AI_API_KEY"@)
                } else {
                    agent_id is None && error@ == missing_variable("AZURE_AI_AGENT_ID"@)
                },
            },
    {
        let endpoint = match required_variable("AZURE_AI_ENDPOINT", endpoint) {
            Ok(value) => value,
            Err(error) => return Err(error),
        };
        let api_key = match required_variable("AZURE_AI_API_KEY", api_key) {
            Ok(value) => value,
            Err(error) => return Err(error),
        };
        let agent_id = match required_variable("AZURE_AI_AGENT_ID", agent_id) {
            Ok(value) => value,
            Err(error) => return Err(error),
        };
        Ok(
            PersistentConfig {
                endpoint,
                api_key: SecretString::new(api_key.as_str()),
                agent_id,
                request_timeout: DEFAULT_REQUEST_TIMEOUT,
                connect_timeout: DEFAULT_CONNECT_TIMEOUT,
                poll_interval: DEFAULT_POLL_INTERVAL,
                run_timeout: DEFAULT_RUN_TIMEOUT,
            },
        )
    }

    /// The endpoint without slashes at its end.
    pub fn base(&self) -> (base: String)
        ensures
            base@ == trim_end(self.endpoint@, '/'),
    {
        trim_end_of(self.endpoint.as_str(), '/')
    }

    /// URL of the threads.
    pub fn threads_url(&self) -> (url: String)
        ensures
            url@ == trim_end(self.endpoint@, '/') + "/threads"@,
    {
        cat2(self.base().as_str(), "/threads")
    }

    /// URL of the messages of a thread.
    pub fn messages_url(&self, thread_id: &str) -> (url: String)
        ensures
            url@ == trim_end(self.endpoint@, '/') + "/threads/"@ + thread_id@ + "/messages"@,
    {
        cat4(self.base().as_str(), "/threads/", thread_id, "/messages")
    }

    /// URL of the runs of a thread.
    pub fn runs_url(&self, thread_id: &str) -> (url: String)
        ensures
            url@ == trim_end(self.endpoint@, '/') + "/threads/"@ + thread_id@ + "/runs"@,
    {
        cat4(self.base().as_str(), "/threads/", thread_id, "/runs")
    }

    /// URL of a run.
    pub fn run_url(&self, thread_id: &str, run_id: &str) -> (url: String)
        ensures
            url@ == trim_end(self.endpoint@, '/') + "/threads/"@ + thread_id@ + "/runs/"@ + run_id@,
    {
        cat5(self.base().as_str(), "/threads/", thread_id, "/runs/", run_id)
    }

    /// What a log shows of the configuration: everything but the key.
    pub fn debug_text(&self) -> (text: String)
        ensures
            text@ == record(
                "PersistentConfig"@,
                seq![
                    ("endpoint"@, quoted(self.endpoint@)),
                    ("api_key"@, "SecretString([REDACTED])"@),
                    ("agent_id"@, quoted(self.agent_id@)),
                    ("request_timeout"@, duration(self.request_timeout as nat)),
                    ("connect_timeout"@, duration(self.connect_timeout as nat)),
                    ("poll_interval"@, duration(self.poll_interval as nat)),
                    ("run_timeout"@, duration(self.run_timeout as nat)),
                ],
            ),
    {
        let mut fields: Vec<(&str, String)> = Vec::new();
        fields.push(("endpoint", quote(self.endpoint.as_str())));
        fields.push(("api_key", self.api_key.debug_text()));
        fields.push(("agent_id", quote(self.agent_id.as_str())));
        fields.push(("request_timeout", duration_text(self.request_timeout)));
        fields.push(("connect_timeout", duration_text(self.connect_timeout)));
        fields.push(("poll_interval", duration_text(self.poll_interval)));
        fields.push(("run_timeout", duration_text(self.run_timeout)));
        assert(fields.deep_view() =~= seq![
            ("endpoint"@, quoted(self.endpoint@)),
            ("api_key"@, "SecretString([REDACTED])"@),
            ("agent_id"@, quoted(self.agent_id@)),
            ("request_timeout"@, duration(self.request_timeout as nat)),
            ("connect_timeout"@, duration(self.connect_timeout as nat)),
            ("poll_interval"@, duration(self.poll_interval as nat)),
            ("run_timeout"@, duration(self.run_timeout as nat)),
        ]);
        record_text("PersistentConfig", &fields)
    }
}

// ---------------------------------------------------------------------------
// Wire types
// ---------------------------------------------------------------------------

/// Why a run has failed.
#[derive(Debug)]
pub struct RunError {
    pub code: String,
    pub message: String,
}

/// A run of an agent on a thread.
#[derive(Debug)]
pub struct RunResource {
    pub id: String,
    pub status: String,
    pub last_error: Option<RunError>,
}

/// What a run holds, with the code and the message of its error.
#[verifier::ext_equal]
pub struct RunView {
    pub id: Seq<char>,
    pub status: Seq<char>,
    pub last_error: Option<(Seq<char>, Seq<char>)>,
}

impl View for RunResource {
    type V = RunView;

    open spec fn view(&self) -> RunView {
        RunView {
            id: self.id@,
            status: self.status@,
            last_error: match self.last_error {
                Some(e) => Some((e.code@, e.message@)),
                None => None,
            },
        }
    }
}

/// A part of a message. Parts other than texts are passed over.
#[derive(Debug)]
pub enum PersistentContent {
    Text { value: String },
    Other,
}

/// What a part of a message holds.
#[verifier::ext_equal]
pub enum PersistentContentView {
    Text { value: Seq<char> },
    Other,
}

impl View for PersistentContent {
    type V = PersistentContentView;

    open spec fn view(&self) -> PersistentContentView {
        match self {
            PersistentContent::Text { value } => PersistentContentView::Text { value: value@ },
            PersistentContent::Other => PersistentContentView::Other,
        }
    }
}

impl DeepView for PersistentContent {
    type V = PersistentContentView;

    open spec fn deep_view(&self) -> PersistentContentView {
        self@
    }
}

/// A message of a thread.
#[derive(Debug)]
pub struct PersistentMessage {
    pub role: String,
    pub content: Vec<PersistentContent>,
}

/// What a message of a thread holds.
#[verifier::ext_equal]
pub struct PersistentMessageView {
    pub role: Seq<char>,
    pub content: Seq<PersistentContentView>,
}

impl View for PersistentMessage {
    type V = PersistentMessageView;

    open spec fn view(&self) -> PersistentMessageView {
        PersistentMessageView { role: self.role@, content: self.content.deep_view() }
    }
}

impl DeepView for PersistentMessage {
    type V = PersistentMessageView;

    open spec fn deep_view(&self) -> PersistentMessageView {
        self@
    }
}

// ---------------------------------------------------------------------------
// Messages
// ---------------------------------------------------------------------------

/// The role that a role of the service stands for.
pub open spec fn role_of(role: Seq<char>) -> Role {
    if role == "assistant"@ {
        Role::Assistant
    } else if role == "system"@ {
        Role::System
    } else {
        Role::User
    }
}

/// The text blocks among the parts of a message.
pub open spec fn text_parts(content: Seq<PersistentContentView>) -> Seq<ContentView>
    decreases content.len(),
{
    if content.len() == 0 {
        Seq::empty()
    } else {
        match content.last() {
            PersistentContentView::Text { value } => text_parts(content.drop_last()).push(
                ContentView::Text { text: value },
            ),
            PersistentContentView::Other => text_parts(content.drop_last()),
        }
    }
}

/// The message that a message of a thread stands for.
pub open spec fn message_of(message: PersistentMessageView) -> MessageView {
    bare_message(role_of(message.role), text_parts(message.content))
}

/// The messages of a thread, which the service lists from the newest on, from the
/// oldest on.
pub open spec fn chronological(data: Seq<PersistentMessageView>) -> Seq<MessageView> {
    Seq::new(data.len(), |i: int| message_of(data[data.len() - 1 - i]))
}

/// The message that a message of a thread stands for.
pub fn persistent_to_message(message: &PersistentMessage) -> (out: Message)
    ensures
        out@ == message_of(message@),
{
    let role = if str_eq(message.role.as_str(), "assistant") {
        Role::Assistant
    } else if str_eq(message.role.as_str(), "system") {
        Role::System
    } else {
        Role::User
    };
    let mut content: Vec<Content> = Vec::new();
    let ghost all = message.content.deep_view();
    let mut i: usize = 0;
    assert(content.deep_view() =~= Seq::empty());
    while i < message.content.len()
        invariant
            i <= message.content@.len(),
            all == message.content.deep_view(),
            content.deep_view() == text_parts(all.take(i as int)),
        decreases message.content@.len() - i,
    {
        assert(all.take(i + 1).drop_last() =~= all.take(i as int));
        if let PersistentContent::Text { value } = &message.content[i] {
            let ghost before = content.deep_view();
            content.push(Content::text(value.as_str()));
            assert(content.deep_view() =~= before.push(ContentView::Text { text: value@ }));
        }
        i += 1;
    }
    assert(all.take(i as int) =~= all);
    Message::bare(role, content)
}

/// The messages of a thread from the oldest on.
pub fn list_to_messages(data: &Vec<PersistentMessage>) -> (messages: Vec<Message>)
    ensures
        messages.deep_view() == chronological(data.deep_view()),
{
    let mut messages: Vec<Message> = Vec::new();
    let ghost all = chronological(data.deep_view());
    let mut i: usize = 0;
    assert(messages.deep_view() =~= all.take(0));
    while i < data.len()
        invariant
            i <= data@.len(),
            all == chronological(data.deep_view()),
            messages.deep_view() == all.take(i as int),
        decreases data@.len() - i,
    {
        let ghost before = messages.deep_view();
        messages.push(persistent_to_message(&data[data.len() - 1 - i]));
        assert(messages.deep_view() =~= before.push(all[i as int]));
        assert(all.take(i + 1) =~= before.push(all[i as int]));
        i += 1;
    }
    assert(all.take(i as int) =~= all);
    messages
}

/// The text of the newest message of the assistant, empty if there is none.
pub open spec fn newest_reply(messages: Seq<MessageView>) -> Seq<char>
    decreases messages.len(),
{
    if messages.len() == 0 {
        Seq::empty()
    } else if messages.last().role == Role::Assistant {
        text_of(messages.last().content)
    } else {
        newest_reply(messages.drop_last())
    }
}

/// The text of the newest message of the assistant.
pub fn newest_assistant_text(messages: &Vec<Message>) -> (text: String)
    ensures
        text@ == newest_reply(messages.deep_view()),
{
    let ghost all = messages.deep_view();
    let mut i: usize = messages.len();
    assert(all.take(i as int) =~= all);
    while i > 0
        invariant
            i <= messages@.len(),
            all == messages.deep_view(),
            newest_reply(all) == newest_reply(all.take(i as int)),
        decreases i,
    {
        assert(all.take(i as int).drop_last() =~= all.take(i - 1));
        if messages[i - 1].role == Role::Assistant {
            return messages[i - 1].text();
        }
        i -= 1;
    }
    let none = String::new();
    assert(none@ =~= Seq::empty());
    none
}

// ---------------------------------------------------------------------------
// Requests
// ---------------------------------------------------------------------------

/// Low-level client for the Azure AI Persistent Agents API: what it sends and how
/// it reads what comes back.
pub struct PersistentAgentsClient {
    pub config: PersistentConfig,
}

/// What a failed step is called in an error.
pub open spec fn step_name(context: Seq<char>) -> Seq<char> {
    "Azure AI Persistent Agents error during "@ + context
}

impl PersistentAgentsClient {
    /// A client with the given configuration.
    pub fn new(config: PersistentConfig) -> (client: Self)
        ensures
            client.config == config,
    {
        PersistentAgentsClient { config }
    }

    /// Build the HTTP headers of every request.
    pub fn build_headers(&self) -> (result: AgentResult<Vec<Header>>)
        ensures
            match result {
                Ok(headers) => {
                    &&& is_header_value(self.config.api_key@)
                    &&& headers.deep_view() == seq![
                        json_content_type(),
                        HeaderView { name: "api-key"@, value: self.config.api_key@, sensitive: true },
                    ]
                },
                Err(error) => {
                    &&& !is_header_value(self.config.api_key@)
                    &&& error@ == ErrorView::InvalidRequest("AZURE_AI_API_KEY contains invalid characters"@)
                },
            },
    {
        credential_headers("api-key", self.config.api_key.expose(), "AZURE_AI_API_KEY contains invalid characters")
    }

    /// The error for a step that was answered with a failure.
    pub fn step_error(context: &str, status: &str, code: u16, body: &str) -> (error: AgentError)
        ensures
            error@ == status_error(step_name(context@), status@, code, body@),
    {
        error_for_status(cat2("Azure AI Persistent Agents error during ", context).as_str(), status, code, body)
    }

    /// The body of a request that creates a thread.
    pub fn thread_body() -> (body: Json)
        ensures
            body@ == JsonView::Object(Map::<Seq<char>, JsonView>::empty()),
    {
        Json::Object(JsonObject::new())
    }

    /// The body of a request that adds a message.
    pub fn message_body(role: &str, content: &str) -> (body: Json)
        ensures
            body@ == JsonView::Object(
                Map::<Seq<char>, JsonView>::empty().insert("role"@, JsonView::Text(role@)).insert(
                    "content"@,
                    JsonView::Text(content@),
                ),
            ),
    {
        Json::Object(JsonObject::new().with("role", Json::text(role)).with("content", Json::text(content)))
    }

    /// The body of a request that starts a run.
    pub fn run_body(&self) -> (body: Json)
        ensures
            body@ == JsonView::Object(
                Map::<Seq<char>, JsonView>::empty().insert("assistant_id"@, JsonView::Text(self.config.agent_id@)),
            ),
    {
        Json::Object(JsonObject::new().with("assistant_id", Json::text(self.config.agent_id.as_str())))
    }

    /// Whether a run may be polled once more, given the time since its start in
    /// milliseconds.
    pub fn before_poll(&self, run_id: &str, elapsed: u64) -> (result: AgentResult<()>)
        ensures
            match result {
                Ok(_) => elapsed <= self.config.run_timeout,
                Err(error) => elapsed > self.config.run_timeout && error@ == overdue(
                    run_id@,
                    self.config.run_timeout as nat,
                ),
            },
    {
        if elapsed > self.config.run_timeout {
            let limit = duration_text(self.config.run_timeout);
            return Err(
                AgentError::provider(cat4("run ", run_id, " exceeded timeout of ", limit.as_str()).as_str(), None),
            );
        }
        Ok(())
    }
}

/// Polling ends: since a poll comes after its interval, a run that never ends is
/// polled at most once more than the interval fits into the limit.
pub proof fn law_polls_are_bounded(config: PersistentConfig, elapsed: Seq<nat>)
    requires
        elapsed.len() > 0,
        forall|i: int| 0 <= i < elapsed.len() ==> #[trigger] elapsed[i] >= i * config.poll_interval,
        forall|i: int| 0 <= i < elapsed.len() ==> #[trigger] elapsed[i] <= config.run_timeout,
    ensures
        (elapsed.len() - 1) * config.poll_interval <= config.run_timeout,
{
    let last = elapsed.len() - 1;
    assert(elapsed[last] >= last * config.poll_interval);
}

/// Whether a run with a status has ended without a result.
pub open spec fn has_failed(status: Seq<char>) -> bool {
    status == "failed"@ || status == "cancelled"@ || status == "expired"@
}

/// Why a run has failed.
pub open spec fn failure_reason(last_error: Option<(Seq<char>, Seq<char>)>) -> Seq<char> {
    match last_error {
        Some((code, message)) => code + ": "@ + message,
        None => "no error details"@,
    }
}

/// The error of a run that takes longer than its limit in milliseconds.
pub open spec fn overdue(run_id: Seq<char>, limit: nat) -> ErrorView {
    ErrorView::ProviderError {
        message: "run "@ + run_id + " exceeded timeout of "@ + duration(limit),
        status_code: None,
    }
}

/// The error of a run that has failed, which names its status.
pub open spec fn run_failure(run: RunView) -> ErrorView {
    ErrorView::ProviderError {
        message: "run "@ + run.id + " ended with status '"@ + run.status + ("' ("@ + failure_reason(run.last_error)
            + ")"@),
        status_code: None,
    }
}

/// What is known of a run after a poll.
pub enum PollVerdict {
    GoesOn,
    Completed,
    Failed(ErrorView),
}

/// What is known of a run after a poll. A status that is not known counts as going on.
pub open spec fn poll_verdict(run: RunView) -> PollVerdict {
    if run.status == "completed"@ {
        PollVerdict::Completed
    } else if has_failed(run.status) {
        PollVerdict::Failed(run_failure(run))
    } else {
        PollVerdict::GoesOn
    }
}

/// What is known of a run after a poll: `true` once it is completed, `false` while
/// it goes on.
pub fn after_poll(run: &RunResource) -> (result: AgentResult<bool>)
    ensures
        match poll_verdict(run@) {
            PollVerdict::GoesOn => result == Ok::<bool, AgentError>(false),
            PollVerdict::Completed => result == Ok::<bool, AgentError>(true),
            PollVerdict::Failed(error) => result is Err && result->Err_0@ == error,
        },
{
    let status = run.status.as_str();
    if str_eq(status, "completed") {
        return Ok(true);
    }
    if str_eq(status, "failed") || str_eq(status, "cancelled") || str_eq(status, "expired") {
        let reason = match &run.last_error {
            Some(e) => cat3(e.code.as_str(), ": ", e.message.as_str()),
            None => "no error details".to_owned(),
        };
        let rest = cat3("' (", reason.as_str(), ")");
        let message = cat5("run ", run.id.as_str(), " ended with status '", status, rest.as_str());
        return Err(AgentError::provider(message.as_str(), None));
    }
    Ok(false)
}

/// What running the agent comes to, given the polls, each by the time before it and the
/// run that it finds, and the messages of the thread at the end; `None` while the run is
/// polled on.
pub open spec fn run_outcome(
    run_id: Seq<char>,
    limit: nat,
    polls: Seq<(nat, RunView)>,
    messages: Seq<MessageView>,
) -> Option<Result<Seq<char>, ErrorView>>
    decreases polls.len(),
{
    if polls.len() == 0 {
        None
    } else if polls[0].0 > limit {
        Some(Err(overdue(run_id, limit)))
    } else {
        match poll_verdict(polls[0].1) {
            PollVerdict::GoesOn => run_outcome(run_id, limit, polls.skip(1), messages),
            PollVerdict::Completed => Some(Ok(newest_reply(messages))),
            PollVerdict::Failed(error) => Some(Err(error)),
        }
    }
}

/// Whether the run is polled on after a poll: it is in time and has no final status.
pub open spec fn is_polled_on(poll: (nat, RunView), limit: nat) -> bool {
    poll.0 <= limit && poll.1.status != "completed"@ && !has_failed(poll.1.status)
}

/// The first final status ends the polling, whatever later polls would find. Where the
/// run is completed, its result is the text of the newest message of the assistant;
/// where it has failed, was cancelled or has expired, the error names that status; and
/// where it is late for a poll, the error names the limit.
pub proof fn law_first_final_status_counts(
    run_id: Seq<char>,
    limit: nat,
    polls: Seq<(nat, RunView)>,
    messages: Seq<MessageView>,
    k: int,
)
    requires
        0 <= k <= polls.len(),
        forall|i: int| 0 <= i < k ==> is_polled_on(#[trigger] polls[i], limit),
    ensures
        k == polls.len() ==> run_outcome(run_id, limit, polls, messages) is None,
        k < polls.len() && polls[k].0 > limit ==> run_outcome(run_id, limit, polls, messages) == Some(
            Err::<Seq<char>, ErrorView>(overdue(run_id, limit)),
        ),
        k < polls.len() && polls[k].0 <= limit && polls[k].1.status == "completed"@ ==> run_outcome(
            run_id,
            limit,
            polls,
            messages,
        ) == Some(Ok::<Seq<char>, ErrorView>(newest_reply(messages))),
        k < polls.len() && polls[k].0 <= limit && has_failed(polls[k].1.status) ==> run_outcome(
            run_id,
            limit,
            polls,
            messages,
        ) == Some(Err::<Seq<char>, ErrorView>(run_failure(polls[k].1))),
    decreases k,
{
    reveal_strlit("completed");
    reveal_strlit("failed");
    reveal_strlit("cancelled");
    reveal_strlit("expired");
    assert("completed"@[1] == 'o' && "failed"@[1] == 'a' && "cancelled"@[1] == 'a' && "expired"@[1] == 'x');
    if k > 0 {
        let rest = polls.skip(1);
        assert(is_polled_on(polls[0], limit));
        assert forall|i: int| 0 <= i < k - 1 implies is_polled_on(#[trigger] rest[i], limit) by {
            assert(rest[i] == polls[i + 1]);
        }
        law_first_final_status_counts(run_id, limit, rest, messages, k - 1);
        if k < polls.len() {
            assert(rest[k - 1] == polls[k]);
        }
    }
}

// ---------------------------------------------------------------------------
// The agent
// ---------------------------------------------------------------------------

/// An agent backed by a thread of the service. The thread of a session is kept in
/// its conversation identifier.
pub struct PersistentAgent {
    pub id: String,
    pub name: Option<String>,
    pub description: Option<String>,
    pub client: PersistentAgentsClient,
}

impl PersistentAgent {
    /// An agent with a fresh identifier and without a name.
    pub fn new(config: PersistentConfig) -> (agent: Self)
        ensures
            is_uuid(agent.id@),
            agent.name is None,
            agent.description is None,
            agent.client.config == config,
    {
        PersistentAgent {
            id: fresh_id(),
            name: None,
            description: None,
            client: PersistentAgentsClient::new(config),
        }
    }

    /// Set a human-readable name.
    pub fn with_name(self, name: &str) -> (agent: Self)
        ensures
            agent.name.deep_view() == Some(name@),
            agent == (PersistentAgent { name: agent.name, ..self }),
    {
        PersistentAgent { name: Some(name.to_owned()), ..self }
    }

    /// Set a description.
    pub fn with_description(self, description: &str) -> (agent: Self)
        ensures
            agent.description.deep_view() == Some(description@),
            agent == (PersistentAgent { description: agent.description, ..self }),
    {
        PersistentAgent { description: Some(description.to_owned()), ..self }
    }

    /// The underlying client.
    pub fn client(&self) -> (client: &PersistentAgentsClient)
        ensures
            *client == self.client,
    {
        &self.client
    }

    /// What is forwarded to the thread, as messages of the user: what users and the
    /// system say, without what is empty.
    pub fn to_forward(messages: &Vec<Message>) -> (texts: Vec<String>)
        ensures
            texts.deep_view() == spoken_texts(messages.deep_view(), false),
    {
        collect_spoken(messages, false)
    }

    /// The response to a run: the input and the reply.
    pub fn response(messages: Vec<Message>, reply: &str) -> (response: AgentResponse)
        ensures
            response@ == replied(messages.deep_view(), reply@),
    {
        AgentResponse::of_reply(messages, reply)
    }

    /// What asking for a stream is answered.
    pub fn stream_error() -> (error: AgentError)
        ensures
            error@ == ErrorView::Unimplemented("streaming is not yet implemented for PersistentAgent"@),
    {
        AgentError::Unimplemented("streaming is not yet implemented for PersistentAgent".to_owned())
    }
}

// ---------------------------------------------------------------------------
// What threads and runs say
// ---------------------------------------------------------------------------

/// A message of a thread says the texts of its text parts, in order, in the role of its
/// name; other parts say nothing.
pub proof fn law_thread_messages_are_read(
    first: Seq<PersistentContentView>,
    value: Seq<char>,
    message: PersistentMessageView,
    role: Seq<char>,
)
    ensures
        text_parts(Seq::empty()).len() == 0,
        text_parts(first.push(PersistentContentView::Text { value })) == text_parts(first).push(
            ContentView::Text { text: value },
        ),
        text_parts(first.push(PersistentContentView::Other)) == text_parts(first),
        message_of(message).role == role_of(message.role),
        message_of(message).content == text_parts(message.content),
        message_of(message).name is None,
        role_of("assistant"@) == Role::Assistant,
        role_of("system"@) == Role::System,
        role != "assistant"@ && role != "system"@ ==> role_of(role) == Role::User,
{
    assert(first.push(PersistentContentView::Text { value }).drop_last() =~= first);
    assert(first.push(PersistentContentView::Other).drop_last() =~= first);
    reveal_strlit("assistant");
    reveal_strlit("system");
    assert("assistant"@.len() != "system"@.len());
}

/// The messages of a thread come from the oldest on, while the service lists them from
/// the newest on: none is lost, and their order is turned round.
pub proof fn law_threads_are_chronological(data: Seq<PersistentMessageView>)
    ensures
        chronological(data).len() == data.len(),
        forall|i: int|
            0 <= i < data.len() ==> #[trigger] chronological(data)[i] == message_of(data[data.len() - 1 - i]),
{
}

/// The reply is the text of the last message of the assistant, whatever others say after
/// it, and empty where the assistant has said nothing.
pub proof fn law_reply_is_the_newest(messages: Seq<MessageView>, message: MessageView)
    ensures
        newest_reply(Seq::empty()).len() == 0,
        message.role == Role::Assistant ==> newest_reply(messages.push(message)) == text_of(message.content),
        message.role != Role::Assistant ==> newest_reply(messages.push(message)) == newest_reply(messages),
{
    assert(messages.push(message).drop_last() =~= messages);
}

/// A run is complete or has failed by its status, and goes on with every other. The
/// error of a failed run names the run, the status and what the service says of it; that
/// of a late one names the run and the limit.
pub proof fn law_runs_end_by_their_status(run: RunView, code: Seq<char>, message: Seq<char>, limit: nat, step: Seq<char>)
    ensures
        run.status == "completed"@ ==> poll_verdict(run) is Completed,
        run.status == "failed"@ || run.status == "cancelled"@ || run.status == "expired"@ ==> poll_verdict(run)
            == PollVerdict::Failed(
            ErrorView::ProviderError {
                message: "run "@ + run.id + " ended with status '"@ + run.status + ("' ("@ + failure_reason(
                    run.last_error,
                ) + ")"@),
                status_code: None,
            },
        ),
        run.status != "completed"@ && run.status != "failed"@ && run.status != "cancelled"@ && run.status != "expired"@
            ==> poll_verdict(run) is GoesOn,
        failure_reason(Some((code, message))) == code + ": "@ + message,
        failure_reason(None) == "no error details"@,
        overdue(run.id, limit) == (ErrorView::ProviderError {
            message: "run "@ + run.id + " exceeded timeout of "@ + duration(limit),
            status_code: None,
        }),
        step_name(step) == "Azure AI Persistent Agents error during "@ + step,
{
    reveal_strlit("completed");
    reveal_strlit("failed");
    reveal_strlit("cancelled");
    reveal_strlit("expired");
    assert("completed"@[1] != "cancelled"@[1]);
    assert("completed"@.len() != "failed"@.len());
    assert("completed"@.len() != "expired"@.len());
}

/// The models of runs and messages have all that these hold.
pub proof fn law_thread_models_are_complete(run: RunResource, message: PersistentMessage, part: PersistentContent)
    ensures
        run@.id == run.id@,
        run@.status == run.status@,
        run.last_error is None ==> run@.last_error is None,
        run.last_error matches Some(e) ==> run@.last_error == Some((e.code@, e.message@)),
        message@.role == message.role@,
        message@.content == message.content.deep_view(),
        part is Text ==> part@ is Text && part@->value == part->value@,
        part is Other ==> part@ is Other,
{
}

} // verus!
