//! Bots of Copilot Studio, reached over Direct Line.

use vstd::prelude::*;

use crate::debug::{duration, duration_text, quote, quoted, record, record_text};
use crate::error::{AgentError, AgentResult, ErrorView};
use crate::http::{
    credential_headers, error_for_status, is_header_value, json_content_type, missing_variable, required_variable,
    status_error, Header, HeaderView,
};
use crate::ids::{fresh_id, is_uuid};
use crate::json::{Json, JsonObject, JsonView};
use crate::secret::SecretString;
use crate::text::{cat2, cat3, cat4, join, joined, str_eq, trim_end, trim_end_of};
use crate::types::{collect_spoken, replied, spoken_texts, AgentResponse, Message};

verus! {

/// Overall request timeout, in milliseconds.
pub const DEFAULT_REQUEST_TIMEOUT: u64 = 60000;

/// TCP connect timeout, in milliseconds.
pub const DEFAULT_CONNECT_TIMEOUT: u64 = 10000;

/// How often activities are polled before giving up.
pub const MAX_POLL_ATTEMPTS: usize = 30;

/// Delay between successive polls, in milliseconds.
pub const POLL_INTERVAL: u64 = 500;

/// Configuration for a [`CopilotStudioClient`].
pub struct CopilotStudioConfig {
    /// Direct Line endpoint for the bot.
    pub bot_endpoint: String,
    /// Azure AD tenant identifier.
    pub tenant_id: String,
    /// Azure AD application identifier.
    pub client_id: String,
    /// Client secret, used as the bearer credential.
    pub client_secret: SecretString,
    /// Overall request timeout, in milliseconds.
    pub request_timeout: u64,
    /// TCP connect timeout, in milliseconds.
    pub connect_timeout: u64,
}

impl CopilotStudioConfig {
    /// A config with default timeouts.
    pub fn new(bot_endpoint: &str, tenant_id: &str, client_id: &str, client_secret: &str) -> (config: Self)
        ensures
            config.bot_endpoint@ == bot_endpoint@,
            config.tenant_id@ == tenant_id@,
            config.client_id@ == client_id@,
            config.client_secret@ == client_secret@,
            config.request_timeout == DEFAULT_REQUEST_TIMEOUT == 60000,
            config.connect_timeout == DEFAULT_CONNECT_TIMEOUT == 10000,
    {
        CopilotStudioConfig {
            bot_endpoint: bot_endpoint.to_owned(),
            tenant_id: tenant_id.to_owned(),
            client_id: client_id.to_owned(),
            client_secret: SecretString::new(client_secret),
            request_timeout: DEFAULT_REQUEST_TIMEOUT,
            connect_timeout: DEFAULT_CONNECT_TIMEOUT,
        }
    }

    /// Create a config from the values of the environment variables
    /// `COPILOT_STUDIO_ENDPOINT`, `COPILOT_STUDIO_TENANT_ID`,
    /// `COPILOT_STUDIO_CLIENT_ID` and `COPILOT_STUDIO_CLIENT_SECRET`, all of which
    /// are required.
    pub fn from_env(
        bot_endpoint: Option<String>,
        tenant_id: Option<String>,
        client_id: Option<String>,
        client_secret: Option<String>,
    ) -> (result: AgentResult<Self>)
        ensures
            match result {
                Ok(config) => {
                    &&& bot_endpoint.deep_view() == Some(config.bot_endpoint@)
                    &&& tenant_id.deep_view() == Some(config.tenant_id@)
                    &&& client_id.deep_view() == Some(config.client_id@)
                    &&& client_secret.deep_view() == Some(config.client_secret@)
                    &&& config.request_timeout == DEFAULT_REQUEST_TIMEOUT == 60000
                    &&& config.connect_timeout == DEFAULT_CONNECT_TIMEOUT == 10000
                },
                Err(error) => if bot_endpoint is None {
                    error@ == missing_variable("COPILOT_STUDIO_ENDPOINT"@)
                } else if tenant_id is None {
                    error@ == missing_variable("COPILOT_STUDIO_TENANT_ID"@)
                } else if client_id is None {
                    error@ == missing_variable("COPILOT_STUDIO_CLIENT_ID"@)
                } else {
                    client_secret is None && error@ == missing_variable("COPILOT_STUDIO_CLIENT_SECRET"@)
                },
            },
    {
        let endpoint = match required_variable("COPILOT_STUDIO_ENDPOINT", bot_endpoint) {
            Ok(value) => value,
            Err(error) => return Err(error),
        };
        let tenant = match required_variable("COPILOT_STUDIO_TENANT_ID", tenant_id) {
            Ok(value) => value,
            Err(error) => return Err(error),
        };
        let client = match required_variable("COPILOT_STUDIO_CLIENT_ID", client_id) {
            Ok(value) => value,
            Err(error) => return Err(error),
        };
        let secret = match required_variable("COPILOT_STUDIO_CLIENT_SECRET", client_secret) {
            Ok(value) => value,
            Err(error) => return Err(error),
        };
        Ok(CopilotStudioConfig::new(endpoint.as_str(), tenant.as_str(), client.as_str(), secret.as_str()))
    }

    /// What a log shows of the configuration: everything but the secret.
    pub fn debug_text(&self) -> (text: String)
        ensures
            text@ == record(
                "CopilotStudioConfig"@,
                seq![
                    ("bot_endpoint"@, quoted(self.bot_endpoint@)),
                    ("tenant_id"@, quoted(self.tenant_id@)),
                    ("client_id"@, quoted(self.client_id@)),
                    ("client_secret"@, "SecretString([REDACTED])"@),
                    ("request_timeout"@, duration(self.request_timeout as nat)),
                    ("connect_timeout"@, duration(self.connect_timeout as nat)),
                ],
            ),
    {
        let mut fields: Vec<(&str, String)> = Vec::new();
        fields.push(("bot_endpoint", quote(self.bot_endpoint.as_str())));
        fields.push(("tenant_id", quote(self.tenant_id.as_str())));
        fields.push(("client_id", quote(self.client_id.as_str())));
        fields.push(("client_secret", self.client_secret.debug_text()));
        fields.push(("request_timeout", duration_text(self.request_timeout)));
        fields.push(("connect_timeout", duration_text(self.connect_timeout)));
        assert(fields.deep_view() =~= seq![
            ("bot_endpoint"@, quoted(self.bot_endpoint@)),
            ("tenant_id"@, quoted(self.tenant_id@)),
            ("client_id"@, quoted(self.client_id@)),
            ("client_secret"@, "SecretString([REDACTED])"@),
            ("request_timeout"@, duration(self.request_timeout as nat)),
            ("connect_timeout"@, duration(self.connect_timeout as nat)),
        ]);
        record_text("CopilotStudioConfig", &fields)
    }
}

// ---------------------------------------------------------------------------
// Activities
// ---------------------------------------------------------------------------

/// The author of an activity.
#[derive(Debug)]
pub struct InboundFrom {
    pub id: Option<String>,
}

/// An activity of a conversation.
#[derive(Debug)]
pub struct InboundActivity {
    pub kind: String,
    pub text: Option<String>,
    pub from: Option<InboundFrom>,
}

/// What an activity holds: its author's id is `None` also where it has no author.
#[verifier::ext_equal]
pub struct InboundActivityView {
    pub kind: Seq<char>,
    pub text: Option<Seq<char>>,
    pub from: Option<Seq<char>>,
}

impl View for InboundActivity {
    type V = InboundActivityView;

    open spec fn view(&self) -> InboundActivityView {
        InboundActivityView {
            kind: self.kind@,
            text: self.text.deep_view(),
            from: match self.from {
                Some(from) => from.id.deep_view(),
                None => None,
            },
        }
    }
}

impl DeepView for InboundActivity {
    type V = InboundActivityView;

    open spec fn deep_view(&self) -> InboundActivityView {
        self@
    }
}

/// Whether an activity is a reply to a user: a message of somebody else that says
/// something.
pub open spec fn is_reply(activity: InboundActivityView, user_id: Seq<char>) -> bool {
    &&& activity.kind == "message"@
    &&& activity.from != Some(user_id)
    &&& activity.text is Some
    &&& activity.text->0.len() > 0
}

/// The texts of the replies among activities, in order.
pub open spec fn reply_texts(activities: Seq<InboundActivityView>, user_id: Seq<char>) -> Seq<Seq<char>>
    decreases activities.len(),
{
    if activities.len() == 0 {
        Seq::empty()
    } else if is_reply(activities.last(), user_id) {
        reply_texts(activities.drop_last(), user_id).push(activities.last().text->0)
    } else {
        reply_texts(activities.drop_last(), user_id)
    }
}

/// The URL of the conversations of an endpoint.
pub open spec fn conversations(endpoint: Seq<char>) -> Seq<char> {
    trim_end(endpoint, '/') + "/v3/directline/conversations"@
}

/// Client for the Direct Line API: what it sends and how it reads what comes back.
pub struct CopilotStudioClient {
    pub config: CopilotStudioConfig,
    /// The author of the activities that are sent.
    pub user_id: String,
}

impl CopilotStudioClient {
    /// A client with a fresh user identifier.
    pub fn new(config: CopilotStudioConfig) -> (client: Self)
        ensures
            client.config == config,
            client.user_id@.take(5) == "user_"@,
            is_uuid(client.user_id@.skip(5)),
    {
        let id = fresh_id();
        let user_id = cat2("user_", id.as_str());
        proof {
            reveal_strlit("user_");
            assert(user_id@.take(5) =~= "user_"@);
            assert(user_id@.skip(5) =~= id@);
        }
        CopilotStudioClient { config, user_id }
    }

    /// Build the HTTP headers of every request.
    pub fn build_headers(&self) -> (result: AgentResult<Vec<Header>>)
        ensures
            match result {
                Ok(headers) => {
                    &&& is_header_value("Bearer "@ + self.config.client_secret@)
                    &&& headers.deep_view() == seq![
                        json_content_type(),
                        HeaderView {
                            name: "authorization"@,
                            value: "Bearer "@ + self.config.client_secret@,
                            sensitive: true,
                        },
                    ]
                },
                Err(error) => {
                    &&& !is_header_value("Bearer "@ + self.config.client_secret@)
                    &&& error@ == ErrorView::InvalidRequest("COPILOT_STUDIO_CLIENT_SECRET contains invalid characters"@)
                },
            },
    {
        credential_headers(
            "authorization",
            cat2("Bearer ", self.config.client_secret.expose()).as_str(),
            "COPILOT_STUDIO_CLIENT_SECRET contains invalid characters",
        )
    }

    /// URL of the conversations.
    pub fn conversations_url(&self) -> (url: String)
        ensures
            url@ == conversations(self.config.bot_endpoint@),
    {
        let base = trim_end_of(self.config.bot_endpoint.as_str(), '/');
        cat2(base.as_str(), "/v3/directline/conversations")
    }

    /// URL of the activities of a conversation.
    pub fn activities_url(&self, conversation_id: &str) -> (url: String)
        ensures
            url@ == conversations(self.config.bot_endpoint@) + "/"@ + conversation_id@ + "/activities"@,
    {
        cat4(self.conversations_url().as_str(), "/", conversation_id, "/activities")
    }

    /// URL of the activities that follow a watermark.
    pub fn poll_url(&self, conversation_id: &str, watermark: Option<&str>) -> (url: String)
        ensures
            url@ == conversations(self.config.bot_endpoint@) + "/"@ + conversation_id@ + "/activities"@
                + match watermark {
                Some(w) => "?watermark="@ + w@,
                None => Seq::empty(),
            },
    {
        let url = self.activities_url(conversation_id);
        match watermark {
            Some(w) => {
                let out = cat3(url.as_str(), "?watermark=", w);
                assert(out@ =~= url@ + ("?watermark="@ + w@));
                out
            },
            None => {
                assert(url@ + Seq::<char>::empty() =~= url@);
                url
            },
        }
    }

    /// The body of a request that sends a text.
    pub fn activity_body(&self, text: &str) -> (body: Json)
        ensures
            body@ == JsonView::Object(
                Map::<Seq<char>, JsonView>::empty().insert("type"@, JsonView::Text("message"@)).insert(
                    "from"@,
                    JsonView::Object(
                        Map::<Seq<char>, JsonView>::empty().insert("id"@, JsonView::Text(self.user_id@)),
                    ),
                ).insert("text"@, JsonView::Text(text@)),
            ),
    {
        let from = Json::Object(JsonObject::new().with("id", Json::text(self.user_id.as_str())));
        Json::Object(
            JsonObject::new().with("type", Json::text("message")).with("from", from).with("text", Json::text(text)),
        )
    }

    /// The error for a request that was answered with a failure.
    pub fn request_error(status: &str, code: u16, body: &str) -> (error: AgentError)
        ensures
            error@ == status_error("Copilot Studio error"@, status@, code, body@),
    {
        error_for_status("Copilot Studio error", status, code, body)
    }

    /// The texts of the replies among activities, in order.
    pub fn replies(&self, activities: &Vec<InboundActivity>) -> (texts: Vec<String>)
        ensures
            texts.deep_view() == reply_texts(activities.deep_view(), self.user_id@),
    {
        let mut texts: Vec<String> = Vec::new();
        let ghost all = activities.deep_view();
        let mut i: usize = 0;
        assert(texts.deep_view() =~= Seq::empty());
        while i < activities.len()
            invariant
                i <= activities@.len(),
                all == activities.deep_view(),
                texts.deep_view() == reply_texts(all.take(i as int), self.user_id@),
            decreases activities@.len() - i,
        {
            assert(all.take(i + 1).drop_last() =~= all.take(i as int));
            let activity = &activities[i];
            let own = match &activity.from {
                Some(from) => match &from.id {
                    Some(id) => str_eq(id.as_str(), self.user_id.as_str()),
                    None => false,
                },
                None => false,
            };
            if str_eq(activity.kind.as_str(), "message") && !own {
                if let Some(text) = &activity.text {
                    if !text.as_str().is_empty() {
                        let ghost before = texts.deep_view();
                        texts.push(text.clone());
                        assert(texts.deep_view() =~= before.push(text@));
                    }
                }
            }
            i += 1;
        }
        assert(all.take(i as int) =~= all);
        texts
    }
}

// ---------------------------------------------------------------------------
// Polling
// ---------------------------------------------------------------------------

/// How far the polling for replies has come.
#[derive(Debug)]
pub struct ReplyPoll {
    /// How often activities were polled.
    pub attempts: usize,
    /// The watermark of the latest answer that had one.
    pub watermark: Option<String>,
    /// The replies that have come.
    pub replies: Vec<String>,
}

/// What a state of the polling holds.
#[verifier::ext_equal]
pub struct ReplyPollView {
    pub attempts: nat,
    pub watermark: Option<Seq<char>>,
    pub replies: Seq<Seq<char>>,
}

impl View for ReplyPoll {
    type V = ReplyPollView;

    open spec fn view(&self) -> ReplyPollView {
        ReplyPollView {
            attempts: self.attempts as nat,
            watermark: self.watermark.deep_view(),
            replies: self.replies.deep_view(),
        }
    }
}

/// Polling goes on until a reply has come or the attempts are used up.
pub open spec fn wants_poll(poll: ReplyPollView) -> bool {
    poll.replies.len() == 0 && poll.attempts < MAX_POLL_ATTEMPTS
}

/// The state after an answer.
pub open spec fn after_answer(
    poll: ReplyPollView,
    replies: Seq<Seq<char>>,
    watermark: Option<Seq<char>>,
) -> ReplyPollView {
    ReplyPollView {
        attempts: poll.attempts + 1,
        watermark: if watermark is Some {
            watermark
        } else {
            poll.watermark
        },
        replies: poll.replies + replies,
    }
}

/// The state after answers, one after the other, where polling goes on before each.
pub open spec fn after_answers(
    poll: ReplyPollView,
    answers: Seq<(Seq<Seq<char>>, Option<Seq<char>>)>,
) -> ReplyPollView
    decreases answers.len(),
{
    if answers.len() == 0 {
        poll
    } else {
        let before = after_answers(poll, answers.drop_last());
        after_answer(before, answers.last().0, answers.last().1)
    }
}

/// The state before the first poll.
pub open spec fn no_answer_yet() -> ReplyPollView {
    ReplyPollView { attempts: 0, watermark: None, replies: Seq::empty() }
}

impl ReplyPoll {
    /// The state before the first poll.
    pub fn start() -> (poll: Self)
        ensures
            poll@ == no_answer_yet(),
    {
        let poll = ReplyPoll { attempts: 0, watermark: None, replies: Vec::new() };
        assert(poll@ =~= no_answer_yet());
        poll
    }

    /// Whether activities are to be polled once more.
    pub fn wants_poll(&self) -> (yes: bool)
        ensures
            yes == wants_poll(self@),
    {
        self.replies.len() == 0 && self.attempts < MAX_POLL_ATTEMPTS
    }

    /// Take in the replies and the watermark of an answer.
    pub fn on_answer(&mut self, replies: Vec<String>, watermark: Option<String>)
        requires
            wants_poll(old(self)@),
        ensures
            final(self)@ == after_answer(old(self)@, replies.deep_view(), watermark.deep_view()),
    {
        let ghost before = self.replies.deep_view();
        let ghost new = replies.deep_view();
        self.attempts += 1;
        if watermark.is_some() {
            self.watermark = watermark;
        }
        let mut replies = replies;
        self.replies.append(&mut replies);
        assert(self.replies.deep_view() =~= before + new);
    }

    /// The replies, one to a line.
    pub fn reply_text(&self) -> (text: String)
        ensures
            text@ == joined(self@.replies, "\n"@),
    {
        join(&self.replies, "\n")
    }
}

/// Polling ends: after as many answers as there are attempts, none more is wanted,
/// and after an answer with a reply none more is wanted either, and the replies are
/// those of that answer.
pub proof fn law_polling_ends(answers: Seq<(Seq<Seq<char>>, Option<Seq<char>>)>)
    requires
        forall|i: int|
            0 <= i < answers.len() ==> wants_poll(#[trigger] after_answers(no_answer_yet(), answers.take(i))),
    ensures
        answers.len() <= MAX_POLL_ATTEMPTS,
        answers.len() == MAX_POLL_ATTEMPTS ==> !wants_poll(after_answers(no_answer_yet(), answers)),
        answers.len() > 0 ==> after_answers(no_answer_yet(), answers).replies == answers.last().0,
        answers.len() > 0 && answers.last().0.len() > 0 ==> !wants_poll(after_answers(no_answer_yet(), answers)),
{
    lemma_attempts(answers);
    if answers.len() > 0 {
        let before = after_answers(no_answer_yet(), answers.take(answers.len() - 1));
        assert(answers.take(answers.len() - 1) =~= answers.drop_last());
        lemma_attempts(answers.drop_last());
        assert(before.replies =~= Seq::empty());
        assert(before.replies + answers.last().0 =~= answers.last().0);
    }
}

proof fn lemma_attempts(answers: Seq<(Seq<Seq<char>>, Option<Seq<char>>)>)
    ensures
        after_answers(no_answer_yet(), answers).attempts == answers.len(),
    decreases answers.len(),
{
    if answers.len() > 0 {
        lemma_attempts(answers.drop_last());
    }
}

// ---------------------------------------------------------------------------
// The agent
// ---------------------------------------------------------------------------

/// An agent backed by a Copilot Studio bot. The conversation of a session is kept
/// in its conversation identifier.
pub struct CopilotStudioAgent {
    pub id: String,
    pub name: Option<String>,
    pub description: Option<String>,
    pub client: CopilotStudioClient,
}

impl CopilotStudioAgent {
    /// An agent with a fresh identifier and without a name.
    pub fn new(client: CopilotStudioClient) -> (agent: Self)
        ensures
            is_uuid(agent.id@),
            agent.name is None,
            agent.description is None,
            agent.client == client,
    {
        CopilotStudioAgent { id: fresh_id(), name: None, description: None, client }
    }

    /// Set a friendly name.
    pub fn with_name(self, name: &str) -> (agent: Self)
        ensures
            agent.name.deep_view() == Some(name@),
            agent == (CopilotStudioAgent { name: agent.name, ..self }),
    {
        CopilotStudioAgent { name: Some(name.to_owned()), ..self }
    }

    /// Set a description.
    pub fn with_description(self, description: &str) -> (agent: Self)
        ensures
            agent.description.deep_view() == Some(description@),
            agent == (CopilotStudioAgent { description: agent.description, ..self }),
    {
        CopilotStudioAgent { description: Some(description.to_owned()), ..self }
    }

    /// The inner client.
    pub fn client(&self) -> (client: &CopilotStudioClient)
        ensures
            *client == self.client,
    {
        &self.client
    }

    /// The text that is sent for a run, `None` where there is nothing to send: the
    /// texts of the messages, one to a line, without those that are empty.
    pub fn to_send(messages: &Vec<Message>) -> (text: Option<String>)
        ensures
            text.deep_view() == if spoken_texts(messages.deep_view(), true).len() == 0 {
                None
            } else {
                Some(joined(spoken_texts(messages.deep_view(), true), "\n"@))
            },
    {
        let texts = collect_spoken(messages, true);
        if texts.len() == 0 {
            None
        } else {
            Some(join(&texts, "\n"))
        }
    }

    /// The response to a run: the input and the reply.
    pub fn response(messages: Vec<Message>, reply: &str) -> (response: AgentResponse)
        ensures
            response@ == replied(messages.deep_view(), reply@),
    {
        AgentResponse::of_reply(messages, reply)
    }

    /// What asking for a stream is answered.
    pub fn stream_error() -> (error: AgentError)
        ensures
            error@ == ErrorView::Unimplemented("streaming is not yet implemented for CopilotStudioAgent"@),
    {
        AgentError::Unimplemented("streaming is not yet implemented for CopilotStudioAgent".to_owned())
    }
}

/// A reply is a message that somebody else than the user has written and that says
/// something; the replies are told in order, each as it is.
pub proof fn law_replies_are_others_messages(
    first: Seq<InboundActivityView>,
    activity: InboundActivityView,
    user_id: Seq<char>,
)
    ensures
        reply_texts(Seq::empty(), user_id).len() == 0,
        ({
            let says = activity.kind == "message"@ && activity.text is Some && activity.text->0.len() > 0;
            let own = activity.from is Some && activity.from->0 == user_id;
            &&& says && !own ==> reply_texts(first.push(activity), user_id) == reply_texts(first, user_id).push(
                activity.text->0,
            )
            &&& !says || own ==> reply_texts(first.push(activity), user_id) == reply_texts(first, user_id)
        }),
{
    assert(first.push(activity).drop_last() =~= first);
}

/// Polling starts with nothing and goes on as long as no reply has come and there are
/// attempts left. An answer takes an attempt, adds its replies, and its watermark, if it
/// has one, is where the next poll goes on.
pub proof fn law_answers_are_taken(poll: ReplyPollView, replies: Seq<Seq<char>>, watermark: Option<Seq<char>>)
    ensures
        no_answer_yet().attempts == 0,
        no_answer_yet().watermark is None,
        no_answer_yet().replies.len() == 0,
        wants_poll(poll) <==> poll.replies.len() == 0 && poll.attempts < 30,
        after_answer(poll, replies, watermark).attempts == poll.attempts + 1,
        after_answer(poll, replies, watermark).replies == poll.replies + replies,
        watermark is Some ==> after_answer(poll, replies, watermark).watermark == watermark,
        watermark is None ==> after_answer(poll, replies, watermark).watermark == poll.watermark,
{
}

/// Conversations are found below the endpoint, whether or not it ends in a slash.
pub proof fn law_conversations_url(endpoint: Seq<char>)
    ensures
        endpoint.len() == 0 || endpoint.last() != '/' ==> conversations(endpoint) == endpoint
            + "/v3/directline/conversations"@,
        conversations(endpoint.push('/')) == conversations(endpoint),
{
    assert(endpoint.push('/').drop_last() =~= endpoint);
}

/// The models of activities and of the polling have all that these hold.
pub proof fn law_activity_model_is_complete(activity: InboundActivity, poll: ReplyPoll)
    ensures
        activity@.kind == activity.kind@,
        activity@.text == activity.text.deep_view(),
        activity.from is None ==> activity@.from is None,
        activity.from matches Some(from) ==> activity@.from == from.id.deep_view(),
        poll@.attempts == poll.attempts,
        poll@.watermark == poll.watermark.deep_view(),
        poll@.replies == poll.replies.deep_view(),
{
}

} // verus!
