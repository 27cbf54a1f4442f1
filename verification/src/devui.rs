//! The development UI: a page to talk to agents, and the bodies that it exchanges.

use vstd::prelude::*;

use crate::error::{error_text, AgentError};
use crate::text::{cat3, cat5};
use crate::types::{
    law_text_message_says_its_text, role_name, role_named, text_message, text_of, AgentResponse, Message, MessageView,
};

verus! {

/// Configuration for the development UI server.
#[derive(Debug)]
pub struct DevServerConfig {
    /// The host address to bind to.
    pub host: String,
    /// The port to listen on.
    pub port: u16,
    /// The title of the page.
    pub title: String,
}

impl Default for DevServerConfig {
    fn default() -> (config: Self)
        ensures
            config.host@ == "127.0.0.1"@,
            config.port == 3000,
            config.title@ == "Agent Framework Dev UI"@,
    {
        DevServerConfig {
            host: "127.0.0.1".to_owned(),
            port: 3000,
            title: "Agent Framework Dev UI".to_owned(),
        }
    }
}

/// Information about an available agent.
#[derive(Debug)]
pub struct AgentInfo {
    /// The agent's identifier.
    pub id: String,
    /// The agent's name.
    pub name: Option<String>,
    /// What the agent is for.
    pub description: Option<String>,
}

/// A message in a run request.
#[derive(Debug)]
pub struct RunRequestMessage {
    /// The role of the author.
    pub role: String,
    /// The text.
    pub content: String,
}

impl View for RunRequestMessage {
    type V = (Seq<char>, Seq<char>);

    open spec fn view(&self) -> (Seq<char>, Seq<char>) {
        (self.role@, self.content@)
    }
}

impl DeepView for RunRequestMessage {
    type V = (Seq<char>, Seq<char>);

    open spec fn deep_view(&self) -> (Seq<char>, Seq<char>) {
        self@
    }
}

/// Request body for running an agent.
#[derive(Debug)]
pub struct RunRequest {
    /// The messages to send.
    pub messages: Vec<RunRequestMessage>,
}

/// A message in a run response.
#[derive(Debug)]
pub struct RunResponseMessage {
    /// The role of the author.
    pub role: String,
    /// The text.
    pub content: String,
}

impl View for RunResponseMessage {
    type V = (Seq<char>, Seq<char>);

    open spec fn view(&self) -> (Seq<char>, Seq<char>) {
        (self.role@, self.content@)
    }
}

impl DeepView for RunResponseMessage {
    type V = (Seq<char>, Seq<char>);

    open spec fn deep_view(&self) -> (Seq<char>, Seq<char>) {
        self@
    }
}

/// Response to a run that is not streamed.
#[derive(Debug)]
pub struct RunResponse {
    /// The agent's text.
    pub text: String,
    /// All messages of the run.
    pub messages: Vec<RunResponseMessage>,
}

/// Error response body.
#[derive(Debug)]
pub struct ErrorResponse {
    /// A human-readable error message.
    pub error: String,
}

/// The messages that messages of a request stand for.
pub open spec fn request_messages(messages: Seq<(Seq<char>, Seq<char>)>) -> Seq<MessageView> {
    Seq::new(messages.len(), |i: int| text_message(role_named(messages[i].0), messages[i].1))
}

/// The messages that messages of a request stand for.
pub fn convert_messages(messages: &Vec<RunRequestMessage>) -> (out: Vec<Message>)
    ensures
        out.deep_view() == request_messages(messages.deep_view()),
{
    let mut out: Vec<Message> = Vec::new();
    let ghost all = request_messages(messages.deep_view());
    let mut i: usize = 0;
    assert(out.deep_view() =~= all.take(0));
    while i < messages.len()
        invariant
            i <= messages@.len(),
            all == request_messages(messages.deep_view()),
            out.deep_view() == all.take(i as int),
        decreases messages@.len() - i,
    {
        let ghost before = out.deep_view();
        out.push(Message::of_role_name(messages[i].role.as_str(), messages[i].content.as_str()));
        assert(messages.deep_view()[i as int] == messages@[i as int]@);
        assert(out.deep_view() =~= before.push(all[i as int]));
        assert(all.take(i + 1) =~= before.push(all[i as int]));
        i += 1;
    }
    assert(all.take(i as int) =~= all);
    out
}

impl RunResponse {
    /// The body that reports a response: its text, and of each message the role and
    /// the text.
    pub fn of_response(response: &AgentResponse) -> (body: Self)
        ensures
            body.text@ == response@.text,
            body.messages.deep_view() == Seq::new(
                response@.messages.len(),
                |i: int| (role_name(response@.messages[i].role), text_of(response@.messages[i].content)),
            ),
    {
        let mut messages: Vec<RunResponseMessage> = Vec::new();
        let ghost views = response@.messages;
        let ghost all = Seq::new(views.len(), |i: int| (role_name(views[i].role), text_of(views[i].content)));
        let mut i: usize = 0;
        assert(messages.deep_view() =~= all.take(0));
        while i < response.messages.len()
            invariant
                i <= response.messages@.len(),
                views == response.messages.deep_view(),
                all == Seq::new(views.len(), |i: int| (role_name(views[i].role), text_of(views[i].content))),
                messages.deep_view() == all.take(i as int),
            decreases response.messages@.len() - i,
        {
            let ghost before = messages.deep_view();
            messages.push(
                RunResponseMessage {
                    role: response.messages[i].role.name().to_owned(),
                    content: response.messages[i].text(),
                },
            );
            assert(views[i as int] == response.messages@[i as int]@);
            assert(messages.deep_view() =~= before.push(all[i as int]));
            assert(all.take(i + 1) =~= before.push(all[i as int]));
            i += 1;
        }
        assert(all.take(i as int) =~= all);
        RunResponse { text: response.text.clone(), messages }
    }
}

impl ErrorResponse {
    /// The status and the body for an agent that is not there.
    pub fn not_found(id: &str) -> (answer: (u16, Self))
        ensures
            answer.0 == 404,
            answer.1.error@ == "Agent '"@ + id@ + "' not found"@,
    {
        (404, ErrorResponse { error: cat3("Agent '", id, "' not found") })
    }

    /// The status and the body for a run that has failed.
    pub fn run_failed(error: &AgentError) -> (answer: (u16, Self))
        ensures
            answer.0 == 500,
            answer.1.error@ == error_text(error@),
    {
        (500, ErrorResponse { error: error.to_text() })
    }
}

/// The page up to its title.
pub const PAGE_HEAD: &'static str = r#"<!DOCTYPE html>
<html lang="en">
<head>
<meta charset="UTF-8">
<meta name="viewport" content="width=device-width, initial-scale=1.0">
<title>"#;

/// The page between its title and its heading.
pub const PAGE_STYLE: &'static str = r#"</title>
<style>
  * { margin: 0; padding: 0; box-sizing: border-box; }
  body { font-family: -apple-system, BlinkMacSystemFont, "Segoe UI", Roboto, sans-serif; background: #f5f5f5; height: 100vh; display: flex; flex-direction: column; }
  header { background: #0078d4; color: white; padding: 16px 24px; }
  header h1 { font-size: 1.2em; font-weight: 600; }
  .container { flex: 1; display: flex; overflow: hidden; }
  .sidebar { width: 250px; background: white; border-right: 1px solid #ddd; padding: 16px; overflow-y: auto; }
  .sidebar h2 { font-size: 0.9em; text-transform: uppercase; color: #666; margin-bottom: 12px; }
  .agent-btn { display: block; width: 100%; padding: 10px 12px; margin-bottom: 8px; border: 1px solid #ddd; border-radius: 6px; background: white; cursor: pointer; text-align: left; }
  .agent-btn:hover { background: #f0f0f0; }
  .agent-btn.active { border-color: #0078d4; background: #e8f4fd; }
  .agent-name { font-weight: 600; font-size: 0.95em; }
  .agent-desc { font-size: 0.8em; color: #666; margin-top: 4px; }
  .chat { flex: 1; display: flex; flex-direction: column; }
  .messages { flex: 1; overflow-y: auto; padding: 24px; }
  .message { margin-bottom: 16px; max-width: 80%; }
  .message.user { margin-left: auto; }
  .message .bubble { padding: 10px 14px; border-radius: 12px; font-size: 0.95em; line-height: 1.5; }
  .message.user .bubble { background: #0078d4; color: white; }
  .message.assistant .bubble { background: white; border: 1px solid #ddd; }
  .input-area { padding: 16px 24px; background: white; border-top: 1px solid #ddd; display: flex; gap: 8px; }
  .input-area input { flex: 1; padding: 10px 14px; border: 1px solid #ddd; border-radius: 8px; font-size: 0.95em; }
  .input-area button { padding: 10px 20px; background: #0078d4; color: white; border: none; border-radius: 8px; cursor: pointer; font-size: 0.95em; }
  .input-area button:disabled { background: #ccc; }
  .placeholder { display: flex; align-items: center; justify-content: center; flex: 1; color: #999; }
</style>
</head>
<body>
<header><h1>"#;

/// The page after its heading.
pub const PAGE_BODY: &'static str = r#"</h1></header>
<div class="container">
  <div class="sidebar">
    <h2>Agents</h2>
    <div id="agent-list"></div>
  </div>
  <div class="chat" id="chat">
    <div class="placeholder">Select an agent to start chatting</div>
  </div>
</div>
<script>
let currentAgent = null;
const agentList = document.getElementById('agent-list');
const chat = document.getElementById('chat');

async function loadAgents() {
  const res = await fetch('/api/agents');
  const agents = await res.json();
  agentList.innerHTML = '';
  agents.forEach(a => {
    const btn = document.createElement('button');
    btn.className = 'agent-btn';
    btn.innerHTML = '<div class="agent-name">' + (a.name || a.id) + '</div>' +
      (a.description ? '<div class="agent-desc">' + a.description + '</div>' : '');
    btn.onclick = () => selectAgent(a, btn);
    agentList.appendChild(btn);
  });
}

function selectAgent(agent, btn) {
  currentAgent = agent;
  document.querySelectorAll('.agent-btn').forEach(b => b.classList.remove('active'));
  btn.classList.add('active');
  chat.innerHTML = '<div class="messages" id="messages"></div>' +
    '<div class="input-area"><input id="input" placeholder="Type a message..." />' +
    '<button id="send" onclick="sendMessage()">Send</button></div>';
  document.getElementById('input').addEventListener('keydown', e => {
    if (e.key === 'Enter') sendMessage();
  });
}

function addMessage(role, text) {
  const msgs = document.getElementById('messages');
  const div = document.createElement('div');
  div.className = 'message ' + role;
  div.innerHTML = '<div class="bubble">' + text.replace(/</g, '&lt;').replace(/>/g, '&gt;') + '</div>';
  msgs.appendChild(div);
  msgs.scrollTop = msgs.scrollHeight;
  return div;
}

async function sendMessage() {
  if (!currentAgent) return;
  const input = document.getElementById('input');
  const text = input.value.trim();
  if (!text) return;
  input.value = '';
  addMessage('user', text);
  const sendBtn = document.getElementById('send');
  sendBtn.disabled = true;
  try {
    const res = await fetch('/api/agents/' + currentAgent.id + '/run', {
      method: 'POST',
      headers: { 'Content-Type': 'application/json' },
      body: JSON.stringify({ messages: [{ role: 'user', content: text }] })
    });
    const data = await res.json();
    if (data.error) { addMessage('assistant', 'Error: ' + data.error); }
    else { addMessage('assistant', data.text); }
  } catch (e) {
    addMessage('assistant', 'Error: ' + e.message);
  }
  sendBtn.disabled = false;
  input.focus();
}

loadAgents();
</script>
</body>
</html>"#;

/// The page, with its title in the title and in the heading.
pub fn build_index_html(title: &str) -> (page: String)
    ensures
        page@ == PAGE_HEAD@ + title@ + PAGE_STYLE@ + title@ + PAGE_BODY@,
{
    cat5(PAGE_HEAD, title, PAGE_STYLE, title, PAGE_BODY)
}

/// The agent is run with the messages of a request, in order, each with its text and in
/// the role of its name.
pub proof fn law_input_is_kept(
    messages: Seq<(Seq<char>, Seq<char>)>,
    asked: RunRequestMessage,
    told: RunResponseMessage,
)
    ensures
        request_messages(messages).len() == messages.len(),
        forall|i: int|
            #![trigger request_messages(messages)[i]]
            0 <= i < messages.len() ==> {
                &&& request_messages(messages)[i].role == role_named(messages[i].0)
                &&& text_of(request_messages(messages)[i].content) == messages[i].1
            },
        asked@.0 == asked.role@,
        asked@.1 == asked.content@,
        told@.0 == told.role@,
        told@.1 == told.content@,
{
    assert forall|i: int| #![trigger request_messages(messages)[i]] 0 <= i < messages.len() implies {
        &&& request_messages(messages)[i].role == role_named(messages[i].0)
        &&& text_of(request_messages(messages)[i].content) == messages[i].1
    } by {
        law_text_message_says_its_text(role_named(messages[i].0), messages[i].1);
    }
}

} // verus!
