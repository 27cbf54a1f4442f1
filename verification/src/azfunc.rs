//! Hosting an agent as a custom handler of Azure Functions.

use vstd::prelude::*;

use crate::error::{error_text, AgentError, AgentResult, ErrorView};
use crate::ids::is_uuid;
use crate::json::{rendered, Json, JsonObject, JsonView};
use crate::session::AgentSession;
use crate::table::Table;
use crate::text::{cat2, chars_of, decimal, decimal_of, digit, lemma_decimal_digits};
use crate::types::Message;

verus! {

/// Environment variable with the port to bind to.
pub const FUNCTIONS_CUSTOMHANDLER_PORT_ENV: &'static str = "FUNCTIONS_CUSTOMHANDLER_PORT";

/// Configuration for the Azure Functions custom handler host.
#[derive(Debug)]
pub struct AzureFunctionsConfig {
    /// The port to bind to.
    pub port: u16,
}

/// Whether a character is a decimal digit.
pub open spec fn is_digit(c: char) -> bool {
    '0' <= c <= '9'
}

/// The number that digits denote.
pub open spec fn number_of(digits: Seq<char>) -> nat
    decreases digits.len(),
{
    if digits.len() == 0 {
        0
    } else {
        number_of(digits.drop_last()) * 10 + ((digits.last() as int - '0' as int) as nat)
    }
}

/// The digits of a number: what follows a plus sign, if there is one.
pub open spec fn unsigned_digits(text: Seq<char>) -> Seq<char> {
    if text.len() > 0 && text[0] == '+' {
        text.skip(1)
    } else {
        text
    }
}

/// The port that a text denotes: one or more digits, with or without a plus sign,
/// whose number fits.
pub open spec fn port_of(text: Seq<char>) -> Option<u16> {
    let digits = unsigned_digits(text);
    if digits.len() > 0 && (forall|i: int| 0 <= i < digits.len() ==> is_digit(#[trigger] digits[i])) && number_of(digits)
        <= u16::MAX {
        Some(number_of(digits) as u16)
    } else {
        None
    }
}

/// The port that a text denotes.
pub fn parse_port(text: &str) -> (port: Option<u16>)
    ensures
        port == port_of(text@),
{
    let chars = chars_of(text);
    let start: usize = if chars.len() > 0 && chars[0] == '+' {
        1
    } else {
        0
    };
    let ghost digits = unsigned_digits(text@);
    assert(digits =~= chars@.skip(start as int));
    if chars.len() == start {
        return None;
    }
    let mut value: u32 = 0;
    let mut over = false;
    let mut i: usize = start;
    assert(digits.take(0) =~= Seq::empty());
    while i < chars.len()
        invariant
            start <= i <= chars@.len(),
            digits == chars@.skip(start as int),
            digits == unsigned_digits(text@),
            forall|j: int| 0 <= j < i - start ==> is_digit(#[trigger] digits[j]),
            over ==> number_of(digits.take(i - start)) > u16::MAX,
            !over ==> value == number_of(digits.take(i - start)) && value <= u16::MAX,
        decreases chars@.len() - i,
    {
        let c = chars[i];
        assert(digits[i - start] == c);
        if c < '0' || c > '9' {
            assert(!is_digit(digits[i - start]));
            return None;
        }
        assert(digits.take(i - start + 1).drop_last() =~= digits.take(i - start));
        if !over {
            value = value * 10 + (c as u32 - '0' as u32);
            if value > 65535 {
                over = true;
            }
        }
        i += 1;
    }
    assert(digits.take(i - start) =~= digits);
    if over {
        None
    } else {
        Some(value as u16)
    }
}

impl AzureFunctionsConfig {
    /// Read the port from the value of the environment variable
    /// `FUNCTIONS_CUSTOMHANDLER_PORT`, with 8080 in place of what is not a port.
    pub fn from_env(port: Option<String>) -> (config: Self)
        ensures
            config.port == match port {
                Some(text) => match port_of(text@) {
                    Some(port) => port,
                    None => 8080,
                },
                None => 8080,
            },
    {
        let parsed = match port {
            Some(text) => parse_port(text.as_str()),
            None => None,
        };
        AzureFunctionsConfig {
            port: match parsed {
                Some(port) => port,
                None => 8080,
            },
        }
    }
}

// ---------------------------------------------------------------------------
// Envelopes
// ---------------------------------------------------------------------------

/// The HTTP trigger of a request.
#[derive(Debug)]
pub struct AzureFunctionsHttpRequest {
    /// The body, as JSON text.
    pub body: String,
    /// The headers.
    pub headers: Table<String>,
    /// The HTTP method.
    pub method: Option<String>,
    /// The URL.
    pub url: Option<String>,
}

/// The data of a request.
#[derive(Debug)]
pub struct AzureFunctionsRequestData {
    /// The HTTP trigger.
    pub req: AzureFunctionsHttpRequest,
}

/// A request as the host sends it.
#[derive(Debug)]
pub struct AzureFunctionsRequest {
    /// The data of the bindings.
    pub data: AzureFunctionsRequestData,
    /// Metadata of the invocation.
    pub metadata: JsonObject,
}

/// The HTTP response within a response.
#[derive(Debug)]
pub struct AzureFunctionsHttpResponse {
    /// The body, mostly JSON text.
    pub body: String,
    /// The status code, as text.
    pub status_code: String,
    /// The headers.
    pub headers: Table<String>,
}

/// The outputs of a response.
#[derive(Debug)]
pub struct AzureFunctionsResponseOutputs {
    /// The HTTP response.
    pub res: AzureFunctionsHttpResponse,
}

/// A response as the host expects it.
#[derive(Debug)]
pub struct AzureFunctionsResponse {
    /// The outputs of the bindings.
    pub outputs: AzureFunctionsResponseOutputs,
    /// Lines for the logs of the host.
    pub logs: Vec<String>,
    /// The return value, which is not used.
    pub return_value: Option<Json>,
}

/// What a response holds.
#[verifier::ext_equal]
pub struct AzureFunctionsResponseView {
    pub body: Seq<char>,
    pub status_code: Seq<char>,
    pub headers: Map<Seq<char>, Seq<char>>,
    pub logs: Seq<Seq<char>>,
    pub return_value: Option<JsonView>,
}

impl View for AzureFunctionsResponse {
    type V = AzureFunctionsResponseView;

    open spec fn view(&self) -> AzureFunctionsResponseView {
        AzureFunctionsResponseView {
            body: self.outputs.res.body@,
            status_code: self.outputs.res.status_code@,
            headers: self.outputs.res.headers@,
            logs: self.logs.deep_view(),
            return_value: self.return_value.deep_view(),
        }
    }
}

/// A JSON response.
pub open spec fn json_response(status: u16, body: Seq<char>) -> AzureFunctionsResponseView {
    AzureFunctionsResponseView {
        body,
        status_code: decimal(status as nat),
        headers: Map::<Seq<char>, Seq<char>>::empty().insert("Content-Type"@, "application/json"@),
        logs: Seq::empty(),
        return_value: None,
    }
}

/// The body that reports an error.
pub open spec fn error_body(message: Seq<char>) -> JsonView {
    let empty = Map::<Seq<char>, JsonView>::empty();
    JsonView::Object(
        empty.insert(
            "error"@,
            JsonView::Object(
                empty.insert("message"@, JsonView::Text(message)).insert("type"@, JsonView::Text("agent_error"@)),
            ),
        ),
    )
}

impl AzureFunctionsResponse {
    /// A JSON success response.
    pub fn ok_json(body: &str) -> (response: Self)
        ensures
            response@ == json_response(200, body@),
    {
        Self::json(200, body)
    }

    /// A JSON response with the given status code.
    pub fn json(status: u16, body: &str) -> (response: Self)
        ensures
            response@ == json_response(status, body@),
    {
        let mut headers: Table<String> = Table::new();
        headers.insert("Content-Type", "application/json".to_owned());
        let response = AzureFunctionsResponse {
            outputs: AzureFunctionsResponseOutputs {
                res: AzureFunctionsHttpResponse {
                    body: body.to_owned(),
                    status_code: decimal_of(status as u64),
                    headers,
                },
            },
            logs: Vec::new(),
            return_value: None,
        };
        assert(response@ =~= json_response(status, body@));
        response
    }

    /// An error response with the given status code.
    pub fn error(status: u16, message: &str) -> (response: Self)
        ensures
            response@ == json_response(status, rendered(error_body(message@))),
    {
        let detail = Json::Object(
            JsonObject::new().with("message", Json::text(message)).with("type", Json::text("agent_error")),
        );
        let body = Json::Object(JsonObject::new().with("error", detail));
        Self::json(status, body.to_text().as_str())
    }
}

/// The body that clients pass through the trigger.
#[derive(Debug)]
pub struct AgentInvokeBody {
    /// Messages for the agent.
    pub messages: Vec<Message>,
    /// Session identifier.
    pub session_id: Option<String>,
}

impl AgentInvokeBody {
    /// The session that the agent is run in.
    pub fn session(&self) -> (session: AgentSession)
        ensures
            match self.session_id {
                Some(id) => session.session_id@ == id@,
                None => is_uuid(session.session_id@),
            },
            session.conversation_id is None,
            session.state@ == Map::<Seq<char>, JsonView>::empty(),
    {
        AgentSession::with_id(
            match &self.session_id {
                Some(id) => Some(id.clone()),
                None => None,
            },
        )
    }
}

/// The status that an error is answered with.
pub open spec fn status_for(error: ErrorView) -> u16 {
    match error {
        ErrorView::InvalidRequest(_) => 400,
        ErrorView::ProviderError { status_code, .. } => match status_code {
            Some(code) => code,
            None => 502,
        },
        _ => 500,
    }
}

/// The response to a body that cannot be read, given the reader's message.
pub fn invalid_body(message: &str) -> (response: AzureFunctionsResponse)
    ensures
        response@ == json_response(400, rendered(error_body("invalid request body: "@ + message@))),
{
    AzureFunctionsResponse::error(400, cat2("invalid request body: ", message).as_str())
}

/// The response to a run, given the text of what the agent has answered or why it
/// has failed.
pub fn respond(outcome: AgentResult<String>) -> (response: AzureFunctionsResponse)
    ensures
        response@ == match outcome {
            Ok(text) => json_response(200, text@),
            Err(error) => json_response(status_for(error@), rendered(error_body(error_text(error@)))),
        },
{
    match outcome {
        Ok(text) => AzureFunctionsResponse::ok_json(text.as_str()),
        Err(error) => {
            let status: u16 = match &error {
                AgentError::InvalidRequest(_) => 400,
                AgentError::ProviderError { status_code, .. } => match status_code {
                    Some(code) => *code,
                    None => 502,
                },
                _ => 500,
            };
            AzureFunctionsResponse::error(status, error.to_text().as_str())
        },
    }
}

/// The body of the answer to a health probe.
pub fn health_body() -> (body: Json)
    ensures
        body@ == JsonView::Object(Map::<Seq<char>, JsonView>::empty().insert("status"@, JsonView::Text("ok"@))),
{
    Json::Object(JsonObject::new().with("status", Json::text("ok")))
}

// ---------------------------------------------------------------------------
// Laws of the custom handler
// ---------------------------------------------------------------------------

proof fn lemma_number_of_decimal(n: nat)
    ensures
        number_of(decimal(n)) == n,
        decimal(n).len() > 0,
    decreases n,
{
    if n < 10 {
        let one = seq![digit(n)];
        assert(one.drop_last() =~= Seq::empty());
        assert(number_of(one.drop_last()) == 0);
        assert(decimal(n) == one);
        assert(one.last() == digit(n));
    } else {
        lemma_number_of_decimal(n / 10);
        let text = decimal(n / 10).push(digit(n % 10));
        assert(text.drop_last() =~= decimal(n / 10));
        assert(decimal(n) == text);
        assert(text.last() == digit(n % 10));
    }
}

/// A port is read from its decimal digits, with or without a plus sign. What is too
/// large is no port, nor is a text with anything else in it, nor an empty one.
pub proof fn law_ports_are_read(n: nat, text: Seq<char>, i: int)
    ensures
        n <= u16::MAX ==> port_of(decimal(n)) == Some(n as u16),
        n <= u16::MAX ==> port_of(seq!['+'] + decimal(n)) == Some(n as u16),
        n > u16::MAX ==> port_of(decimal(n)) is None,
        text.len() == 0 ==> port_of(text) is None,
        0 < i < text.len() && !('0' <= text[i] <= '9') ==> port_of(text) is None,
        text.len() > 0 && !('0' <= text[0] <= '9') && text[0] != '+' ==> port_of(text) is None,
{
    lemma_number_of_decimal(n);
    lemma_decimal_digits(n);
    let digits = decimal(n);
    assert('0' <= digits[0] <= '9');
    assert(unsigned_digits(digits) == digits);
    assert forall|k: int| 0 <= k < digits.len() implies is_digit(#[trigger] digits[k]) by {}
    assert((seq!['+'] + digits).skip(1) =~= digits);
    if 0 < i < text.len() && !('0' <= text[i] <= '9') {
        let rest = unsigned_digits(text);
        if text[0] == '+' {
            assert(rest[i - 1] == text[i]);
        } else {
            assert(rest[i] == text[i]);
        }
    }
    if text.len() > 0 && !('0' <= text[0] <= '9') && text[0] != '+' {
        assert(unsigned_digits(text)[0] == text[0]);
    }
}

/// Digits are read as the number that they denote, from the left on, however many zeros
/// they start with; a plus sign alone is no port.
pub proof fn law_digits_denote_ports(digits: Seq<char>, c: char)
    requires
        forall|i: int| 0 <= i < digits.len() ==> '0' <= #[trigger] digits[i] <= '9',
        '0' <= c <= '9',
    ensures
        number_of(Seq::empty()) == 0,
        number_of(digits.push(c)) == 10 * number_of(digits) + (c as int - 48),
        digits.len() > 0 ==> port_of(digits) == if number_of(digits) <= 65535 {
            Some(number_of(digits) as u16)
        } else {
            None
        },
        port_of(seq!['+']) is None,
{
    assert(digits.push(c).drop_last() =~= digits);
    assert forall|i: int| 0 <= i < digits.len() implies is_digit(#[trigger] digits[i]) by {}
    assert(seq!['+'].skip(1) =~= Seq::empty());
}

/// A response carries the body and the status that it is given, as JSON, and logs
/// nothing.
pub proof fn law_responses_carry_their_body(status: u16, body: Seq<char>)
    ensures
        json_response(status, body).body == body,
        json_response(status, body).status_code == decimal(status as nat),
        json_response(status, body).headers == map!["Content-Type"@ => "application/json"@],
        json_response(status, body).logs.len() == 0,
        json_response(status, body).return_value is None,
{
}

/// The body of an error says its message and that it is an agent's error.
pub proof fn law_error_bodies_say_the_message(message: Seq<char>)
    ensures
        error_body(message) is Object,
        error_body(message)->Object_0["error"@] is Object,
        error_body(message)->Object_0["error"@]->Object_0["message"@] == JsonView::Text(message),
        error_body(message)->Object_0["error"@]->Object_0["type"@] == JsonView::Text("agent_error"@),
{
    reveal_strlit("message");
    reveal_strlit("type");
    assert("message"@.len() != "type"@.len());
}

/// A bad request is the client's fault; the status of a provider is handed on, and
/// without one the gateway is to blame; the rest is the server's fault.
pub proof fn law_errors_are_blamed(message: Seq<char>, name: Seq<char>, code: u16)
    ensures
        status_for(ErrorView::InvalidRequest(message)) == 400,
        status_for(ErrorView::ProviderError { message, status_code: Some(code) }) == code,
        status_for(ErrorView::ProviderError { message, status_code: None }) == 502,
        status_for(ErrorView::InvalidResponse(message)) == 500,
        status_for(ErrorView::ToolError { tool_name: name, message }) == 500,
        status_for(ErrorView::SerializationError(message)) == 500,
        status_for(ErrorView::HttpError(message)) == 500,
        status_for(ErrorView::Unimplemented(message)) == 500,
        status_for(ErrorView::Other(message)) == 500,
{
}

/// The model of a response has all that the response holds.
pub proof fn law_response_model_is_complete(response: AzureFunctionsResponse)
    ensures
        response@.body == response.outputs.res.body@,
        response@.status_code == response.outputs.res.status_code@,
        response@.headers == response.outputs.res.headers@,
        response@.logs == response.logs.deep_view(),
        response@.return_value == response.return_value.deep_view(),
{
}

} // verus!
