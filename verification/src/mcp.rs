//! The Model Context Protocol: requests to a server, and its tools.

use vstd::prelude::*;

use crate::counter::{next_count, take_count};
use crate::error::{AgentError, AgentResult, ErrorView};
use crate::json::{member, Json, JsonObject, JsonView};
use crate::text::{cat4, chars_of, decimal_int, decimal_of_signed, string_of};
use crate::tools::{
    bad_name_error, empty_schema, is_name_char, is_tool_name, name_char, no_parameters, ToolDefinition,
    ToolDefinitionView,
};

verus! {

/// A JSON-RPC 2.0 request.
#[derive(Debug)]
pub struct JsonRpcRequest {
    /// The version of JSON-RPC.
    pub jsonrpc: String,
    /// Identifier of the request.
    pub id: u64,
    /// The method to invoke.
    pub method: String,
    /// Parameters for the method.
    pub params: Option<Json>,
}

/// What a request holds.
#[verifier::ext_equal]
pub struct JsonRpcRequestView {
    pub jsonrpc: Seq<char>,
    pub id: u64,
    pub method: Seq<char>,
    pub params: Option<JsonView>,
}

impl View for JsonRpcRequest {
    type V = JsonRpcRequestView;

    open spec fn view(&self) -> JsonRpcRequestView {
        JsonRpcRequestView {
            jsonrpc: self.jsonrpc@,
            id: self.id,
            method: self.method@,
            params: self.params.deep_view(),
        }
    }
}

impl JsonRpcRequest {
    /// Create a new JSON-RPC 2.0 request.
    pub fn new(id: u64, method: &str, params: Option<Json>) -> (request: Self)
        ensures
            request@ == (JsonRpcRequestView {
                jsonrpc: "2.0"@,
                id,
                method: method@,
                params: params.deep_view(),
            }),
    {
        JsonRpcRequest { jsonrpc: "2.0".to_owned(), id, method: method.to_owned(), params }
    }
}

/// A JSON-RPC 2.0 error.
#[derive(Debug)]
pub struct JsonRpcError {
    /// A numeric code.
    pub code: i64,
    /// A short description.
    pub message: String,
}

/// A JSON-RPC 2.0 response.
#[derive(Debug)]
pub struct JsonRpcResponse {
    /// The version of JSON-RPC.
    pub jsonrpc: String,
    /// Identifier of the request that this answers.
    pub id: u64,
    /// The result of a success.
    pub result: Option<Json>,
    /// The error of a failure.
    pub error: Option<JsonRpcError>,
}

impl JsonRpcResponse {
    /// The result of the request: an error comes before a result, and neither is null.
    pub fn outcome(self) -> (result: AgentResult<Json>)
        ensures
            match self.error {
                Some(error) => {
                    &&& result is Err
                    &&& result->Err_0@ == ErrorView::HttpError(
                        "MCP JSON-RPC error "@ + decimal_int(error.code as int) + ": "@ + error.message@,
                    )
                },
                None => {
                    &&& result is Ok
                    &&& result->Ok_0@ == match self.result {
                        Some(value) => value@,
                        None => JsonView::Null,
                    }
                },
            },
    {
        match self.error {
            Some(error) => {
                let code = decimal_of_signed(error.code);
                Err(
                    AgentError::HttpError(
                        cat4("MCP JSON-RPC error ", code.as_str(), ": ", error.message.as_str()),
                    ),
                )
            },
            None => match self.result {
                Some(value) => Ok(value),
                None => Ok(Json::Null),
            },
        }
    }
}

// ---------------------------------------------------------------------------
// Reading answers
// ---------------------------------------------------------------------------

/// What a line of the server's output is.
#[derive(Debug)]
pub enum LineRead {
    /// There is no line: the output is closed.
    Closed,
    /// Nothing, or something that is no response, such as a notification.
    Other,
    /// A response.
    Response(JsonRpcResponse),
}

/// What a line of the server's output means for the request that waits: the answer
/// to it ends the wait, an answer to another request and everything else is passed
/// over, and a closed output is an error.
pub open spec fn line_meaning(expected_id: u64, line: LineRead) -> Result<Option<JsonRpcResponse>, ErrorView> {
    match line {
        LineRead::Closed => Err(ErrorView::HttpError("MCP process closed stdout unexpectedly"@)),
        LineRead::Other => Ok(None),
        LineRead::Response(response) => if response.id == expected_id {
            Ok(Some(response))
        } else {
            Ok(None)
        },
    }
}

/// What a line of the server's output means for the request that waits.
pub fn on_line(expected_id: u64, line: LineRead) -> (result: AgentResult<Option<JsonRpcResponse>>)
    ensures
        match line_meaning(expected_id, line) {
            Ok(response) => result == Ok::<Option<JsonRpcResponse>, AgentError>(response),
            Err(error) => result is Err && result->Err_0@ == error,
        },
{
    match line {
        LineRead::Closed => Err(AgentError::HttpError("MCP process closed stdout unexpectedly".to_owned())),
        LineRead::Other => Ok(None),
        LineRead::Response(response) => if response.id == expected_id {
            Ok(Some(response))
        } else {
            Ok(None)
        },
    }
}

/// What a request gets out of the lines that follow it, and the lines that are left;
/// `None` while it waits for more.
pub open spec fn answer_among(
    expected_id: u64,
    lines: Seq<LineRead>,
) -> Option<(Result<JsonRpcResponse, ErrorView>, Seq<LineRead>)>
    decreases lines.len(),
{
    if lines.len() == 0 {
        None
    } else {
        match line_meaning(expected_id, lines[0]) {
            Ok(Some(response)) => Some((Ok(response), lines.skip(1))),
            Ok(None) => answer_among(expected_id, lines.skip(1)),
            Err(error) => Some((Err(error), lines.skip(1))),
        }
    }
}

/// Whether a line is passed over: the output goes on, and the line does not answer the
/// request.
pub open spec fn is_passed_over(expected_id: u64, line: LineRead) -> bool {
    match line {
        LineRead::Closed => false,
        LineRead::Other => true,
        LineRead::Response(response) => response.id != expected_id,
    }
}

/// The first line with the expected identifier is the answer, and a closed output
/// before it is an error. All lines before are passed over, and the ones after are left.
pub proof fn law_first_answer_counts(expected_id: u64, lines: Seq<LineRead>, k: int)
    requires
        0 <= k <= lines.len(),
        forall|i: int| 0 <= i < k ==> is_passed_over(expected_id, #[trigger] lines[i]),
    ensures
        k == lines.len() ==> answer_among(expected_id, lines) is None,
        k < lines.len() ==> match lines[k] {
            LineRead::Closed => answer_among(expected_id, lines) == Some(
                (
                    Err::<JsonRpcResponse, ErrorView>(ErrorView::HttpError("MCP process closed stdout unexpectedly"@)),
                    lines.skip(k + 1),
                ),
            ),
            LineRead::Response(response) => response.id == expected_id ==> answer_among(expected_id, lines) == Some(
                (Ok::<JsonRpcResponse, ErrorView>(response), lines.skip(k + 1)),
            ),
            LineRead::Other => true,
        },
    decreases k,
{
    if k > 0 {
        let rest = lines.skip(1);
        assert(is_passed_over(expected_id, lines[0]));
        assert forall|i: int| 0 <= i < k - 1 implies is_passed_over(expected_id, #[trigger] rest[i]) by {
            assert(rest[i] == lines[i + 1]);
        }
        law_first_answer_counts(expected_id, rest, k - 1);
        if k < lines.len() {
            assert(rest.skip(k) =~= lines.skip(k + 1));
            assert(rest[k - 1] == lines[k]);
        }
    }
}

/// The error for a transport that is closed.
pub fn closed_transport() -> (error: AgentError)
    ensures
        error@ == ErrorView::InvalidRequest("MCP transport is closed"@),
{
    AgentError::invalid_request("MCP transport is closed")
}

// ---------------------------------------------------------------------------
// The server
// ---------------------------------------------------------------------------

/// A connection to a server: it numbers its requests, from one on.
#[derive(Debug)]
pub struct McpServer {
    pub next_id: u64,
}

/// The parameters of the request that opens a connection.
pub open spec fn initialize_params(version: Seq<char>) -> JsonView {
    let empty = Map::<Seq<char>, JsonView>::empty();
    JsonView::Object(
        empty.insert("protocolVersion"@, JsonView::Text("2024-11-05"@)).insert(
            "capabilities"@,
            JsonView::Object(empty),
        ).insert(
            "clientInfo"@,
            JsonView::Object(
                empty.insert("name"@, JsonView::Text("agent-framework-rust"@)).insert(
                    "version"@,
                    JsonView::Text(version),
                ),
            ),
        ),
    )
}

/// The parameters of a request that calls a tool.
pub open spec fn call_params(name: Seq<char>, arguments: JsonView) -> JsonView {
    JsonView::Object(
        Map::<Seq<char>, JsonView>::empty().insert("name"@, JsonView::Text(name)).insert("arguments"@, arguments),
    )
}

impl McpServer {
    /// A connection that has sent nothing yet.
    pub fn new() -> (server: Self)
        ensures
            server.next_id == 1,
    {
        McpServer { next_id: 1 }
    }

    /// The next request.
    pub fn request(&mut self, method: &str, params: Option<Json>) -> (request: JsonRpcRequest)
        ensures
            request@ == (JsonRpcRequestView {
                jsonrpc: "2.0"@,
                id: old(self).next_id,
                method: method@,
                params: params.deep_view(),
            }),
            final(self).next_id == next_count(old(self).next_id),
    {
        let id: u64 = take_count(&mut self.next_id);
        JsonRpcRequest::new(id, method, params)
    }

    /// The request that opens the connection, for a client of the given version.
    pub fn initialize(&mut self, version: &str) -> (request: JsonRpcRequest)
        ensures
            request@ == (JsonRpcRequestView {
                jsonrpc: "2.0"@,
                id: old(self).next_id,
                method: "initialize"@,
                params: Some(initialize_params(version@)),
            }),
            final(self).next_id == next_count(old(self).next_id),
    {
        let info = Json::Object(
            JsonObject::new().with("name", Json::text("agent-framework-rust")).with("version", Json::text(version)),
        );
        let params = Json::Object(
            JsonObject::new().with("protocolVersion", Json::text("2024-11-05")).with(
                "capabilities",
                Json::Object(JsonObject::new()),
            ).with("clientInfo", info),
        );
        self.request("initialize", Some(params))
    }

    /// The notice that the connection is open.
    pub fn initialized(&mut self) -> (request: JsonRpcRequest)
        ensures
            request@ == (JsonRpcRequestView {
                jsonrpc: "2.0"@,
                id: old(self).next_id,
                method: "notifications/initialized"@,
                params: Some(JsonView::Object(Map::<Seq<char>, JsonView>::empty())),
            }),
            final(self).next_id == next_count(old(self).next_id),
    {
        self.request("notifications/initialized", Some(Json::Object(JsonObject::new())))
    }

    /// The request that lists the tools.
    pub fn list_tools(&mut self) -> (request: JsonRpcRequest)
        ensures
            request@ == (JsonRpcRequestView {
                jsonrpc: "2.0"@,
                id: old(self).next_id,
                method: "tools/list"@,
                params: Some(JsonView::Object(Map::<Seq<char>, JsonView>::empty())),
            }),
            final(self).next_id == next_count(old(self).next_id),
    {
        self.request("tools/list", Some(Json::Object(JsonObject::new())))
    }

    /// The list of tools in the result of a request for it, empty where it has none.
    pub fn listed_tools(result: &Json) -> (tools: Json)
        ensures
            tools@ == match member(result@, "tools"@) {
                Some(tools) => tools,
                None => JsonView::Array(Seq::empty()),
            },
    {
        match result.get("tools") {
            Some(tools) => tools.clone(),
            None => {
                let none: Vec<Json> = Vec::new();
                assert(none.deep_view() =~= Seq::<JsonView>::empty());
                Json::array(none)
            },
        }
    }

    /// The request that calls a tool.
    pub fn call_tool(&mut self, name: &str, arguments: Json) -> (request: JsonRpcRequest)
        ensures
            request@ == (JsonRpcRequestView {
                jsonrpc: "2.0"@,
                id: old(self).next_id,
                method: "tools/call"@,
                params: Some(call_params(name@, arguments@)),
            }),
            final(self).next_id == next_count(old(self).next_id),
    {
        let params = Json::Object(
            JsonObject::new().with("name", Json::text(name)).with("arguments", arguments),
        );
        self.request("tools/call", Some(params))
    }
}

// ---------------------------------------------------------------------------
// Tools
// ---------------------------------------------------------------------------

/// A tool as the server describes it.
#[derive(Debug)]
pub struct McpToolInfo {
    /// The name that the server has given it.
    pub name: String,
    /// A description of the tool.
    pub description: String,
    /// JSON Schema of the input.
    pub input_schema: Json,
}

/// What the description of a tool holds.
#[verifier::ext_equal]
pub struct McpToolInfoView {
    pub name: Seq<char>,
    pub description: Seq<char>,
    pub input_schema: JsonView,
}

impl View for McpToolInfo {
    type V = McpToolInfoView;

    open spec fn view(&self) -> McpToolInfoView {
        McpToolInfoView {
            name: self.name@,
            description: self.description@,
            input_schema: self.input_schema@,
        }
    }
}

impl DeepView for McpToolInfo {
    type V = McpToolInfoView;

    open spec fn deep_view(&self) -> McpToolInfoView {
        self@
    }
}

/// The schema of a tool that describes none.
pub fn default_schema() -> (schema: Json)
    ensures
        schema@ == empty_schema(),
{
    no_parameters()
}

/// A name with a hyphen in place of every character that a tool name may not hold.
pub open spec fn normalized(name: Seq<char>) -> Seq<char> {
    Seq::new(
        name.len(),
        |i: int|
            if is_name_char(name[i]) {
                name[i]
            } else {
                '-'
            },
    )
}

/// Replace every character that a tool name may not hold with a hyphen.
pub fn normalize_mcp_name(name: &str) -> (out: String)
    ensures
        out@ == normalized(name@),
{
    let chars = chars_of(name);
    let mut kept: Vec<char> = Vec::new();
    let mut i: usize = 0;
    while i < chars.len()
        invariant
            i <= chars@.len(),
            chars@ == name@,
            kept@ == normalized(name@).take(i as int),
        decreases chars@.len() - i,
    {
        let ghost before = kept@;
        let c = if name_char(chars[i]) {
            chars[i]
        } else {
            '-'
        };
        kept.push(c);
        assert(normalized(name@).take(i + 1) =~= before.push(c));
        i += 1;
    }
    assert(normalized(name@).take(i as int) =~= normalized(name@));
    let out = string_of(&kept, 0, kept.len());
    assert(kept@.subrange(0, kept@.len() as int) =~= kept@);
    out
}

/// A tool of a server, under a name that models accept.
#[derive(Debug)]
pub struct McpTool {
    pub definition: ToolDefinition,
    /// The name that the server has given it.
    pub remote_name: String,
}

/// What a tool of a server holds.
#[verifier::ext_equal]
pub struct McpToolView {
    pub definition: ToolDefinitionView,
    pub remote_name: Seq<char>,
}

impl View for McpTool {
    type V = McpToolView;

    open spec fn view(&self) -> McpToolView {
        McpToolView { definition: self.definition@, remote_name: self.remote_name@ }
    }
}

impl DeepView for McpTool {
    type V = McpToolView;

    open spec fn deep_view(&self) -> McpToolView {
        self@
    }
}

/// The tool that a description stands for.
pub open spec fn tool_of(info: McpToolInfoView) -> McpToolView {
    McpToolView {
        definition: ToolDefinitionView {
            name: normalized(info.name),
            description: info.description,
            parameters_schema: info.input_schema,
        },
        remote_name: info.name,
    }
}

impl McpTool {
    /// The tool that a description stands for. Its name must not be empty.
    pub fn new(info: &McpToolInfo) -> (result: AgentResult<Self>)
        ensures
            match result {
                Ok(tool) => info@.name.len() > 0 && tool@ == tool_of(info@),
                Err(error) => info@.name.len() == 0 && error@ == bad_name_error(Seq::empty()),
            },
    {
        let name = normalize_mcp_name(info.name.as_str());
        proof {
            law_normalized_names_are_tool_names(info@.name);
            if info@.name.len() == 0 {
                assert(name@ =~= Seq::empty());
            }
        }
        match ToolDefinition::new(name.as_str(), info.description.as_str(), info.input_schema.clone()) {
            Ok(definition) => Ok(McpTool { definition, remote_name: info.name.clone() }),
            Err(error) => Err(error),
        }
    }

    /// The request that invokes the tool on its server, under the name that it has there.
    pub fn invoke(&self, server: &mut McpServer, arguments: Json) -> (request: JsonRpcRequest)
        ensures
            request@ == (JsonRpcRequestView {
                jsonrpc: "2.0"@,
                id: old(server).next_id,
                method: "tools/call"@,
                params: Some(call_params(self.remote_name@, arguments@)),
            }),
            final(server).next_id == next_count(old(server).next_id),
    {
        server.call_tool(self.remote_name.as_str(), arguments)
    }
}

/// The tools of the descriptions that have a name.
pub open spec fn named_tools(infos: Seq<McpToolInfoView>) -> Seq<McpToolView>
    decreases infos.len(),
{
    if infos.len() == 0 {
        Seq::empty()
    } else if infos.last().name.len() > 0 {
        named_tools(infos.drop_last()).push(tool_of(infos.last()))
    } else {
        named_tools(infos.drop_last())
    }
}

/// The tools of a server that runs as a subprocess.
pub struct McpStdioTool;

impl McpStdioTool {
    /// The tools that descriptions stand for. One without a usable name is left out.
    pub fn tools(infos: &Vec<McpToolInfo>) -> (tools: Vec<McpTool>)
        ensures
            tools.deep_view() == named_tools(infos.deep_view()),
    {
        let mut tools: Vec<McpTool> = Vec::new();
        let ghost all = infos.deep_view();
        let mut i: usize = 0;
        assert(tools.deep_view() =~= Seq::empty());
        while i < infos.len()
            invariant
                i <= infos@.len(),
                all == infos.deep_view(),
                tools.deep_view() == named_tools(all.take(i as int)),
            decreases infos@.len() - i,
        {
            assert(all.take(i + 1).drop_last() =~= all.take(i as int));
            match McpTool::new(&infos[i]) {
                Ok(tool) => {
                    let ghost before = tools.deep_view();
                    let ghost pushed = tool@;
                    tools.push(tool);
                    assert(tools.deep_view() =~= before.push(pushed));
                },
                Err(_) => {},
            }
            i += 1;
        }
        assert(all.take(i as int) =~= all);
        tools
    }
}

/// A normalized name is a tool name, unless it is empty; and a tool name is left as it is.
pub proof fn law_normalized_names_are_tool_names(name: Seq<char>)
    ensures
        name.len() > 0 <==> is_tool_name(normalized(name)),
        is_tool_name(name) ==> normalized(name) == name,
{
    let out = normalized(name);
    assert forall|i: int| 0 <= i < out.len() implies is_name_char(#[trigger] out[i]) by {
        if is_name_char(name[i]) {
        }
    }
    if is_tool_name(name) {
        assert(out =~= name);
    }
}

/// A connection is opened with the version of the protocol, no capabilities, and the
/// name and version of the client.
pub proof fn law_connection_is_opened(version: Seq<char>)
    ensures
        initialize_params(version) is Object,
        initialize_params(version)->Object_0["protocolVersion"@] == JsonView::Text("2024-11-05"@),
        initialize_params(version)->Object_0["capabilities"@] == JsonView::Object(Map::empty()),
        initialize_params(version)->Object_0["clientInfo"@] is Object,
        initialize_params(version)->Object_0["clientInfo"@]->Object_0["name"@] == JsonView::Text(
            "agent-framework-rust"@,
        ),
        initialize_params(version)->Object_0["clientInfo"@]->Object_0["version"@] == JsonView::Text(version),
{
    reveal_strlit("protocolVersion");
    reveal_strlit("capabilities");
    reveal_strlit("clientInfo");
    reveal_strlit("name");
    reveal_strlit("version");
    assert("protocolVersion"@.len() != "capabilities"@.len());
    assert("protocolVersion"@.len() != "clientInfo"@.len());
    assert("capabilities"@.len() != "clientInfo"@.len());
    assert("name"@.len() != "version"@.len());
}

/// A tool is called by its name with the arguments that it is given.
pub proof fn law_call_has_name_and_arguments(name: Seq<char>, arguments: JsonView)
    ensures
        call_params(name, arguments) is Object,
        call_params(name, arguments)->Object_0["name"@] == JsonView::Text(name),
        call_params(name, arguments)->Object_0["arguments"@] == arguments,
        call_params(name, arguments)->Object_0.dom() =~= set!["name"@, "arguments"@],
{
    reveal_strlit("name");
    reveal_strlit("arguments");
    assert("name"@.len() != "arguments"@.len());
}

/// A tool of a server is offered under a name that models accept, with the description
/// and the schema that the server gave, and called under the name that it has there.
/// Tools are offered in order, and one without a name is left out.
pub proof fn law_tools_are_offered(first: Seq<McpToolInfoView>, info: McpToolInfoView)
    ensures
        tool_of(info).definition.name == normalized(info.name),
        tool_of(info).definition.description == info.description,
        tool_of(info).definition.parameters_schema == info.input_schema,
        tool_of(info).remote_name == info.name,
        named_tools(Seq::empty()).len() == 0,
        info.name.len() > 0 ==> named_tools(first.push(info)) == named_tools(first).push(tool_of(info)),
        info.name.len() == 0 ==> named_tools(first.push(info)) == named_tools(first),
{
    assert(first.push(info).drop_last() =~= first);
}

/// A normalized name is as long as the name; a character that may stand in a tool name
/// stays in its place, and every other becomes a hyphen.
pub proof fn law_names_are_normalized(name: Seq<char>)
    ensures
        normalized(name).len() == name.len(),
        forall|i: int|
            #![trigger name[i]]
            #![trigger normalized(name)[i]]
            0 <= i < name.len() ==> {
                let kept = 'a' <= name[i] <= 'z' || 'A' <= name[i] <= 'Z' || '0' <= name[i] <= '9' || name[i] == '_'
                    || name[i] == '-';
                &&& kept ==> normalized(name)[i] == name[i]
                &&& !kept ==> normalized(name)[i] == '-'
            },
{
}

/// A line that answers the request that waits is its answer; any other response and any
/// other line is passed over; a closed output is an error.
pub proof fn law_lines_mean_answers(expected_id: u64, response: JsonRpcResponse)
    ensures
        response.id == expected_id ==> line_meaning(expected_id, LineRead::Response(response)) == Ok::<
            Option<JsonRpcResponse>,
            ErrorView,
        >(Some(response)),
        response.id != expected_id ==> line_meaning(expected_id, LineRead::Response(response)) == Ok::<
            Option<JsonRpcResponse>,
            ErrorView,
        >(None),
        line_meaning(expected_id, LineRead::Other) == Ok::<Option<JsonRpcResponse>, ErrorView>(None),
        line_meaning(expected_id, LineRead::Closed) == Err::<Option<JsonRpcResponse>, ErrorView>(
            ErrorView::HttpError("MCP process closed stdout unexpectedly"@),
        ),
        is_passed_over(expected_id, LineRead::Response(response)) <==> response.id != expected_id,
        is_passed_over(expected_id, LineRead::Other),
        !is_passed_over(expected_id, LineRead::Closed),
{
}

/// The models of requests and tools have all that these hold.
pub proof fn law_mcp_models_are_complete(request: JsonRpcRequest, info: McpToolInfo, tool: McpTool)
    ensures
        request@.jsonrpc == request.jsonrpc@,
        request@.id == request.id,
        request@.method == request.method@,
        request@.params == request.params.deep_view(),
        info@.name == info.name@,
        info@.description == info.description@,
        info@.input_schema == info.input_schema@,
        tool@.definition == tool.definition@,
        tool@.remote_name == tool.remote_name@,
{
}

} // verus!
