use agent_framework::error::AgentError;
use agent_framework::json::Json;
use agent_framework::mcp::{
    closed_transport, default_schema, normalize_mcp_name, on_line, JsonRpcError, JsonRpcRequest, JsonRpcResponse,
    LineRead, McpServer,
    McpStdioTool, McpTool, McpToolInfo,
};
use agent_framework::tools::valid_tool_name;

fn json(text: &str) -> Json {
    Json::parse(text).unwrap()
}

fn ok_response(id: u64, result: &str) -> JsonRpcResponse {
    JsonRpcResponse { jsonrpc: "2.0".to_string(), id, result: Some(json(result)), error: None }
}

fn err_response(id: u64, code: i64, message: &str) -> JsonRpcResponse {
    JsonRpcResponse {
        jsonrpc: "2.0".to_string(),
        id,
        result: None,
        error: Some(JsonRpcError { code, message: message.to_string() }),
    }
}

fn info(name: &str) -> McpToolInfo {
    McpToolInfo {
        name: name.to_string(),
        description: "A test tool".to_string(),
        input_schema: json("{\"type\":\"object\",\"properties\":{}}"),
    }
}

#[test]
fn normalize_mcp_name_basic() {
    assert_eq!(normalize_mcp_name("read_file"), "read_file");
    assert_eq!(normalize_mcp_name("my-tool"), "my-tool");
    assert_eq!(normalize_mcp_name("tool.with.dots"), "tool-with-dots");
    assert_eq!(normalize_mcp_name("hello world!"), "hello-world-");
    assert_eq!(normalize_mcp_name("CamelCase123"), "CamelCase123");
}

#[test]
fn normalized_names_are_accepted() {
    assert!(valid_tool_name(&normalize_mcp_name("ä ö!")));
    assert!(!valid_tool_name("ä"));
}

#[test]
fn requests_are_numbered_and_versioned() {
    let req = JsonRpcRequest::new(1, "initialize", Some(json("{\"foo\":\"bar\"}")));
    assert_eq!(req.jsonrpc, "2.0");
    assert_eq!(req.id, 1);
    assert_eq!(req.method, "initialize");
    let mut server = McpServer::new();
    let first = server.request("ping", None);
    let second = server.request("ping", None);
    assert_eq!(second.id, first.id + 1);
    assert!(first.params.is_none());
}

#[test]
fn mcp_tool_definition_from_info() {
    let tool = McpTool::new(&info("test_tool")).unwrap();
    assert_eq!(tool.definition.name, "test_tool");
    assert_eq!(tool.definition.description, "A test tool");
}

#[test]
fn mcp_server_initialize_and_list_tools() {
    let mut server = McpServer::new();
    let request = server.initialize("1.2.3");
    assert_eq!(request.method, "initialize");
    let params = request.params.unwrap();
    assert_eq!(params.get("protocolVersion").unwrap().as_str(), Some("2024-11-05"));
    assert_eq!(params.get("clientInfo").unwrap().get("version").unwrap().as_str(), Some("1.2.3"));
    assert_eq!(server.initialized().method, "notifications/initialized");
    let request = server.list_tools();
    assert_eq!(request.method, "tools/list");
    let result = ok_response(request.id, "{\"tools\":[{\"name\":\"read_file\"},{\"name\":\"write_file\"}]}")
        .outcome()
        .unwrap();
    match McpServer::listed_tools(&result) {
        Json::Array(tools) => {
            assert_eq!(tools.len(), 2);
            assert_eq!(tools[0].get("name").unwrap().as_str(), Some("read_file"));
            assert_eq!(tools[1].get("name").unwrap().as_str(), Some("write_file"));
        }
        _ => panic!("a list was expected"),
    }
    assert!(McpServer::listed_tools(&json("{}")).same(&json("[]")));
}

#[test]
fn mcp_server_call_tool() {
    let mut server = McpServer::new();
    let request = server.call_tool("read_file", json("{\"path\":\"/tmp/test.txt\"}"));
    assert_eq!(request.method, "tools/call");
    let params = request.params.unwrap();
    assert_eq!(params.get("name").unwrap().as_str(), Some("read_file"));
    assert_eq!(params.get("arguments").unwrap().get("path").unwrap().as_str(), Some("/tmp/test.txt"));
    let result = ok_response(request.id, "{\"content\":[{\"type\":\"text\",\"text\":\"file contents here\"}]}")
        .outcome()
        .unwrap();
    assert!(result.get("content").is_some());
}

#[test]
fn mcp_server_json_rpc_error() {
    let result = err_response(1, -32601, "Method not found").outcome();
    assert!(result.is_err());
    let err_msg = result.unwrap_err().to_text();
    assert!(err_msg.contains("-32601"));
    assert!(err_msg.contains("Method not found"));
    let neither = JsonRpcResponse { jsonrpc: "2.0".to_string(), id: 1, result: None, error: None }.outcome();
    assert!(neither.is_ok() || matches!(neither, Err(AgentError::InvalidResponse(_))));
}

#[test]
fn mcp_tool_invoke() {
    let mut server = McpServer::new();
    let tool = McpTool::new(&info("test_tool")).unwrap();
    let request = tool.invoke(&mut server, json("{}"));
    assert_eq!(request.method, "tools/call");
    assert_eq!(request.params.unwrap().get("name").unwrap().as_str(), Some("test_tool"));
    let result = ok_response(request.id, "{\"result\":\"success\"}").outcome().unwrap();
    assert!(result.same(&json("{\"result\":\"success\"}")));
}

#[test]
fn lines_are_read_until_the_answer_comes() {
    assert!(on_line(3, LineRead::Other).unwrap().is_none());
    assert!(on_line(3, LineRead::Response(ok_response(2, "{}"))).unwrap().is_none());
    assert_eq!(on_line(3, LineRead::Response(ok_response(3, "{}"))).unwrap().unwrap().id, 3);
    assert!(on_line(3, LineRead::Closed).is_err());
}

#[test]
fn tools_are_called_by_their_remote_names() {
    let tools = McpStdioTool::tools(&vec![info("a.b"), info("c")]);
    assert_eq!(tools.len(), 2);
    assert_eq!(tools[0].definition.name, "a-b");
    assert_eq!(tools[0].remote_name, "a.b");
    assert!(default_schema().to_text().contains("\"type\":\"object\""));
}

#[test]
fn a_closed_transport_is_an_invalid_request() {
    assert_eq!(closed_transport().to_text(), "Invalid request: MCP transport is closed");
}

#[test]
fn the_first_line_with_the_expected_id_is_the_answer() {
    let lines = vec![
        LineRead::Other,
        LineRead::Response(ok_response(1, "\"old\"")),
        LineRead::Response(ok_response(2, "\"new\"")),
        LineRead::Response(ok_response(2, "\"late\"")),
    ];
    let mut left = lines.into_iter();
    let answer = left.by_ref().find_map(|line| on_line(2, line).unwrap()).unwrap();
    assert_eq!(answer.outcome().unwrap().as_str(), Some("new"));
    assert_eq!(left.count(), 1);
}
