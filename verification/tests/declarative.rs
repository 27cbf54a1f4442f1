use agent_framework::declarative::{AgentDefinition, AgentFactory};
use agent_framework::error::AgentError;
use agent_framework::json::JsonObject;
use agent_framework::tools::ToolDefinition;

fn definition(name: &str, provider: Option<&str>, tools: Vec<&str>) -> AgentDefinition {
    AgentDefinition {
        name: name.to_string(),
        instructions: Some("Be helpful".to_string()),
        model: Some("gpt-4o".to_string()),
        provider: provider.map(|p| p.to_string()),
        tools: tools.into_iter().map(|t| t.to_string()).collect(),
        max_tool_rounds: Some(5),
        description: None,
        extra: JsonObject::new(),
    }
}

fn factory() -> AgentFactory {
    AgentFactory::new()
        .register_provider("openai")
        .register_tool("search", ToolDefinition::no_params("web_search", "Search").unwrap())
        .register_tool("calculator", ToolDefinition::no_params("calculator", "Count").unwrap())
}

#[test]
fn a_definition_builds_an_agent() {
    let def = definition("TestAgent", Some("openai"), vec!["search", "calculator"]);
    assert_eq!(factory().select_provider(&def).unwrap(), "openai");
    let agent = factory().build(&def, Ok(())).unwrap();
    assert_eq!(agent.name.as_deref(), Some("TestAgent"));
    assert_eq!(agent.instructions.as_deref(), Some("Be helpful"));
    assert_eq!(agent.options.model.as_deref(), Some("gpt-4o"));
    assert_eq!(agent.max_tool_rounds, 5);
    assert_eq!(agent.tools[0].name, "web_search");
    assert_eq!(agent.tools[1].name, "calculator");
}

#[test]
fn what_is_unknown_is_refused_in_order() {
    let text = |def: AgentDefinition, client: Result<(), AgentError>| {
        factory().build(&def, client).unwrap_err().to_text()
    };
    assert_eq!(text(definition("a", None, vec![]), Ok(())), "Invalid request: unknown provider: anthropic");
    assert_eq!(
        text(definition("a", Some("openai"), vec!["x"]), Err(AgentError::Other("no key".to_string()))),
        "no key"
    );
    assert_eq!(
        text(definition("a", Some("openai"), vec!["search", "x", "y"]), Ok(())),
        "Invalid request: unknown tool: x"
    );
    assert!(AgentDefinition::parse_error("eof").to_text().ends_with("failed to parse agent definition: eof"));
    assert!(AgentDefinition::read_error("f.json", "gone").to_text().ends_with("failed to read f.json: gone"));
}
