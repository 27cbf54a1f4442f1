//! Tool definitions.

use vstd::prelude::*;

use crate::error::{AgentError, AgentResult, ErrorView};
use crate::json::{Json, JsonObject, JsonView};
use crate::text::{ascii_alphanumeric, cat3, is_ascii_alphanumeric};

verus! {

/// The definition of a tool that is sent to the model so that it knows how to call it.
#[derive(Debug)]
pub struct ToolDefinition {
    /// The tool's unique name.
    pub name: String,
    /// A human-readable description of what the tool does.
    pub description: String,
    /// A JSON Schema object that describes the tool's input parameters.
    pub parameters_schema: Json,
}

/// What a tool definition holds.
#[verifier::ext_equal]
pub struct ToolDefinitionView {
    pub name: Seq<char>,
    pub description: Seq<char>,
    pub parameters_schema: JsonView,
}

impl View for ToolDefinition {
    type V = ToolDefinitionView;

    open spec fn view(&self) -> ToolDefinitionView {
        ToolDefinitionView {
            name: self.name@,
            description: self.description@,
            parameters_schema: self.parameters_schema@,
        }
    }
}

impl DeepView for ToolDefinition {
    type V = ToolDefinitionView;

    open spec fn deep_view(&self) -> ToolDefinitionView {
        self@
    }
}

impl Clone for ToolDefinition {
    fn clone(&self) -> (copy: Self)
        ensures
            copy@ == self@,
    {
        ToolDefinition {
            name: self.name.clone(),
            description: self.description.clone(),
            parameters_schema: self.parameters_schema.clone(),
        }
    }
}

/// The characters that a tool name may hold.
pub open spec fn is_name_char(c: char) -> bool {
    is_ascii_alphanumeric(c) || c == '_' || c == '-'
}

/// Whether a text is a tool name: one or more letters, digits, underscores and hyphens.
pub open spec fn is_tool_name(name: Seq<char>) -> bool {
    name.len() > 0 && forall|i: int| 0 <= i < name.len() ==> is_name_char(#[trigger] name[i])
}

/// Whether a character may stand in a tool name.
pub fn name_char(c: char) -> (r: bool)
    ensures
        r == is_name_char(c),
{
    ascii_alphanumeric(c) || c == '_' || c == '-'
}

/// Whether a text is a tool name.
pub fn valid_tool_name(name: &str) -> (valid: bool)
    ensures
        valid == is_tool_name(name@),
{
    for c in it: name.chars()
        invariant
            it.seq() == name@,
            forall|i: int| 0 <= i < it.index() ==> is_name_char(#[trigger] name@[i]),
    {
        if !name_char(c) {
            assert(!is_name_char(name@[it.index() as int]));
            return false;
        }
    }
    !name.is_empty()
}

/// The schema of a tool without parameters.
pub open spec fn empty_schema() -> JsonView {
    JsonView::Object(
        Map::<Seq<char>, JsonView>::empty().insert("type"@, JsonView::Text("object"@)).insert(
            "properties"@,
            JsonView::Object(Map::empty()),
        ),
    )
}

/// The schema of a tool without parameters.
pub fn no_parameters() -> (schema: Json)
    ensures
        schema@ == empty_schema(),
{
    Json::Object(
        JsonObject::new().with("type", Json::text("object")).with("properties", Json::Object(JsonObject::new())),
    )
}

/// The error for a name that is no tool name.
pub open spec fn bad_name_error(name: Seq<char>) -> ErrorView {
    ErrorView::InvalidRequest("invalid tool name '"@ + name + "'"@)
}

impl ToolDefinition {
    /// Create a new tool definition. The name must match `[a-zA-Z0-9_-]+`.
    pub fn new(name: &str, description: &str, parameters_schema: Json) -> (result: AgentResult<Self>)
        ensures
            match result {
                Ok(definition) => is_tool_name(name@) && definition@ == (ToolDefinitionView {
                    name: name@,
                    description: description@,
                    parameters_schema: parameters_schema@,
                }),
                Err(error) => !is_tool_name(name@) && error@ == bad_name_error(name@),
            },
    {
        if !valid_tool_name(name) {
            return Err(AgentError::InvalidRequest(cat3("invalid tool name '", name, "'")));
        }
        Ok(ToolDefinition { name: name.to_owned(), description: description.to_owned(), parameters_schema })
    }

    /// Create a tool definition with no parameters. The name must match `[a-zA-Z0-9_-]+`.
    pub fn no_params(name: &str, description: &str) -> (result: AgentResult<Self>)
        ensures
            match result {
                Ok(definition) => is_tool_name(name@) && definition@ == (ToolDefinitionView {
                    name: name@,
                    description: description@,
                    parameters_schema: empty_schema(),
                }),
                Err(error) => !is_tool_name(name@) && error@ == bad_name_error(name@),
            },
    {
        ToolDefinition::new(name, description, no_parameters())
    }
}

/// A name is accepted exactly if it is not empty and holds nothing but letters, digits,
/// underscores and hyphens; a name that is refused stands in the error.
pub proof fn law_tool_names(name: Seq<char>, c: char)
    ensures
        is_tool_name(name) <==> name.len() > 0 && forall|i: int|
            0 <= i < name.len() ==> {
                ||| 'a' <= #[trigger] name[i] <= 'z'
                ||| 'A' <= name[i] <= 'Z'
                ||| '0' <= name[i] <= '9'
                ||| name[i] == '_'
                ||| name[i] == '-'
            },
        is_tool_name(name) && (is_ascii_alphanumeric(c) || c == '_' || c == '-') ==> is_tool_name(name.push(c)),
        bad_name_error(name) == ErrorView::InvalidRequest("invalid tool name '"@ + name + "'"@),
{
}

/// A tool without parameters takes an object without members.
pub proof fn law_empty_schema()
    ensures
        empty_schema() is Object,
        empty_schema()->Object_0["type"@] == JsonView::Text("object"@),
        empty_schema()->Object_0["properties"@] is Object,
        empty_schema()->Object_0["properties"@]->Object_0 == Map::<Seq<char>, JsonView>::empty(),
{
    reveal_strlit("type");
    reveal_strlit("properties");
    assert("type"@.len() != "properties"@.len());
}

/// The model of a tool has its name, its description and its schema.
pub proof fn law_tool_model_is_complete(tool: ToolDefinition)
    ensures
        tool@.name == tool.name@,
        tool@.description == tool.description@,
        tool@.parameters_schema == tool.parameters_schema@,
{
}

} // verus!
