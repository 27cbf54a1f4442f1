//! Agents that are described by data.

use vstd::prelude::*;

use crate::agent::{ChatClientAgent, ChatClientAgentBuilder, DEFAULT_MAX_TOOL_ROUNDS};
use crate::error::{AgentError, AgentResult, ErrorView};
use crate::ids::is_uuid;
use crate::json::{JsonObject, JsonView};
use crate::table::Table;
use crate::text::{cat2, cat4, str_eq};
use crate::tools::{ToolDefinition, ToolDefinitionView};
use crate::types::{no_options, ChatOptions, ChatOptionsView};

verus! {

/// The description of an agent.
#[derive(Debug)]
pub struct AgentDefinition {
    /// The name of the agent.
    pub name: String,
    /// Its instructions.
    pub instructions: Option<String>,
    /// The model that it uses.
    pub model: Option<String>,
    /// The provider of the model.
    pub provider: Option<String>,
    /// The names of its tools.
    pub tools: Vec<String>,
    /// The maximum number of rounds of tool calls.
    pub max_tool_rounds: Option<usize>,
    /// A description in words.
    pub description: Option<String>,
    /// What else the provider is told.
    pub extra: JsonObject,
}

/// What a description holds.
#[verifier::ext_equal]
pub struct AgentDefinitionView {
    pub name: Seq<char>,
    pub instructions: Option<Seq<char>>,
    pub model: Option<Seq<char>>,
    pub provider: Option<Seq<char>>,
    pub tools: Seq<Seq<char>>,
    pub max_tool_rounds: Option<usize>,
    pub description: Option<Seq<char>>,
    pub extra: Map<Seq<char>, JsonView>,
}

impl View for AgentDefinition {
    type V = AgentDefinitionView;

    open spec fn view(&self) -> AgentDefinitionView {
        AgentDefinitionView {
            name: self.name@,
            instructions: self.instructions.deep_view(),
            model: self.model.deep_view(),
            provider: self.provider.deep_view(),
            tools: self.tools.deep_view(),
            max_tool_rounds: self.max_tool_rounds,
            description: self.description.deep_view(),
            extra: self.extra@,
        }
    }
}

/// The provider of an agent that names none.
pub const DEFAULT_PROVIDER: &'static str = "anthropic";

/// The provider that a description asks for.
pub open spec fn provider_of(definition: AgentDefinitionView) -> Seq<char> {
    match definition.provider {
        Some(name) => name,
        None => DEFAULT_PROVIDER@,
    }
}

impl AgentDefinition {
    /// The provider that the description asks for.
    pub fn provider_name(&self) -> (name: &str)
        ensures
            name@ == provider_of(self@),
    {
        match &self.provider {
            Some(name) => name.as_str(),
            None => DEFAULT_PROVIDER,
        }
    }

    /// The error for a description that cannot be read.
    pub fn parse_error(reason: &str) -> (error: AgentError)
        ensures
            error@ == ErrorView::InvalidRequest("failed to parse agent definition: "@ + reason@),
    {
        AgentError::InvalidRequest(cat2("failed to parse agent definition: ", reason))
    }

    /// The error for a file that cannot be read.
    pub fn read_error(path: &str, reason: &str) -> (error: AgentError)
        ensures
            error@ == ErrorView::InvalidRequest("failed to read "@ + path@ + ": "@ + reason@),
    {
        AgentError::InvalidRequest(cat4("failed to read ", path, ": ", reason))
    }
}

/// The first name that is not in a register.
pub open spec fn first_unknown(
    names: Seq<Seq<char>>,
    known: Map<Seq<char>, ToolDefinitionView>,
) -> Option<Seq<char>>
    decreases names.len(),
{
    if names.len() == 0 {
        None
    } else {
        match first_unknown(names.drop_last(), known) {
            Some(name) => Some(name),
            None => if known.dom().contains(names.last()) {
                None
            } else {
                Some(names.last())
            },
        }
    }
}

/// The tools that a definition asks for.
pub open spec fn tools_named(
    names: Seq<Seq<char>>,
    known: Map<Seq<char>, ToolDefinitionView>,
) -> Seq<ToolDefinitionView> {
    Seq::new(names.len(), |i: int| known[names[i]])
}

/// The options of an agent that is described.
pub open spec fn defined_options(definition: AgentDefinitionView) -> ChatOptionsView {
    match definition.model {
        Some(model) => ChatOptionsView { model: Some(model), ..no_options() },
        None => no_options(),
    }
}

/// Whether an agent is the one that is described.
pub open spec fn is_defined_by(
    agent: ChatClientAgent,
    definition: AgentDefinitionView,
    known: Map<Seq<char>, ToolDefinitionView>,
) -> bool {
    &&& is_uuid(agent.id@)
    &&& agent.name.deep_view() == Some(definition.name)
    &&& agent.description.deep_view() == definition.description
    &&& agent.instructions.deep_view() == definition.instructions
    &&& agent.tools.deep_view() == tools_named(definition.tools, known)
    &&& agent.options@ == defined_options(definition)
    &&& agent.max_tool_rounds == match definition.max_tool_rounds {
        Some(max) => max,
        None => DEFAULT_MAX_TOOL_ROUNDS,
    }
}

/// Builds agents from their descriptions. It knows the names of the providers and the
/// tools by the names under which they are registered.
#[derive(Debug)]
pub struct AgentFactory {
    pub providers: Vec<String>,
    pub tools: Table<ToolDefinition>,
}

impl AgentFactory {
    /// A factory that knows no provider and no tool.
    pub fn new() -> (factory: Self)
        ensures
            factory.providers.deep_view() == Seq::<Seq<char>>::empty(),
            factory.tools@ == Map::<Seq<char>, ToolDefinitionView>::empty(),
    {
        let factory = AgentFactory { providers: Vec::new(), tools: Table::new() };
        assert(factory.providers.deep_view() =~= Seq::<Seq<char>>::empty());
        factory
    }

    /// Register a provider.
    pub fn register_provider(self, name: &str) -> (factory: Self)
        ensures
            factory.providers.deep_view() == self.providers.deep_view().push(name@),
            factory.tools == self.tools,
    {
        let ghost before = self.providers.deep_view();
        let mut factory = self;
        factory.providers.push(name.to_owned());
        assert(factory.providers.deep_view() =~= before.push(name@));
        factory
    }

    /// Register a tool, in place of an earlier one of the same name.
    pub fn register_tool(self, name: &str, tool: ToolDefinition) -> (factory: Self)
        ensures
            factory.tools@ == self.tools@.insert(name@, tool@),
            factory.providers == self.providers,
    {
        let mut factory = self;
        factory.tools.insert(name, tool);
        factory
    }

    /// Whether a provider is registered.
    pub fn has_provider(&self, name: &str) -> (known: bool)
        ensures
            known == self.providers.deep_view().contains(name@),
    {
        let ghost all = self.providers.deep_view();
        let mut i: usize = 0;
        while i < self.providers.len()
            invariant
                i <= self.providers@.len(),
                all == self.providers.deep_view(),
                forall|j: int| 0 <= j < i ==> #[trigger] all[j] != name@,
            decreases self.providers@.len() - i,
        {
            assert(all[i as int] == self.providers@[i as int]@);
            if str_eq(self.providers[i].as_str(), name) {
                assert(all[i as int] == name@);
                return true;
            }
            i += 1;
        }
        false
    }

    /// The provider that has to make the chat client of an agent.
    pub fn select_provider(&self, definition: &AgentDefinition) -> (result: AgentResult<String>)
        ensures
            match result {
                Ok(name) => name@ == provider_of(definition@) && self.providers.deep_view().contains(name@),
                Err(error) => !self.providers.deep_view().contains(provider_of(definition@)) && error@
                    == ErrorView::InvalidRequest("unknown provider: "@ + provider_of(definition@)),
            },
    {
        let name = definition.provider_name();
        if self.has_provider(name) {
            Ok(name.to_owned())
        } else {
            Err(AgentError::InvalidRequest(cat2("unknown provider: ", name)))
        }
    }

    /// The tools that an agent asks for.
    fn select_tools(&self, names: &Vec<String>) -> (result: AgentResult<Vec<ToolDefinition>>)
        ensures
            match result {
                Ok(tools) => first_unknown(names.deep_view(), self.tools@) is None && tools.deep_view() == tools_named(
                    names.deep_view(),
                    self.tools@,
                ),
                Err(error) => first_unknown(names.deep_view(), self.tools@) is Some && error@
                    == ErrorView::InvalidRequest(
                    "unknown tool: "@ + first_unknown(names.deep_view(), self.tools@)->Some_0,
                ),
            },
    {
        let ghost all = names.deep_view();
        let mut tools: Vec<ToolDefinition> = Vec::new();
        let mut i: usize = 0;
        assert(tools.deep_view() =~= tools_named(all.take(0), self.tools@));
        while i < names.len()
            invariant
                i <= names@.len(),
                all == names.deep_view(),
                first_unknown(all.take(i as int), self.tools@) is None,
                tools.deep_view() == tools_named(all.take(i as int), self.tools@),
            decreases names@.len() - i,
        {
            let ghost before = tools.deep_view();
            assert(all.take(i + 1).drop_last() =~= all.take(i as int));
            assert(all[i as int] == names@[i as int]@);
            match self.tools.get(names[i].as_str()) {
                Some(tool) => {
                    tools.push(tool.clone());
                    assert(tools.deep_view() =~= before.push(self.tools@[all[i as int]]));
                    assert(tools.deep_view() =~= tools_named(all.take(i + 1), self.tools@));
                },
                None => {
                    proof {
                        lemma_first_unknown(all.take(i + 1), all.skip(i + 1), self.tools@);
                        assert(all.take(i + 1) + all.skip(i + 1) =~= all);
                    }
                    return Err(AgentError::InvalidRequest(cat2("unknown tool: ", names[i].as_str())));
                },
            }
            i += 1;
        }
        assert(all.take(i as int) =~= all);
        Ok(tools)
    }

    /// Build an agent from its description, once its provider was asked to make the
    /// chat client.
    pub fn build(&self, definition: &AgentDefinition, client: AgentResult<()>) -> (result: AgentResult<ChatClientAgent>)
        ensures
            match result {
                Ok(agent) => {
                    &&& self.providers.deep_view().contains(provider_of(definition@))
                    &&& client is Ok
                    &&& first_unknown(definition@.tools, self.tools@) is None
                    &&& is_defined_by(agent, definition@, self.tools@)
                },
                Err(error) => if !self.providers.deep_view().contains(provider_of(definition@)) {
                    error@ == ErrorView::InvalidRequest("unknown provider: "@ + provider_of(definition@))
                } else {
                    match client {
                        Err(refused) => error == refused,
                        Ok(_) => first_unknown(definition@.tools, self.tools@) is Some && error@
                            == ErrorView::InvalidRequest(
                            "unknown tool: "@ + first_unknown(definition@.tools, self.tools@)->Some_0,
                        ),
                    }
                },
            },
    {
        if let Err(error) = self.select_provider(definition) {
            return Err(error);
        }
        if let Err(error) = client {
            return Err(error);
        }
        let tools = match self.select_tools(&definition.tools) {
            Ok(tools) => tools,
            Err(error) => {
                return Err(error);
            },
        };
        let ghost selected = tools.deep_view();
        let mut builder = ChatClientAgent::builder().client().name(definition.name.as_str());
        if let Some(description) = &definition.description {
            builder = builder.description(description.as_str());
        }
        if let Some(instructions) = &definition.instructions {
            builder = builder.instructions(instructions.as_str());
        }
        if let Some(max) = definition.max_tool_rounds {
            builder = builder.max_tool_rounds(max);
        }
        if let Some(model) = &definition.model {
            builder = builder.options(ChatOptions { model: Some(model.clone()), ..ChatOptions::default() });
        }
        let builder: ChatClientAgentBuilder = builder.tools(tools);
        assert(builder.tools.deep_view() =~= selected);
        builder.build()
    }
}

impl Default for AgentFactory {
    fn default() -> (factory: Self)
        ensures
            factory.providers.deep_view() == Seq::<Seq<char>>::empty(),
            factory.tools@ == Map::<Seq<char>, ToolDefinitionView>::empty(),
    {
        Self::new()
    }
}

proof fn lemma_first_unknown(
    a: Seq<Seq<char>>,
    b: Seq<Seq<char>>,
    known: Map<Seq<char>, ToolDefinitionView>,
)
    requires
        first_unknown(a, known) is Some,
    ensures
        first_unknown(a + b, known) == first_unknown(a, known),
    decreases b.len(),
{
    if b.len() == 0 {
        assert(a + b =~= a);
    } else {
        lemma_first_unknown(a, b.drop_last(), known);
        assert((a + b).drop_last() =~= a + b.drop_last());
    }
}

/// The first name that is not known is found: it is one of the names, it is not known,
/// and all names before it are; and if none is found, all are known.
pub proof fn law_first_unknown_tool(names: Seq<Seq<char>>, known: Map<Seq<char>, ToolDefinitionView>)
    ensures
        match first_unknown(names, known) {
            Some(name) => exists|i: int|
                {
                    &&& 0 <= i < names.len()
                    &&& #[trigger] names[i] == name
                    &&& !known.dom().contains(name)
                    &&& forall|k: int| 0 <= k < i ==> known.dom().contains(#[trigger] names[k])
                },
            None => forall|k: int| 0 <= k < names.len() ==> known.dom().contains(#[trigger] names[k]),
        },
    decreases names.len(),
{
    if names.len() > 0 {
        let rest = names.drop_last();
        law_first_unknown_tool(rest, known);
        assert forall|k: int| 0 <= k < rest.len() implies (#[trigger] names[k]) == rest[k] by {}
        match first_unknown(rest, known) {
            Some(name) => {
                let i = choose|i: int|
                    {
                        &&& 0 <= i < rest.len()
                        &&& #[trigger] rest[i] == name
                        &&& !known.dom().contains(name)
                        &&& forall|k: int| 0 <= k < i ==> known.dom().contains(#[trigger] rest[k])
                    };
                assert(names[i] == name);
                assert forall|k: int| 0 <= k < i implies known.dom().contains(#[trigger] names[k]) by {
                    assert(known.dom().contains(rest[k]));
                }
            },
            None => {
                assert forall|k: int| 0 <= k < rest.len() implies known.dom().contains(#[trigger] names[k]) by {
                    assert(known.dom().contains(rest[k]));
                }
                assert(names[names.len() - 1] == names.last());
            },
        }
    }
}

/// An agent is what its description says: it has its name, its instructions and its
/// description, its tools by their names in their order, its model, and as many rounds
/// as it asks for, or else ten.
pub proof fn law_agent_is_as_described(
    agent: ChatClientAgent,
    definition: AgentDefinitionView,
    known: Map<Seq<char>, ToolDefinitionView>,
)
    requires
        is_defined_by(agent, definition, known),
    ensures
        agent.name.deep_view() == Some(definition.name),
        agent.description.deep_view() == definition.description,
        agent.instructions.deep_view() == definition.instructions,
        agent.tools.deep_view().len() == definition.tools.len(),
        forall|i: int|
            0 <= i < definition.tools.len() ==> #[trigger] agent.tools.deep_view()[i] == known[definition.tools[i]],
        agent.options@.model == definition.model,
        agent.options@ == (ChatOptionsView { model: definition.model, ..no_options() }),
        definition.max_tool_rounds is Some ==> agent.max_tool_rounds == definition.max_tool_rounds->0,
        definition.max_tool_rounds is None ==> agent.max_tool_rounds == 10,
{
}

/// An agent that names a provider gets that one, and else the default one. The model of a
/// description has all that the description holds.
pub proof fn law_provider_is_as_described(definition: AgentDefinition)
    ensures
        definition.provider matches Some(name) ==> provider_of(definition@) == name@,
        definition.provider is None ==> provider_of(definition@) == "anthropic"@,
        definition@.name == definition.name@,
        definition@.instructions == definition.instructions.deep_view(),
        definition@.model == definition.model.deep_view(),
        definition@.provider == definition.provider.deep_view(),
        definition@.tools == definition.tools.deep_view(),
        definition@.max_tool_rounds == definition.max_tool_rounds,
        definition@.description == definition.description.deep_view(),
        definition@.extra == definition.extra@,
{
}

} // verus!
