//! What a context provider supplies for a run.

use vstd::prelude::*;

use crate::tools::{ToolDefinition, ToolDefinitionView};
use crate::types::{Message, MessageView};

verus! {

/// Additional context that is injected into an agent run.
#[derive(Debug)]
pub struct AIContext {
    /// Additional system instructions.
    pub instructions: Option<String>,
    /// Additional context messages to include.
    pub messages: Vec<Message>,
    /// Additional tools available for this run.
    pub tools: Vec<ToolDefinition>,
}

/// What a context holds.
#[verifier::ext_equal]
pub struct AIContextView {
    pub instructions: Option<Seq<char>>,
    pub messages: Seq<MessageView>,
    pub tools: Seq<ToolDefinitionView>,
}

impl View for AIContext {
    type V = AIContextView;

    open spec fn view(&self) -> AIContextView {
        AIContextView {
            instructions: self.instructions.deep_view(),
            messages: self.messages.deep_view(),
            tools: self.tools.deep_view(),
        }
    }
}

impl DeepView for AIContext {
    type V = AIContextView;

    open spec fn deep_view(&self) -> AIContextView {
        self@
    }
}

/// A context that adds nothing.
pub open spec fn no_context() -> AIContextView {
    AIContextView { instructions: None, messages: Seq::empty(), tools: Seq::empty() }
}

/// A context that adds instructions alone.
pub open spec fn instructions_only(text: Seq<char>) -> AIContextView {
    AIContextView { instructions: Some(text), messages: Seq::empty(), tools: Seq::empty() }
}

impl Default for AIContext {
    fn default() -> (context: Self)
        ensures
            context@ == no_context(),
    {
        let context = AIContext { instructions: None, messages: Vec::new(), tools: Vec::new() };
        assert(context@ =~= no_context());
        context
    }
}

impl AIContext {
    /// A context that adds instructions alone.
    pub fn of_instructions(text: String) -> (context: Self)
        ensures
            context@ == instructions_only(text@),
    {
        let context = AIContext { instructions: Some(text), messages: Vec::new(), tools: Vec::new() };
        assert(context@ =~= instructions_only(text@));
        context
    }
}

/// A context that adds nothing has neither instructions nor messages nor tools, and one
/// of instructions has these alone. The model of a context has all that it holds.
pub proof fn law_contexts(text: Seq<char>, context: AIContext)
    ensures
        no_context().instructions is None,
        no_context().messages.len() == 0,
        no_context().tools.len() == 0,
        instructions_only(text).instructions == Some(text),
        instructions_only(text).messages.len() == 0,
        instructions_only(text).tools.len() == 0,
        context@.instructions == context.instructions.deep_view(),
        context@.messages == context.messages.deep_view(),
        context@.tools == context.tools.deep_view(),
{
}

} // verus!
