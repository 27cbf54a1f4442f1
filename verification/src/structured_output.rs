//! Typed responses: the model is told to answer in a JSON schema.

use vstd::prelude::*;

use crate::error::{AgentError, ErrorView};
use crate::json::Json;
use crate::text::cat4;
use crate::types::{
    clone_opt_string, no_options, AgentResponse, AgentRunOptions, ChatOptions, ChatOptionsView, ResponseFormat,
    ResponseFormatView,
};

verus! {

/// An agent response with the value that its text denotes.
#[derive(Debug)]
pub struct TypedAgentResponse<T> {
    /// The deserialized structured output.
    pub value: T,
    /// The underlying agent response.
    pub raw: AgentResponse,
}

/// The chat options of a call, with the response format replaced.
pub open spec fn with_format(options: Option<ChatOptionsView>, format: ResponseFormatView) -> ChatOptionsView {
    let base = match options {
        Some(o) => o,
        None => no_options(),
    };
    ChatOptionsView { response_format: Some(format), ..base }
}

/// The options of a call that must answer in the given JSON schema: what the
/// caller set stays, but for the response format.
pub fn structured_options(options: Option<&AgentRunOptions>, schema_name: &str, schema: Json) -> (out: AgentRunOptions)
    ensures
        out.chat_options.deep_view() == Some(
            with_format(
                match options {
                    Some(o) => o.chat_options.deep_view(),
                    None => None,
                },
                ResponseFormatView::JsonSchema { name: schema_name@, schema: schema@, strict: Some(true) },
            ),
        ),
        out.additional_instructions.deep_view() == match options {
            Some(o) => o.additional_instructions.deep_view(),
            None => None,
        },
{
    let format = ResponseFormat::JsonSchema { name: schema_name.to_owned(), schema, strict: Some(true) };
    let mut chat = match options {
        Some(o) => match &o.chat_options {
            Some(c) => c.clone(),
            None => ChatOptions::default(),
        },
        None => ChatOptions::default(),
    };
    chat.response_format = Some(format);
    let additional_instructions = match options {
        Some(o) => clone_opt_string(&o.additional_instructions),
        None => None,
    };
    AgentRunOptions { chat_options: Some(chat), additional_instructions }
}

/// The error for a response that is not of the type asked for.
pub fn structured_error(target: &str, message: &str) -> (error: AgentError)
    ensures
        error@ == ErrorView::InvalidResponse(
            "failed to deserialize structured output as "@ + target@ + ": "@ + message@,
        ),
{
    AgentError::InvalidResponse(cat4("failed to deserialize structured output as ", target, ": ", message))
}

/// Asking for a format sets it, whatever was asked for before, and changes nothing else
/// that the caller set; where the caller set nothing, nothing else is set.
pub proof fn law_only_the_format_is_set(options: ChatOptionsView, format: ResponseFormatView)
    ensures
        with_format(Some(options), format).response_format == Some(format),
        with_format(Some(options), format) == (ChatOptionsView { response_format: Some(format), ..options }),
        with_format(None, format) == (ChatOptionsView { response_format: Some(format), ..no_options() }),
{
}

} // verus!
