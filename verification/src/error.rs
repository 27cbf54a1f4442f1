//! Errors of agent operations.

use vstd::prelude::*;

use crate::text::{cat2, cat4};

verus! {

/// An error that can occur during an agent operation.
#[derive(Debug)]
pub enum AgentError {
    /// The request to the agent was invalid.
    InvalidRequest(String),
    /// The agent produced an invalid response.
    InvalidResponse(String),
    /// An error occurred in the model provider.
    ProviderError { message: String, status_code: Option<u16> },
    /// An error occurred during tool invocation.
    ToolError { tool_name: String, message: String },
    /// A serialization or deserialization error, as the serializer words it.
    SerializationError(String),
    /// An HTTP transport error.
    HttpError(String),
    /// The operation is not available.
    Unimplemented(String),
    /// Any other error, by its message.
    Other(String),
}

/// A specialized [`Result`] type for agent operations.
pub type AgentResult<T> = Result<T, AgentError>;

/// What an error holds.
#[verifier::ext_equal]
pub enum ErrorView {
    InvalidRequest(Seq<char>),
    InvalidResponse(Seq<char>),
    ProviderError { message: Seq<char>, status_code: Option<u16> },
    ToolError { tool_name: Seq<char>, message: Seq<char> },
    SerializationError(Seq<char>),
    HttpError(Seq<char>),
    Unimplemented(Seq<char>),
    Other(Seq<char>),
}

impl View for AgentError {
    type V = ErrorView;

    open spec fn view(&self) -> ErrorView {
        match self {
            AgentError::InvalidRequest(m) => ErrorView::InvalidRequest(m@),
            AgentError::InvalidResponse(m) => ErrorView::InvalidResponse(m@),
            AgentError::ProviderError { message, status_code } => ErrorView::ProviderError {
                message: message@,
                status_code: *status_code,
            },
            AgentError::ToolError { tool_name, message } => ErrorView::ToolError {
                tool_name: tool_name@,
                message: message@,
            },
            AgentError::SerializationError(m) => ErrorView::SerializationError(m@),
            AgentError::HttpError(m) => ErrorView::HttpError(m@),
            AgentError::Unimplemented(m) => ErrorView::Unimplemented(m@),
            AgentError::Other(m) => ErrorView::Other(m@),
        }
    }
}

impl DeepView for AgentError {
    type V = ErrorView;

    open spec fn deep_view(&self) -> ErrorView {
        self@
    }
}

/// What the outcome of a fallible call holds.
pub open spec fn outcome_view<T: DeepView>(outcome: Result<T, AgentError>) -> Result<T::V, ErrorView> {
    match outcome {
        Ok(value) => Ok(value.deep_view()),
        Err(error) => Err(error@),
    }
}

/// How an error reads.
pub open spec fn error_text(error: ErrorView) -> Seq<char> {
    match error {
        ErrorView::InvalidRequest(m) => "Invalid request: "@ + m,
        ErrorView::InvalidResponse(m) => "Invalid response: "@ + m,
        ErrorView::ProviderError { message, .. } => "Provider error: "@ + message,
        ErrorView::ToolError { tool_name, message } => "Tool invocation error for '"@ + tool_name + "': "@ + message,
        ErrorView::SerializationError(m) => "Serialization error: "@ + m,
        ErrorView::HttpError(m) => "HTTP error: "@ + m,
        ErrorView::Unimplemented(m) => "Not implemented: "@ + m,
        ErrorView::Other(m) => m,
    }
}

impl AgentError {
    /// Create a provider error with an optional HTTP status code.
    pub fn provider(message: &str, status_code: Option<u16>) -> (error: Self)
        ensures
            error@ == (ErrorView::ProviderError { message: message@, status_code }),
    {
        AgentError::ProviderError { message: message.to_owned(), status_code }
    }

    /// Create a tool invocation error.
    pub fn tool(name: &str, message: &str) -> (error: Self)
        ensures
            error@ == (ErrorView::ToolError { tool_name: name@, message: message@ }),
    {
        AgentError::ToolError { tool_name: name.to_owned(), message: message.to_owned() }
    }

    /// Create an error for an invalid request.
    pub fn invalid_request(message: &str) -> (error: Self)
        ensures
            error@ == ErrorView::InvalidRequest(message@),
    {
        AgentError::InvalidRequest(message.to_owned())
    }

    /// The message of the error, as it is shown to a user.
    pub fn to_text(&self) -> (text: String)
        ensures
            text@ == error_text(self@),
    {
        match self {
            AgentError::InvalidRequest(m) => cat2("Invalid request: ", m.as_str()),
            AgentError::InvalidResponse(m) => cat2("Invalid response: ", m.as_str()),
            AgentError::ProviderError { message, .. } => cat2("Provider error: ", message.as_str()),
            AgentError::ToolError { tool_name, message } => cat4(
                "Tool invocation error for '",
                tool_name.as_str(),
                "': ",
                message.as_str(),
            ),
            AgentError::SerializationError(m) => cat2("Serialization error: ", m.as_str()),
            AgentError::HttpError(m) => cat2("HTTP error: ", m.as_str()),
            AgentError::Unimplemented(m) => cat2("Not implemented: ", m.as_str()),
            AgentError::Other(m) => m.clone(),
        }
    }
}

/// An error reads as its kind and then its message; another error is its message alone.
pub proof fn law_errors_read_as_their_kind(message: Seq<char>, name: Seq<char>, status_code: Option<u16>)
    ensures
        error_text(ErrorView::InvalidRequest(message)) == "Invalid request: "@ + message,
        error_text(ErrorView::InvalidResponse(message)) == "Invalid response: "@ + message,
        error_text(ErrorView::ProviderError { message, status_code }) == "Provider error: "@ + message,
        error_text(ErrorView::ToolError { tool_name: name, message }) == "Tool invocation error for '"@ + name
            + "': "@ + message,
        error_text(ErrorView::SerializationError(message)) == "Serialization error: "@ + message,
        error_text(ErrorView::HttpError(message)) == "HTTP error: "@ + message,
        error_text(ErrorView::Unimplemented(message)) == "Not implemented: "@ + message,
        error_text(ErrorView::Other(message)) == message,
{
}

/// The model of an error has its kind and all that it says, and that of an outcome is
/// the value or the error.
pub proof fn law_error_model_is_complete<T: DeepView>(error: AgentError, outcome: Result<T, AgentError>)
    ensures
        error is InvalidRequest ==> error@ == ErrorView::InvalidRequest(error->InvalidRequest_0@),
        error is InvalidResponse ==> error@ == ErrorView::InvalidResponse(error->InvalidResponse_0@),
        error is ProviderError ==> error@ is ProviderError && error@->ProviderError_message
            == error->ProviderError_message@ && error@->status_code == error->status_code,
        error is ToolError ==> error@ is ToolError && error@->tool_name == error->tool_name@
            && error@->ToolError_message == error->ToolError_message@,
        error is SerializationError ==> error@ == ErrorView::SerializationError(error->SerializationError_0@),
        error is HttpError ==> error@ == ErrorView::HttpError(error->HttpError_0@),
        error is Unimplemented ==> error@ == ErrorView::Unimplemented(error->Unimplemented_0@),
        error is Other ==> error@ == ErrorView::Other(error->Other_0@),
        outcome is Ok ==> outcome_view(outcome) == Ok::<T::V, ErrorView>(outcome->Ok_0.deep_view()),
        outcome is Err ==> outcome_view(outcome) == Err::<T::V, ErrorView>(outcome->Err_0@),
{
}

} // verus!
