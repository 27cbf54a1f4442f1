//! Agents that wrap another agent: when a failed run is tried again.

use vstd::prelude::*;

use vstd::arithmetic::power2::{lemma2_to64, lemma_pow2_adds, lemma_pow2_strictly_increases, lemma_pow2_unfold, pow2};

use crate::error::{AgentError, ErrorView};

verus! {

/// An agent that tries a run again after a transient error.
#[derive(Debug, Clone, Copy)]
pub struct RetryAgent {
    /// How often a run is tried again.
    pub max_retries: usize,
}

/// Whether a run that failed with this error may succeed when it is tried again.
pub open spec fn retryable(error: ErrorView) -> bool {
    match error {
        ErrorView::ProviderError { status_code, .. } => match status_code {
            Some(code) => code == 429 || code == 500 || code == 502 || code == 503 || code == 504,
            None => false,
        },
        ErrorView::HttpError(_) => true,
        _ => false,
    }
}

/// Whether a run that failed with this error may succeed when it is tried again.
pub fn is_retryable(error: &AgentError) -> (r: bool)
    ensures
        r == retryable(error@),
{
    match error {
        AgentError::ProviderError { status_code, .. } => match status_code {
            Some(code) => *code == 429 || *code == 500 || *code == 502 || *code == 503 || *code == 504,
            None => false,
        },
        AgentError::HttpError(_) => true,
        _ => false,
    }
}

/// How many milliseconds pass before the next attempt: 100 after the first, and
/// twice as many after each further one.
pub open spec fn retry_delay(attempt: nat) -> nat {
    100 * pow2(attempt)
}

/// The last attempt after which the delay can be counted in 64 bits.
pub const LAST_COUNTED_ATTEMPT: usize = 57;

/// Up to that attempt the delay fits.
proof fn lemma_delay_fits(attempt: nat)
    requires
        attempt <= LAST_COUNTED_ATTEMPT,
    ensures
        retry_delay(attempt) <= u64::MAX,
{
    lemma2_to64();
    lemma_pow2_adds(25, 32);
    if attempt < 57 {
        lemma_pow2_strictly_increases(attempt, 57);
    }
}

/// What follows a failed attempt.
#[derive(Debug)]
pub enum RetryStep {
    /// Wait, then try again.
    Retry { delay_ms: u64 },
    /// Return the error.
    GiveUp,
}

impl RetryAgent {
    /// An agent that tries a run again up to `max_retries` times.
    pub fn new(max_retries: usize) -> (agent: Self)
        ensures
            agent.max_retries == max_retries,
    {
        RetryAgent { max_retries }
    }

    /// Whether a run is tried again after an attempt, counted from zero, failed.
    pub open spec fn retries(&self, attempt: nat, error: ErrorView) -> bool {
        attempt < self.max_retries && retryable(error)
    }

    /// What follows a failed attempt, counted from zero.
    pub fn after_failure(&self, attempt: usize, error: &AgentError) -> (step: RetryStep)
        requires
            self.retries(attempt as nat, error@) ==> attempt <= LAST_COUNTED_ATTEMPT,
        ensures
            match step {
                RetryStep::Retry { delay_ms } => self.retries(attempt as nat, error@) && delay_ms == retry_delay(
                    attempt as nat,
                ),
                RetryStep::GiveUp => !self.retries(attempt as nat, error@),
            },
    {
        if attempt < self.max_retries && is_retryable(error) {
            let mut delay_ms: u64 = 100;
            proof {
                lemma2_to64();
            }
            let mut i: usize = 0;
            while i < attempt
                invariant
                    i <= attempt <= LAST_COUNTED_ATTEMPT,
                    delay_ms == retry_delay(i as nat),
                decreases attempt - i,
            {
                proof {
                    lemma_delay_fits((i + 1) as nat);
                    lemma_pow2_unfold((i + 1) as nat);
                }
                delay_ms = delay_ms * 2;
                i += 1;
            }
            RetryStep::Retry { delay_ms }
        } else {
            RetryStep::GiveUp
        }
    }
}

/// A run is attempted at most once more than it may be tried again, and an error
/// that is not transient ends it at once.
pub proof fn law_retries_are_bounded(agent: RetryAgent, attempt: nat, error: ErrorView)
    ensures
        agent.retries(attempt, error) ==> attempt + 1 <= agent.max_retries,
        !retryable(error) ==> !agent.retries(attempt, error),
        retry_delay(0) == 100,
        retry_delay(attempt + 1) == 2 * retry_delay(attempt),
{
    lemma2_to64();
    lemma_pow2_unfold(attempt + 1);
}

/// A run is tried again after an error of the transport, after too many requests and
/// after a failure of the server, and after no other error; and as often as it may.
pub proof fn law_transient_errors(agent: RetryAgent, attempt: nat, message: Seq<char>, name: Seq<char>, code: u16)
    ensures
        retryable(ErrorView::HttpError(message)),
        retryable(ErrorView::ProviderError { message, status_code: Some(code) }) <==> code == 429 || code == 500
            || code == 502 || code == 503 || code == 504,
        !retryable(ErrorView::ProviderError { message, status_code: None }),
        !retryable(ErrorView::InvalidRequest(message)),
        !retryable(ErrorView::InvalidResponse(message)),
        !retryable(ErrorView::ToolError { tool_name: name, message }),
        !retryable(ErrorView::SerializationError(message)),
        !retryable(ErrorView::Unimplemented(message)),
        !retryable(ErrorView::Other(message)),
        agent.retries(attempt, ErrorView::HttpError(message)) <==> attempt < agent.max_retries,
{
}

} // verus!
