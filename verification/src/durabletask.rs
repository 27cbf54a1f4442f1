//! Runs of agents that are started, recorded and asked for later.

use vstd::prelude::*;

use crate::calendar::{format_timestamp, iso_timestamp};
use crate::error::{error_text, outcome_view, AgentError, AgentResult, ErrorView};
use crate::ids::{fresh_id, is_uuid};
use crate::json::{Json, JsonView};
use crate::table::Table;
use crate::text::cat3;
use crate::time::epoch_seconds;
use crate::types::{AgentResponse, AgentResponseView};

verus! {

/// The lifecycle state of a task.
#[derive(Debug, Clone, Copy, PartialEq, Eq, Hash, Structural)]
pub enum DurableTaskState {
    /// The task was created and no worker has picked it up.
    Pending,
    /// A worker executes the agent.
    Running,
    /// The agent has finished successfully.
    Completed,
    /// The agent has returned an error.
    Failed,
    /// The task was cancelled before it completed.
    Cancelled,
}

/// Whether a task in a state has come to its end.
pub open spec fn terminal(state: DurableTaskState) -> bool {
    state is Completed || state is Failed || state is Cancelled
}

impl DurableTaskState {
    /// Whether the task has come to its end.
    pub fn is_terminal(self) -> (r: bool)
        ensures
            r == terminal(self),
    {
        match self {
            DurableTaskState::Completed | DurableTaskState::Failed | DurableTaskState::Cancelled => true,
            DurableTaskState::Pending | DurableTaskState::Running => false,
        }
    }

    /// Whether the task has not come to its end yet.
    pub fn is_active(self) -> (r: bool)
        ensures
            r == !terminal(self),
    {
        !self.is_terminal()
    }
}

/// The record of a task.
#[derive(Debug)]
pub struct DurableTask<T> {
    /// The identifier of the task.
    pub id: String,
    /// The state that it is in.
    pub state: DurableTaskState,
    /// The result, if the task has completed.
    pub result: Option<T>,
    /// The error message, if the task has failed.
    pub error: Option<String>,
    /// When the task was created.
    pub created_at: String,
    /// When its state last changed.
    pub updated_at: String,
}

/// What a record holds.
#[verifier::ext_equal]
pub struct DurableTaskView<T> {
    pub id: Seq<char>,
    pub state: DurableTaskState,
    pub result: Option<T>,
    pub error: Option<Seq<char>>,
    pub created_at: Seq<char>,
    pub updated_at: Seq<char>,
}

impl<T: DeepView> View for DurableTask<T> {
    type V = DurableTaskView<T::V>;

    open spec fn view(&self) -> DurableTaskView<T::V> {
        DurableTaskView {
            id: self.id@,
            state: self.state,
            result: self.result.deep_view(),
            error: self.error.deep_view(),
            created_at: self.created_at@,
            updated_at: self.updated_at@,
        }
    }
}

/// The record of an agent run.
pub type AgentDurableTask = DurableTask<AgentResponse>;

/// What the record of an agent run holds.
pub type AgentTaskView = DurableTaskView<AgentResponseView>;

/// Whether a text is a point in time, to the second.
pub open spec fn is_timestamp(text: Seq<char>) -> bool {
    exists|seconds: nat| text == #[trigger] iso_timestamp(seconds)
}

/// The record of a task that nobody has worked on.
pub open spec fn pending_task<T>(id: Seq<char>, now: Seq<char>) -> DurableTaskView<T> {
    DurableTaskView {
        id,
        state: DurableTaskState::Pending,
        result: None,
        error: None,
        created_at: now,
        updated_at: now,
    }
}

/// The record after a change of state.
pub open spec fn transitioned<T>(
    task: DurableTaskView<T>,
    state: DurableTaskState,
    now: Seq<char>,
) -> DurableTaskView<T> {
    DurableTaskView { state, updated_at: now, ..task }
}

/// The current time, to the second.
fn current_timestamp() -> (text: String)
    ensures
        is_timestamp(text@),
{
    let seconds: u64 = epoch_seconds();
    let text = format_timestamp(seconds);
    assert(text@ == iso_timestamp(seconds as nat));
    text
}

impl<T: DeepView> DurableTask<T> {
    /// The record of a task that was created at a given time.
    pub fn created(id: &str, now: String) -> (task: Self)
        ensures
            task@ == pending_task::<T::V>(id@, now@),
    {
        DurableTask {
            id: id.to_owned(),
            state: DurableTaskState::Pending,
            result: None,
            error: None,
            created_at: now.clone(),
            updated_at: now,
        }
    }

    /// A new task with a fresh identifier.
    pub fn new() -> (task: Self)
        ensures
            is_uuid(task@.id),
            is_timestamp(task@.created_at),
            task@ == pending_task::<T::V>(task@.id, task@.created_at),
    {
        let id = fresh_id();
        Self::created(id.as_str(), current_timestamp())
    }

    /// A new task with a given identifier.
    pub fn with_id(id: &str) -> (task: Self)
        ensures
            is_timestamp(task@.created_at),
            task@ == pending_task::<T::V>(id@, task@.created_at),
    {
        Self::created(id, current_timestamp())
    }

    /// Change the state at a given time.
    pub fn transition_at(&mut self, state: DurableTaskState, now: String)
        ensures
            final(self)@ == transitioned(old(self)@, state, now@),
    {
        self.state = state;
        self.updated_at = now;
    }

    /// Change the state now.
    pub fn transition(&mut self, state: DurableTaskState)
        ensures
            is_timestamp(final(self)@.updated_at),
            final(self)@ == transitioned(old(self)@, state, final(self)@.updated_at),
    {
        self.transition_at(state, current_timestamp());
    }
}

impl<T: DeepView> Default for DurableTask<T> {
    fn default() -> (task: Self)
        ensures
            is_uuid(task@.id),
            is_timestamp(task@.created_at),
            task@ == pending_task::<T::V>(task@.id, task@.created_at),
    {
        Self::new()
    }
}

// ---------------------------------------------------------------------------
// Keeping records
// ---------------------------------------------------------------------------

/// A store of records in memory. What a record holds is not looked at.
#[derive(Debug)]
pub struct InMemoryTaskStore {
    records: Table<Json>,
}

impl View for InMemoryTaskStore {
    type V = Map<Seq<char>, JsonView>;

    closed spec fn view(&self) -> Map<Seq<char>, JsonView> {
        self.records@
    }
}

impl InMemoryTaskStore {
    /// Every task has one record.
    pub closed spec fn wf(&self) -> bool {
        self.records.distinct()
    }

    /// A store without records.
    pub fn new() -> (store: Self)
        ensures
            store.wf(),
            store@ == Map::<Seq<char>, JsonView>::empty(),
    {
        InMemoryTaskStore { records: Table::new() }
    }

    /// The number of records.
    pub fn len(&self) -> (n: usize)
        requires
            self.wf(),
        ensures
            n == self@.dom().len(),
            self@.dom().finite(),
    {
        self.records.len()
    }

    /// Whether there is no record.
    pub fn is_empty(&self) -> (empty: bool)
        ensures
            empty == (self@ == Map::<Seq<char>, JsonView>::empty()),
    {
        self.records.is_empty()
    }

    /// Keep a record, in place of an earlier one of the same task.
    pub fn save(&mut self, task_id: &str, state: Json)
        requires
            old(self).wf(),
        ensures
            final(self).wf(),
            final(self)@ == old(self)@.insert(task_id@, state@),
    {
        self.records.insert(task_id, state);
    }

    /// The record of a task.
    pub fn load(&self, task_id: &str) -> (found: Option<Json>)
        ensures
            match found {
                Some(state) => self@.dom().contains(task_id@) && state@ == self@[task_id@],
                None => !self@.dom().contains(task_id@),
            },
    {
        match self.records.get(task_id) {
            Some(state) => Some(state.clone()),
            None => None,
        }
    }

    /// Drop the record of a task, if there is one.
    pub fn delete(&mut self, task_id: &str)
        requires
            old(self).wf(),
        ensures
            final(self).wf(),
            final(self)@ == old(self)@.remove(task_id@),
    {
        self.records.remove(task_id);
    }
}

impl Default for InMemoryTaskStore {
    fn default() -> (store: Self)
        ensures
            store.wf(),
            store@ == Map::<Seq<char>, JsonView>::empty(),
    {
        Self::new()
    }
}

// ---------------------------------------------------------------------------
// Running an agent
// ---------------------------------------------------------------------------

/// The record when an agent has answered.
pub open spec fn finished(task: AgentTaskView, outcome: Result<AgentResponseView, ErrorView>, now: Seq<char>) -> AgentTaskView {
    match outcome {
        Ok(response) => transitioned(
            DurableTaskView { result: Some(response), ..task },
            DurableTaskState::Completed,
            now,
        ),
        Err(error) => transitioned(
            DurableTaskView { error: Some(error_text(error)), ..task },
            DurableTaskState::Failed,
            now,
        ),
    }
}

/// What asking for the result of a task gives.
pub open spec fn task_result(
    task_id: Seq<char>,
    found: Option<AgentTaskView>,
) -> Result<Option<AgentResponseView>, ErrorView> {
    match found {
        None => Err(ErrorView::InvalidRequest("durable task "@ + task_id + " not found"@)),
        Some(task) => match task.state {
            DurableTaskState::Completed => Ok(task.result),
            DurableTaskState::Failed => Err(
                ErrorView::ProviderError {
                    message: match task.error {
                        Some(message) => message,
                        None => "durable task failed"@,
                    },
                    status_code: None,
                },
            ),
            DurableTaskState::Cancelled => Err(
                ErrorView::InvalidRequest("durable task "@ + task_id + " was cancelled"@),
            ),
            DurableTaskState::Pending | DurableTaskState::Running => Ok(None),
        },
    }
}

/// The rules of a durable run. Who runs the agent and reaches the store follows them.
#[derive(Debug)]
pub struct DurableAgent;

impl DurableAgent {
    /// The record that a run starts with, as it was found: one that is missing is made
    /// anew.
    pub fn start_work(task_id: &str, found: Option<AgentDurableTask>) -> (task: AgentDurableTask)
        ensures
            task@.state is Running,
            is_timestamp(task@.updated_at),
            match found {
                Some(before) => task@ == transitioned(before@, DurableTaskState::Running, task@.updated_at),
                None => is_timestamp(task@.created_at) && task@ == transitioned(
                    pending_task::<AgentResponseView>(task_id@, task@.created_at),
                    DurableTaskState::Running,
                    task@.updated_at,
                ),
            },
    {
        let mut task = match found {
            Some(task) => task,
            None => DurableTask::with_id(task_id),
        };
        task.transition(DurableTaskState::Running);
        task
    }

    /// The record when the agent has answered at a given time.
    pub fn finish_work_at(
        task: AgentDurableTask,
        outcome: AgentResult<AgentResponse>,
        now: String,
    ) -> (done: AgentDurableTask)
        ensures
            done@ == finished(task@, outcome_view(outcome), now@),
    {
        let mut task = task;
        match outcome {
            Ok(response) => {
                task.result = Some(response);
                task.transition_at(DurableTaskState::Completed, now);
            },
            Err(error) => {
                task.error = Some(error.to_text());
                task.transition_at(DurableTaskState::Failed, now);
            },
        }
        task
    }

    /// The record when the agent has answered now.
    pub fn finish_work(task: AgentDurableTask, outcome: AgentResult<AgentResponse>) -> (done: AgentDurableTask)
        ensures
            is_timestamp(done@.updated_at),
            done@ == finished(task@, outcome_view(outcome), done@.updated_at),
    {
        Self::finish_work_at(task, outcome, current_timestamp())
    }

    /// The state of a task, from its record as it was found.
    pub fn get_status(task_id: &str, found: &Option<AgentDurableTask>) -> (result: AgentResult<DurableTaskState>)
        ensures
            match found {
                Some(task) => result == Ok::<DurableTaskState, AgentError>(task.state),
                None => result is Err && result->Err_0@ == ErrorView::InvalidRequest(
                    "durable task "@ + task_id@ + " not found"@,
                ),
            },
    {
        match found {
            Some(task) => Ok(task.state),
            None => Err(
                AgentError::InvalidRequest(cat3("durable task ", task_id, " not found")),
            ),
        }
    }

    /// The result of a task, from its record as it was found; `None` while it is not
    /// complete.
    pub fn get_result(task_id: &str, found: Option<AgentDurableTask>) -> (result: AgentResult<Option<AgentResponse>>)
        ensures
            outcome_view(result) == task_result(
                task_id@,
                match found {
                    Some(task) => Some(task@),
                    None => None,
                },
            ),
    {
        let task = match found {
            Some(task) => task,
            None => {
                return Err(AgentError::InvalidRequest(cat3("durable task ", task_id, " not found")));
            },
        };
        match task.state {
            DurableTaskState::Completed => Ok(task.result),
            DurableTaskState::Failed => match task.error {
                Some(message) => Err(AgentError::provider(message.as_str(), None)),
                None => Err(AgentError::provider("durable task failed", None)),
            },
            DurableTaskState::Cancelled => Err(
                AgentError::InvalidRequest(cat3("durable task ", task_id, " was cancelled")),
            ),
            DurableTaskState::Pending | DurableTaskState::Running => Ok(None),
        }
    }
}

/// A store gives back what was saved last, keeps the other records, and forgets what
/// was deleted.
pub proof fn law_store_reads_back(
    store: Map<Seq<char>, JsonView>,
    id: Seq<char>,
    state: JsonView,
    other: Seq<char>,
)
    ensures
        store.insert(id, state).dom().contains(id),
        store.insert(id, state)[id] == state,
        !store.remove(id).dom().contains(id),
        store.insert(id, state).remove(id) == store.remove(id),
        other != id ==> store.insert(id, state).dom().contains(other) == store.dom().contains(other),
        other != id && store.dom().contains(other) ==> store.insert(id, state)[other] == store[other]
            && store.remove(id)[other] == store[other],
{
    assert(store.insert(id, state).remove(id) =~= store.remove(id));
}

/// A run goes from pending over running to its end, and asking for its result gives
/// nothing on the way, then the response of the agent, or its error in a provider
/// error.
pub proof fn law_run_is_recorded(
    id: Seq<char>,
    outcome: Result<AgentResponseView, ErrorView>,
    created: Seq<char>,
    started: Seq<char>,
    ended: Seq<char>,
)
    ensures
        ({
            let pending = pending_task::<AgentResponseView>(id, created);
            let running = transitioned(pending, DurableTaskState::Running, started);
            let done = finished(running, outcome, ended);
            &&& !terminal(pending.state) && !terminal(running.state) && terminal(done.state)
            &&& task_result(id, Some(pending)) == Ok::<Option<AgentResponseView>, ErrorView>(None)
            &&& task_result(id, Some(running)) == Ok::<Option<AgentResponseView>, ErrorView>(None)
            &&& task_result(id, Some(done)) == match outcome {
                Ok(response) => Ok::<Option<AgentResponseView>, ErrorView>(Some(response)),
                Err(error) => Err(
                    ErrorView::ProviderError { message: error_text(error), status_code: None },
                ),
            }
            &&& done.id == id && done.created_at == created && done.updated_at == ended
        }),
{
}

/// A timestamp is a point in time, to the second.
pub proof fn law_timestamps_are_points_in_time(text: Seq<char>)
    requires
        is_timestamp(text),
    ensures
        exists|seconds: nat| text == #[trigger] iso_timestamp(seconds),
{
}

/// A task has come to its end exactly if it completed, failed or was cancelled.
pub proof fn law_ends_of_tasks(state: DurableTaskState)
    ensures
        !terminal(DurableTaskState::Pending),
        !terminal(DurableTaskState::Running),
        terminal(DurableTaskState::Completed),
        terminal(DurableTaskState::Failed),
        terminal(DurableTaskState::Cancelled),
{
}

/// A new task is pending, without result and error, since the time of its creation. A
/// change of state changes the state and the time of the change and nothing else.
pub proof fn law_records_change(id: Seq<char>, task: AgentTaskView, state: DurableTaskState, now: Seq<char>)
    ensures
        pending_task::<AgentResponseView>(id, now).id == id,
        pending_task::<AgentResponseView>(id, now).state == DurableTaskState::Pending,
        pending_task::<AgentResponseView>(id, now).result is None,
        pending_task::<AgentResponseView>(id, now).error is None,
        pending_task::<AgentResponseView>(id, now).created_at == now,
        pending_task::<AgentResponseView>(id, now).updated_at == now,
        transitioned(task, state, now).state == state,
        transitioned(task, state, now).updated_at == now,
        transitioned(task, state, now).id == task.id,
        transitioned(task, state, now).result == task.result,
        transitioned(task, state, now).error == task.error,
        transitioned(task, state, now).created_at == task.created_at,
{
}

/// When the agent has answered, the record holds the answer and is complete; when it has
/// failed, the record holds how the error reads and has failed. The rest stays.
pub proof fn law_outcome_is_recorded(task: AgentTaskView, response: AgentResponseView, error: ErrorView, now: Seq<char>)
    ensures
        ({
            let done = finished(task, Ok(response), now);
            let failed = finished(task, Err(error), now);
            &&& done.state == DurableTaskState::Completed
            &&& done.result == Some(response)
            &&& done.error == task.error
            &&& done.updated_at == now
            &&& done.id == task.id && done.created_at == task.created_at
            &&& failed.state == DurableTaskState::Failed
            &&& failed.error == Some(error_text(error))
            &&& failed.result == task.result
            &&& failed.updated_at == now
            &&& failed.id == task.id && failed.created_at == task.created_at
        }),
{
}

/// Asking for the result of a task gives its result once it is complete, its error once
/// it has failed, an error where it was cancelled or is not known, and nothing while it
/// is under way.
pub proof fn law_results_are_given(id: Seq<char>, task: AgentTaskView)
    ensures
        task_result(id, None) == Err::<Option<AgentResponseView>, ErrorView>(
            ErrorView::InvalidRequest("durable task "@ + id + " not found"@),
        ),
        task.state == DurableTaskState::Completed ==> task_result(id, Some(task)) == Ok::<
            Option<AgentResponseView>,
            ErrorView,
        >(task.result),
        task.state == DurableTaskState::Failed ==> task_result(id, Some(task)) == Err::<
            Option<AgentResponseView>,
            ErrorView,
        >(
            ErrorView::ProviderError {
                message: if task.error is Some { task.error->0 } else { "durable task failed"@ },
                status_code: None,
            },
        ),
        task.state == DurableTaskState::Cancelled ==> task_result(id, Some(task)) == Err::<
            Option<AgentResponseView>,
            ErrorView,
        >(ErrorView::InvalidRequest("durable task "@ + id + " was cancelled"@)),
        task.state == DurableTaskState::Pending || task.state == DurableTaskState::Running ==> task_result(
            id,
            Some(task),
        ) == Ok::<Option<AgentResponseView>, ErrorView>(None),
{
}

/// The model of a record has all that the record holds.
pub proof fn law_record_model_is_complete(task: AgentDurableTask)
    ensures
        task@.id == task.id@,
        task@.state == task.state,
        task@.result == task.result.deep_view(),
        task@.error == task.error.deep_view(),
        task@.created_at == task.created_at@,
        task@.updated_at == task.updated_at@,
{
}

} // verus!
