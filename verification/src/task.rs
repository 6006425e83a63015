//! Tasks, their steps and the state they expose.

use vstd::prelude::*;

use crate::errors::{TaskError, TaskResult};
use crate::retry::RetryPolicy;
use crate::schedule::{cron_rejection, Schedule, Zone};
use crate::time::{clock_reads, present, Duration, Timestamp};

verus! {

/// The default number of past [`RunRecord`]s kept per task.
pub const DEFAULT_HISTORY_LIMIT: usize = 20;

/// The types a runtime brings along.
///
/// A task carries its steps and callbacks without looking inside them; the runtime invokes
/// them.
pub trait Host {
    /// The body of a step.
    type Step;

    /// A lifecycle callback.
    type Callback;

    /// A handle on a [`Blackboard`](crate::Blackboard); a clone leads to the same store, and a
    /// default one to a fresh store.
    type Board: Clone + Default;

    /// Where the answer to a spawn request goes.
    type Reply;
}

/// Possible success status values for a step's execution.
#[derive(Debug, Clone, Copy, PartialEq, Eq, Structural)]
pub enum TaskStepStatusOk {
    /// The step was a success, move to the next one (or exit if last).
    Success,
    /// The step execution had errors but can continue the execution.
    HadErrors,
}

/// Possible error status values for a step's execution.
#[derive(Debug, Clone, Copy, PartialEq, Eq, Structural)]
pub enum TaskStepStatusErr {
    /// The task step execution failed.
    Error,
    /// The step failed and the task has to be removed from the execution list.
    ErrorDelete,
}

/// What an attempt at a step came to. An attempt that ran out of time counts as
/// [`TaskStepStatusErr::Error`].
pub type StepReply = Result<TaskStepStatusOk, TaskStepStatusErr>;

/// The execution context handed to a step each time it runs.
///
/// It identifies the run (which task, which run, which step, which attempt) and gives the step
/// access to two stores: the task-level board, shared across every run of the task, and a
/// store created fresh for each run.
#[derive(Debug)]
pub struct TaskContext<B> {
    pub task_id: usize,
    pub task_name: Option<String>,
    pub run_id: usize,
    pub step_index: usize,
    pub attempt: u32,
    pub blackboard: B,
    pub run_store: B,
}

impl<B: Clone> Clone for TaskContext<B> {
    fn clone(&self) -> (copy: TaskContext<B>)
        ensures
            cloned(self.blackboard, copy.blackboard),
            cloned(self.run_store, copy.run_store),
            copy == (TaskContext {
                blackboard: copy.blackboard,
                run_store: copy.run_store,
                ..*self
            }),
    {
        TaskContext {
            task_id: self.task_id,
            task_name: self.task_name.clone(),
            run_id: self.run_id,
            step_index: self.step_index,
            attempt: self.attempt,
            blackboard: self.blackboard.clone(),
            run_store: self.run_store.clone(),
        }
    }
}

impl<B> TaskContext<B> {
    /// The id the scheduler assigned to the running task.
    pub fn task_id(&self) -> (id: usize)
        ensures
            id == self.task_id,
    {
        self.task_id
    }

    /// The task's unique name, if one was set.
    pub fn task_name(&self) -> (name: Option<&str>)
        ensures
            match (name, self.task_name) {
                (Some(text), Some(held)) => text@ == held@,
                (None, None) => true,
                _ => false,
            },
    {
        match &self.task_name {
            Some(name) => Some(name.as_str()),
            None => None,
        }
    }

    /// The id of the current run (monotonically increasing per task).
    pub fn run_id(&self) -> (id: usize)
        ensures
            id == self.run_id,
    {
        self.run_id
    }

    /// The zero-based index of the step this context was handed to.
    pub fn step_index(&self) -> (index: usize)
        ensures
            index == self.step_index,
    {
        self.step_index
    }

    /// The current attempt number for this step, starting at 1. Values above 1 mean an earlier
    /// attempt failed and is being retried under the task's [`RetryPolicy`].
    pub fn attempt(&self) -> (attempt: u32)
        ensures
            attempt == self.attempt,
    {
        self.attempt
    }

    /// The task-level board, shared across runs (and across tasks that share the same board).
    pub fn blackboard(&self) -> (board: &B)
        ensures
            *board == self.blackboard,
    {
        &self.blackboard
    }

    /// The store of the current run, for handing values between its steps.
    pub fn run_store(&self) -> (store: &B)
        ensures
            *store == self.run_store,
    {
        &self.run_store
    }
}

/// A task step.
///
/// Contains the executable body and an optional short description.
#[derive(Debug)]
pub struct TaskStep<F> {
    /// The function's body.
    pub function: F,
    /// An (optional) short description.
    pub description: Option<String>,
}

impl<F> TaskStep<F> {
    /// How a step is shown: by its description, or by a dash where it has none.
    pub open spec fn shown(self) -> Seq<char> {
        match self.description {
            Some(description) if description@.len() > 0 => description@,
            _ => "-"@,
        }
    }

    /// A step with a description.
    pub fn new(description: &str, function: F) -> (step: TaskStep<F>)
        ensures
            step.function == function,
            step.description matches Some(text) && text@ == description@,
    {
        TaskStep { function, description: Some(description.to_string()) }
    }

    /// A step without a description.
    pub fn default(function: F) -> (step: TaskStep<F>)
        ensures
            step == (TaskStep { function, description: None }),
    {
        TaskStep { function, description: None }
    }

    /// The step's description, or a dash where it is missing or empty.
    pub fn label(&self) -> (text: String)
        ensures
            text@ == self.shown(),
    {
        match &self.description {
            Some(description) => {
                if description.as_str().unicode_len() > 0 {
                    description.clone()
                } else {
                    "-".to_string()
                }
            },
            None => "-".to_string(),
        }
    }
}

/// Available task statuses.
#[derive(Debug, Clone, Copy, PartialEq, Eq, Structural)]
pub enum Status {
    /// The task is not initialized yet.
    Init,
    /// The task has been scheduled and pending execution.
    Scheduled,
    /// The task has executed but has failed.
    Failed,
    /// The task has executed successfully.
    Executed,
    /// The task has finished and can be removed from the queue.
    Finished,
    /// The task is forcibly removed from the execution list due to fatal error.
    ForceRemoved,
}

impl Default for Status {
    fn default() -> (status: Status)
        ensures
            status == Status::Init,
    {
        Status::Init
    }
}

impl Status {
    /// Whether a task with this status will never run again.
    pub open spec fn terminal(self) -> bool {
        self is Finished || self is ForceRemoved
    }

    /// The error with which a run is refused in this status; `None` where it is not.
    pub open spec fn refusal(self) -> Option<TaskError> {
        match self {
            Status::Init => Some(TaskError::NotInitialized),
            Status::Failed => Some(TaskError::Failed),
            Status::Executed => Some(TaskError::AlreadyExecuted),
            Status::Finished => Some(TaskError::Finished),
            Status::ForceRemoved => Some(TaskError::ForceRemoved),
            Status::Scheduled => None,
        }
    }
}

/// The observable status of a single step within a task run.
///
/// Before the first run every step is [`StepStatus::Pending`].
#[derive(Debug, Clone, Copy, PartialEq, Eq, Structural)]
pub enum StepStatus {
    /// The step has not run yet in the current cycle.
    Pending,
    /// The step completed successfully.
    Succeeded,
    /// The step completed but reported non-fatal errors.
    HadErrors,
    /// The step failed (after exhausting any retries) or timed out.
    Failed,
    /// The step did not run because an earlier step failed.
    Skipped,
}

impl Default for StepStatus {
    fn default() -> (status: StepStatus)
        ensures
            status == StepStatus::Pending,
    {
        StepStatus::Pending
    }
}

/// A read-only view of a single step's identity and last-run outcome.
#[derive(Debug, PartialEq, Eq)]
pub struct StepState {
    /// The step's zero-based position within the task.
    pub index: usize,
    /// The step's optional description.
    pub description: Option<String>,
    /// The step's status as of its last transition.
    pub status: StepStatus,
}

impl Clone for StepState {
    fn clone(&self) -> (copy: StepState)
        ensures
            copy == *self,
    {
        StepState {
            index: self.index,
            description: self.description.clone(),
            status: self.status,
        }
    }
}

/// The outcome of a single task run, recorded in the task's [`RunRecord`] history.
#[derive(Debug, Clone, Copy, PartialEq, Eq, Structural)]
pub enum RunOutcome {
    /// Every step succeeded.
    Success,
    /// The run completed but at least one step reported non-fatal errors.
    HadErrors,
    /// A step failed after exhausting any retries.
    Failed,
    /// A step requested force-removal of the task.
    ForceRemoved,
}

/// A record of one execution of a task, kept in a bounded per-task history.
#[derive(Debug, Clone, Copy, PartialEq, Eq, Structural)]
pub struct RunRecord {
    /// A per-task monotonically increasing run identifier.
    pub run_id: usize,
    /// When the run started (UTC).
    pub started_at: Timestamp,
    /// When the run finished (UTC); `None` while the run is still in progress.
    pub finished_at: Option<Timestamp>,
    /// The run's outcome; `None` while the run is still in progress.
    pub outcome: Option<RunOutcome>,
    /// The total number of step attempts made during the run (including retries).
    pub attempts: usize,
}

/// What to do when a task's next scheduled time arrives while a previous run of the same task
/// is still in progress.
///
/// Concurrent overlapping runs are not offered: task steps own mutable state, so a second
/// simultaneous invocation would alias that state.
#[derive(Debug, Clone, Copy, PartialEq, Eq, Structural)]
pub enum OverlapPolicy {
    /// Skip the occurrence; the task keeps running and resumes on its next future slot. This is
    /// the safe default.
    Skip,
    /// Run the missed occurrence once the current run finishes (at most one queued).
    Queue,
}

impl Default for OverlapPolicy {
    fn default() -> (policy: OverlapPolicy)
        ensures
            policy == OverlapPolicy::Skip,
    {
        OverlapPolicy::Skip
    }
}

/// A structure that contains the basic information of the job.
pub struct Task<T, H: Host> {
    /// Task's executable steps.
    pub steps: Vec<TaskStep<H::Step>>,
    /// The execution schedule.
    pub schedule: Schedule,
    /// Total number of executions, if `None` then it will run forever.
    pub repeats: Option<usize>,
    /// (Optional) Task's description.
    pub description: String,
    /// (Optional) caller-supplied unique name used to address the task at runtime.
    pub name: Option<String>,
    /// The timezone of the task.
    pub timezone: T,
    /// Task id.
    pub task_id: usize,
    /// Per-step state of the last run.
    pub step_states: Vec<StepState>,
    /// Total step attempts made during the last run.
    pub last_attempts: usize,
    /// The maximum number of run records retained for the task.
    pub history_limit: usize,
    /// Next execution time.
    pub next_exec: Option<Timestamp>,
    /// Task status.
    pub status: Status,
    /// (Optional) per-step execution timeout. A step exceeding it is cancelled and treated as a
    /// (retryable) failure.
    pub timeout: Option<Duration>,
    /// (Optional) retry policy applied to failing steps.
    pub retry_policy: Option<RetryPolicy>,
    /// (Optional) callback invoked after a successful execution.
    pub on_success: Option<H::Callback>,
    /// (Optional) callback invoked after a failed execution.
    pub on_failure: Option<H::Callback>,
    /// (Optional) callback invoked once when the task reaches a terminal state.
    pub on_finish: Option<H::Callback>,
    /// Behaviour when a scheduled run overlaps a still-running one.
    pub overlap: OverlapPolicy,
    /// The task-level store handed to every step through its [`TaskContext`].
    pub blackboard: H::Board,
}

/// The snapshot of steps that have not run yet.
pub open spec fn pending_states<F>(steps: Seq<TaskStep<F>>) -> Seq<StepState> {
    Seq::new(
        steps.len(),
        |i: int|
            StepState {
                index: i as usize,
                description: steps[i].description,
                status: StepStatus::Pending,
            },
    )
}

/// Whether `next` is what a zone may answer when it is asked for the next occurrence of a
/// schedule after the present instant, as the clock gives it.
pub open spec fn upcoming<T: Zone>(zone: T, schedule: Schedule, next: Option<Timestamp>) -> bool {
    exists|now: Timestamp|
        clock_reads(now) && #[trigger] call_ensures(T::next_after, (&zone, &schedule, now), next)
}

impl<T, H: Host> Task<T, H> {
    /// The task with a fresh snapshot, at its first execution time; finished where it has none.
    pub open spec fn inited(self, next: Option<Timestamp>, after: Task<T, H>) -> bool {
        &&& after.step_states@ == pending_states(self.steps@)
        &&& after == Task {
            step_states: after.step_states,
            status: if next is Some {
                Status::Scheduled
            } else {
                Status::Finished
            },
            next_exec: if next is Some {
                next
            } else {
                self.next_exec
            },
            ..self
        }
    }

    /// Whether rescheduling needs the next occurrence: a run is over and repeats are left.
    pub open spec fn continues(self) -> bool {
        (self.status is Failed || self.status is Executed) && self.repeats != Some(0usize)
    }

    /// The task after it was rescheduled, given the next occurrence of its schedule.
    pub open spec fn rescheduled(self, next: Option<Timestamp>) -> Task<T, H> {
        if !(self.status is Failed || self.status is Executed) {
            self
        } else if self.repeats == Some(0usize) || next is None {
            Task { status: Status::Finished, ..self }
        } else {
            Task { status: Status::Scheduled, next_exec: next, ..self }
        }
    }

    /// How a run is classified, by the status and the per-step snapshot it left.
    pub open spec fn outcome(self) -> RunOutcome {
        if self.status is ForceRemoved {
            RunOutcome::ForceRemoved
        } else if self.status is Failed {
            RunOutcome::Failed
        } else if exists|i: int|
            0 <= i < self.step_states@.len() && (#[trigger] self.step_states@[i]).status
                == StepStatus::HadErrors {
            RunOutcome::HadErrors
        } else {
            RunOutcome::Success
        }
    }

    /// A task on a schedule, with everything else as a new task has it.
    pub fn on_schedule(
        schedule: Schedule,
        description: Option<&str>,
        repeats: Option<usize>,
        timezone: T,
    ) -> (task: Task<T, H>)
        ensures
            task.is_new(schedule@, description, repeats, timezone),
            task.schedule == schedule,
    {
        Task {
            steps: Vec::new(),
            schedule,
            description: match description {
                Some(text) => text.to_string(),
                None => "-".to_string(),
            },
            name: None,
            repeats,
            timezone,
            task_id: 0,
            step_states: Vec::new(),
            last_attempts: 0,
            history_limit: DEFAULT_HISTORY_LIMIT,
            status: Status::default(),
            next_exec: None,
            timeout: None,
            retry_policy: None,
            on_success: None,
            on_failure: None,
            on_finish: None,
            overlap: OverlapPolicy::default(),
            blackboard: H::Board::default(),
        }
    }

    /// What a new task holds: its schedule, description, repeats and zone, and defaults for the
    /// rest.
    pub open spec fn is_new(
        self,
        expression: Seq<char>,
        description: Option<&str>,
        repeats: Option<usize>,
        timezone: T,
    ) -> bool {
        &&& self.steps@ == Seq::<TaskStep<H::Step>>::empty()
        &&& self.schedule@ == expression
        &&& self.repeats == repeats
        &&& self.description@ == match description {
            Some(text) => text@,
            None => "-"@,
        }
        &&& self.name is None
        &&& self.timezone == timezone
        &&& self.task_id == 0
        &&& self.step_states@ == Seq::<StepState>::empty()
        &&& self.last_attempts == 0
        &&& self.history_limit == DEFAULT_HISTORY_LIMIT
        &&& self.next_exec is None
        &&& self.status == Status::Init
        &&& self.timeout is None
        &&& self.retry_policy is None
        &&& self.on_success is None
        &&& self.on_failure is None
        &&& self.on_finish is None
        &&& self.overlap == OverlapPolicy::Skip
        &&& call_ensures(<H::Board as Default>::default, (), self.blackboard)
    }

    /// Create a new instance of type `Task`.
    ///
    /// # Arguments
    ///
    /// * expression    - A valid cron expression.
    /// * description   - (Optional) description.
    /// * repeats       - maximum number of repeats, if `None` the task will run forever.
    /// * timezone      - The tasks' timezone.
    pub fn new(
        expression: &str,
        description: Option<&str>,
        repeats: Option<usize>,
        timezone: T,
    ) -> (made: TaskResult<Task<T, H>>)
        ensures
            match cron_rejection(expression@) {
                None => made matches Ok(task) && task.is_new(
                    expression@,
                    description,
                    repeats,
                    timezone,
                ),
                Some(reason) => made matches Err(TaskError::InvalidCronExpression(text)) && text@
                    == "Invalid cron expression: "@ + reason,
            },
    {
        match Schedule::parse(expression) {
            Ok(schedule) => Ok(Task::on_schedule(schedule, description, repeats, timezone)),
            Err(reason) => Err(
                TaskError::InvalidCronExpression(
                    "Invalid cron expression: ".to_string().concat(reason.as_str()),
                ),
            ),
        }
    }

    /// Set the task id of the current task.
    pub fn set_id(&mut self, id: usize)
        ensures
            *final(self) == (Task { task_id: id, ..*old(self) }),
    {
        self.task_id = id;
    }

    /// Add a new `TaskStep` in the `Task`.
    pub fn add_step(&mut self, description: &str, function: H::Step) -> (this: &mut Task<T, H>)
        ensures
            this.steps@.len() == old(self).steps@.len() + 1,
            this.steps@.drop_last() == old(self).steps@,
            this.steps@.last().function == function,
            this.steps@.last().description matches Some(text) && text@ == description@,
            *this == (Task { steps: this.steps, ..*old(self) }),
            *final(self) == *final(this),
    {
        let ghost before = self.steps@;
        self.steps.push(TaskStep::new(description, function));
        assert(self.steps@.drop_last() =~= before);
        self
    }

    /// Add a new `TaskStep` in the `Task` without a provided description.
    pub fn add_step_default(&mut self, function: H::Step) -> (this: &mut Task<T, H>)
        ensures
            this.steps@ == old(self).steps@.push(TaskStep { function, description: None }),
            *this == (Task { steps: this.steps, ..*old(self) }),
            *final(self) == *final(this),
    {
        self.steps.push(TaskStep::default(function));
        self
    }

    /// Set the value of the steps vector.
    pub fn set_steps(&mut self, steps: Vec<TaskStep<H::Step>>) -> (this: &mut Task<T, H>)
        ensures
            *this == (Task { steps, ..*old(self) }),
            *final(self) == *final(this),
    {
        self.steps = steps;
        self
    }

    /// Set the value of `schedule` property.
    pub fn set_schedule(&mut self, schedule: Schedule) -> (this: &mut Task<T, H>)
        ensures
            *this == (Task { schedule, ..*old(self) }),
            *final(self) == *final(this),
    {
        self.schedule = schedule;
        self
    }

    /// Set the per-step execution timeout.
    pub fn set_timeout(&mut self, timeout: Duration) -> (this: &mut Task<T, H>)
        ensures
            *this == (Task { timeout: Some(timeout), ..*old(self) }),
            *final(self) == *final(this),
    {
        self.timeout = Some(timeout);
        self
    }

    /// Set the retry policy for failing steps.
    pub fn set_retry_policy(&mut self, policy: RetryPolicy) -> (this: &mut Task<T, H>)
        ensures
            *this == (Task { retry_policy: Some(policy), ..*old(self) }),
            *final(self) == *final(this),
    {
        self.retry_policy = Some(policy);
        self
    }

    /// Set the overlap policy.
    pub fn set_overlap(&mut self, overlap: OverlapPolicy) -> (this: &mut Task<T, H>)
        ensures
            *this == (Task { overlap, ..*old(self) }),
            *final(self) == *final(this),
    {
        self.overlap = overlap;
        self
    }

    /// Set the task's unique name.
    pub fn set_name(&mut self, name: &str) -> (this: &mut Task<T, H>)
        ensures
            this.name matches Some(text) && text@ == name@,
            *this == (Task { name: this.name, ..*old(self) }),
            *final(self) == *final(this),
    {
        self.name = Some(name.to_string());
        self
    }

    /// Set the maximum number of run records retained for the task.
    pub fn set_history_limit(&mut self, limit: usize) -> (this: &mut Task<T, H>)
        ensures
            *this == (Task { history_limit: limit, ..*old(self) }),
            *final(self) == *final(this),
    {
        self.history_limit = limit;
        self
    }

    /// Attach a task-level board, shared with every step through its [`TaskContext`].
    pub fn set_blackboard(&mut self, blackboard: H::Board) -> (this: &mut Task<T, H>)
        ensures
            *this == (Task { blackboard, ..*old(self) }),
            *final(self) == *final(this),
    {
        self.blackboard = blackboard;
        self
    }

    /// Set the callbacks invoked over the task's lifecycle.
    pub fn set_callbacks(
        &mut self,
        on_success: Option<H::Callback>,
        on_failure: Option<H::Callback>,
        on_finish: Option<H::Callback>,
    ) -> (this: &mut Task<T, H>)
        ensures
            *this == (Task { on_success, on_failure, on_finish, ..*old(self) }),
            *final(self) == *final(this),
    {
        self.on_success = on_success;
        self.on_failure = on_failure;
        self.on_finish = on_finish;
        self
    }

    /// Rebuild the per-step snapshot from the current steps, marking every step
    /// [`StepStatus::Pending`].
    pub fn reset_step_states(&mut self)
        ensures
            final(self).step_states@ == pending_states(old(self).steps@),
            *final(self) == (Task { step_states: final(self).step_states, ..*old(self) }),
    {
        let mut states: Vec<StepState> = Vec::new();
        let mut index: usize = 0;
        while index < self.steps.len()
            invariant
                index <= self.steps@.len(),
                states@ == pending_states(self.steps@).take(index as int),
            decreases self.steps@.len() - index,
        {
            let state = StepState {
                index,
                description: self.steps[index].description.clone(),
                status: StepStatus::Pending,
            };
            assert(state == pending_states(self.steps@)[index as int]);
            states.push(state);
            assert(pending_states(self.steps@).take(index as int).push(state) =~= pending_states(
                self.steps@,
            ).take(index + 1));
            index += 1;
        }
        assert(pending_states(self.steps@).take(index as int) =~= pending_states(self.steps@));
        self.step_states = states;
    }

    /// Initialize the task with its first execution time. A task that has none is finished, so
    /// that the scheduler reaps it.
    pub fn init_at(&mut self, next: Option<Timestamp>)
        ensures
            old(self).inited(next, *final(self)),
    {
        self.reset_step_states();
        match next {
            Some(_) => {
                self.next_exec = next;
                self.status = Status::Scheduled;
            },
            None => {
                self.status = Status::Finished;
            },
        }
    }

    /// Whether the task has reached a terminal state and should be reaped.
    pub fn is_terminal(&self) -> (terminal: bool)
        ensures
            terminal == self.status.terminal(),
    {
        match self.status {
            Status::Finished | Status::ForceRemoved => true,
            _ => false,
        }
    }

    /// Classify the outcome of the run that just completed, based on the status and the per-step
    /// snapshot. It is read before the task is rescheduled, which overwrites the status.
    pub fn run_outcome(&self) -> (outcome: RunOutcome)
        ensures
            outcome == self.outcome(),
    {
        match self.status {
            Status::ForceRemoved => RunOutcome::ForceRemoved,
            Status::Failed => RunOutcome::Failed,
            _ => {
                let mut i: usize = 0;
                while i < self.step_states.len()
                    invariant
                        i <= self.step_states@.len(),
                        !(self.status is ForceRemoved),
                        !(self.status is Failed),
                        forall|j: int|
                            0 <= j < i ==> (#[trigger] self.step_states@[j]).status
                                != StepStatus::HadErrors,
                    decreases self.step_states@.len() - i,
                {
                    if self.step_states[i].status == StepStatus::HadErrors {
                        return RunOutcome::HadErrors;
                    }
                    i += 1;
                }
                RunOutcome::Success
            },
        }
    }

    /// Whether rescheduling needs the next occurrence: a run is over and repeats are left.
    pub fn has_repeats_left(&self) -> (left: bool)
        ensures
            left == self.continues(),
    {
        match self.status {
            Status::Failed | Status::Executed => match self.repeats {
                Some(left) => left > 0,
                None => true,
            },
            _ => false,
        }
    }

    /// Reschedule the current task instance (if needed), given the next occurrence of its
    /// schedule.
    ///
    /// A run that is over leads back to [`Status::Scheduled`] while repeats are left and the
    /// schedule has a next occurrence, and to [`Status::Finished`] otherwise.
    pub fn reschedule_at(&mut self, next: Option<Timestamp>) -> (done: TaskResult<()>)
        ensures
            done == if old(self).status is Init {
                Err::<(), TaskError>(TaskError::NotInitialized)
            } else {
                Ok(())
            },
            *final(self) == old(self).rescheduled(next),
    {
        match self.status {
            Status::Init => Err(TaskError::NotInitialized),
            Status::Failed | Status::Executed => {
                if self.has_repeats_left() && next.is_some() {
                    self.next_exec = next;
                    self.status = Status::Scheduled;
                } else {
                    self.status = Status::Finished;
                }
                Ok(())
            },
            Status::Finished | Status::ForceRemoved | Status::Scheduled => Ok(()),
        }
    }
}

impl<T: Zone, H: Host> Task<T, H> {
    /// When the task's schedule next comes due, counted from the present instant.
    pub fn upcoming(&self) -> (next: Option<Timestamp>)
        ensures
            upcoming(self.timezone, self.schedule, next),
    {
        let now = present();
        self.timezone.next_after(&self.schedule, now)
    }

    /// Initialize the `Task` instance and schedule the first execution.
    pub fn init(&mut self)
        ensures
            exists|next: Option<Timestamp>|
                #[trigger] upcoming(old(self).timezone, old(self).schedule, next) && old(
                    self,
                ).inited(next, *final(self)),
    {
        let next = self.upcoming();
        self.init_at(next);
    }

    /// Reschedule the current task instance (if needed).
    pub fn reschedule(&mut self) -> (done: TaskResult<()>)
        ensures
            done == if old(self).status is Init {
                Err::<(), TaskError>(TaskError::NotInitialized)
            } else {
                Ok(())
            },
            old(self).continues() ==> exists|next: Option<Timestamp>|
                #[trigger] upcoming(old(self).timezone, old(self).schedule, next) && *final(self)
                    == old(self).rescheduled(next),
            !old(self).continues() ==> *final(self) == old(self).rescheduled(None),
    {
        let next = if self.has_repeats_left() {
            self.upcoming()
        } else {
            None
        };
        self.reschedule_at(next)
    }
}

/// A task in a terminal state stays as it is: rescheduling changes nothing, and a run is
/// refused.
pub proof fn law_terminal_is_final<T, H: Host>(task: Task<T, H>, next: Option<Timestamp>)
    requires
        task.status.terminal(),
    ensures
        task.rescheduled(next) == task,
        task.status.refusal() is Some,
{
}

/// Only a scheduled task may run, and each other status is refused with an error of its own.
pub proof fn law_refusals_tell_statuses_apart(a: Status, b: Status)
    ensures
        a.refusal() is None <==> a is Scheduled,
        a.refusal() is Some && a.refusal() == b.refusal() ==> a == b,
{
}

/// Rescheduling after a run leads to a task that is scheduled at the next occurrence, or is
/// finished. It is finished exactly where no repeats are left or the schedule has no more
/// occurrences.
pub proof fn law_rescheduled_or_finished<T, H: Host>(task: Task<T, H>, next: Option<Timestamp>)
    requires
        task.status is Executed || task.status is Failed,
    ensures
        ({
            let after = task.rescheduled(next);
            &&& after.status is Finished <==> task.repeats == Some(0usize) || next is None
            &&& after.status is Scheduled <==> !(after.status is Finished)
            &&& after.status is Scheduled ==> after.next_exec == next
        }),
{
}

/// In UTC, a next occurrence is a function of the schedule and the present instant, and lies
/// strictly after that instant.
pub proof fn law_next_occurrence_is_later(
    zone: chrono::Utc,
    schedule: Schedule,
    now: Timestamp,
    next: Option<Timestamp>,
)
    requires
        call_ensures(<chrono::Utc as Zone>::next_after, (&zone, &schedule, now), next),
    ensures
        next == schedule.next_utc(now),
        next matches Some(at) ==> now.at_or_before(at) && !at.at_or_before(now),
{
}

/// In UTC, a task that was rescheduled after a run is not due at that instant: an occurrence that
/// was missed during the run is dropped, and the task resumes on its next future slot.
pub proof fn law_rescheduled_task_is_not_due<H: Host>(
    task: Task<chrono::Utc, H>,
    now: Timestamp,
    next: Option<Timestamp>,
)
    requires
        task.status is Executed || task.status is Failed,
        call_ensures(
            <chrono::Utc as Zone>::next_after,
            (&task.timezone, &task.schedule, now),
            next,
        ),
        task.rescheduled(next).status is Scheduled,
    ensures
        task.rescheduled(next).next_exec matches Some(at) && !at.at_or_before(now),
{
}

} // verus!
