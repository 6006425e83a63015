//! Building tasks.

use vstd::prelude::*;

use crate::errors::{TaskError, TaskResult};
use crate::retry::RetryPolicy;
use crate::schedule::{
    accepts_in_range, cron_rejection, daily_at_text, daily_expression, every_hours_text,
    every_minutes_text, every_seconds_text, hourly_at_text, hourly_expression, hours_expression,
    minutes_expression, seconds_expression, Schedule,
};
use crate::task::{Host, OverlapPolicy, Status, StepState, Task, TaskStep, DEFAULT_HISTORY_LIMIT};
use crate::time::Duration;

verus! {

/// Task builder.
///
/// Used to generate/build a `Task` instance.
pub struct TaskBuilder<T, H: Host> {
    /// An optional task description.
    pub description: Option<String>,
    /// An optional unique name used to address the task at runtime.
    pub name: Option<String>,
    /// The maximum number of run records to retain for the task.
    pub history_limit: usize,
    /// The steps so far.
    pub steps: Vec<TaskStep<H::Step>>,
    /// The provided `Schedule`; if not given, it will be defaulted to once every hour.
    pub schedule: Option<Schedule>,
    /// The expression of the schedule, for error reporting.
    pub expression: String,
    /// Max number of repeats.
    pub repeats: Option<usize>,
    /// (Optional) per-step execution timeout.
    pub timeout: Option<Duration>,
    /// (Optional) retry policy for failing steps.
    pub retry_policy: Option<RetryPolicy>,
    /// (Optional) callback invoked after a successful execution.
    pub on_success: Option<H::Callback>,
    /// (Optional) callback invoked after a failed execution.
    pub on_failure: Option<H::Callback>,
    /// (Optional) callback invoked once the task reaches a terminal state.
    pub on_finish: Option<H::Callback>,
    /// Behaviour when a run overlaps a still-running one.
    pub overlap: OverlapPolicy,
    /// (Optional) task-level board to attach.
    pub blackboard: Option<H::Board>,
    /// The Task/Scheduler timezone.
    pub timezone: T,
}

impl<T, H: Host> TaskBuilder<T, H> {
    /// Whether the builder holds no usable schedule, so that building fails.
    pub open spec fn rejected(self) -> bool {
        self.schedule is None && cron_rejection(self.expression@) is Some
    }

    /// The task that a builder makes, up to its schedule.
    pub open spec fn makes(self, task: Task<T, H>) -> bool {
        &&& task.steps == self.steps
        &&& task.repeats == self.repeats
        &&& task.description@ == match self.description {
            Some(text) => text@,
            None => "-"@,
        }
        &&& task.name == self.name
        &&& task.timezone == self.timezone
        &&& task.task_id == 0
        &&& task.step_states@ == Seq::<StepState>::empty()
        &&& task.last_attempts == 0
        &&& task.history_limit == self.history_limit
        &&& task.next_exec is None
        &&& task.status == Status::Init
        &&& task.timeout == self.timeout
        &&& task.retry_policy == self.retry_policy
        &&& task.on_success == self.on_success
        &&& task.on_failure == self.on_failure
        &&& task.on_finish == self.on_finish
        &&& task.overlap == self.overlap
        &&& match self.blackboard {
            Some(board) => task.blackboard == board,
            None => call_ensures(<H::Board as Default>::default, (), task.blackboard),
        }
    }

    /// Create a new `TaskBuilder` instance.
    ///
    /// # Arguments
    ///
    /// * timezone  - A valid timezone for the generated `Task`.
    pub fn new(timezone: T) -> (builder: TaskBuilder<T, H>)
        ensures
            builder.description is None,
            builder.name is None,
            builder.history_limit == DEFAULT_HISTORY_LIMIT,
            builder.steps@ == Seq::<TaskStep<H::Step>>::empty(),
            builder.schedule is None,
            builder.expression@ == hourly_expression(0),
            builder.repeats is None,
            builder.timeout is None,
            builder.retry_policy is None,
            builder.on_success is None,
            builder.on_failure is None,
            builder.on_finish is None,
            builder.overlap == OverlapPolicy::Skip,
            builder.blackboard is None,
            builder.timezone == timezone,
    {
        TaskBuilder {
            steps: Vec::new(),
            description: None,
            name: None,
            history_limit: DEFAULT_HISTORY_LIMIT,
            schedule: None,
            expression: hourly_at_text(0),
            repeats: None,
            timeout: None,
            retry_policy: None,
            on_success: None,
            on_failure: None,
            on_finish: None,
            overlap: OverlapPolicy::default(),
            blackboard: None,
            timezone,
        }
    }

    /// Set the optional description of the generated `Task`.
    pub fn description(self, description: &str) -> (builder: TaskBuilder<T, H>)
        ensures
            builder.description matches Some(text) && text@ == description@,
            builder == (TaskBuilder { description: builder.description, ..self }),
    {
        let mut builder = self;
        builder.description = Some(description.to_string());
        builder
    }

    /// Set a unique name for the generated `Task`.
    ///
    /// A name is a stable, human-friendly identifier that can be used to address the task at
    /// runtime. Names must be unique within a scheduler, which rejects a duplicate with
    /// [`TaskError::DuplicateTaskName`].
    pub fn name(self, name: &str) -> (builder: TaskBuilder<T, H>)
        ensures
            builder.name matches Some(text) && text@ == name@,
            builder == (TaskBuilder { name: builder.name, ..self }),
    {
        let mut builder = self;
        builder.name = Some(name.to_string());
        builder
    }

    /// Set how many recent run records the generated `Task` retains. A value of `0` disables
    /// history (runs are still counted).
    pub fn history_limit(self, limit: usize) -> (builder: TaskBuilder<T, H>)
        ensures
            builder == (TaskBuilder { history_limit: limit, ..self }),
    {
        let mut builder = self;
        builder.history_limit = limit;
        builder
    }

    /// Set the execution schedule of the task to be generated. An expression that is rejected
    /// is reported when the task is built.
    pub fn every(self, expression: &str) -> (builder: TaskBuilder<T, H>)
        ensures
            builder.expression@ == expression@,
            match builder.schedule {
                Some(schedule) => cron_rejection(expression@) is None && schedule@ == expression@,
                None => cron_rejection(expression@) is Some,
            },
            builder.rejected() <==> cron_rejection(expression@) is Some,
            accepts_in_range(expression@, !builder.rejected()),
            builder == (TaskBuilder {
                expression: builder.expression,
                schedule: builder.schedule,
                ..self
            }),
    {
        let mut builder = self;
        builder.expression = expression.to_string();
        builder.schedule = match Schedule::parse(expression) {
            Ok(schedule) => Some(schedule),
            Err(_) => None,
        };
        builder
    }

    /// Run the task every `n` seconds. Rejected by `build` unless `n` lies in `1..=59`.
    pub fn every_seconds(self, n: u32) -> (builder: TaskBuilder<T, H>)
        ensures
            builder.expression@ == seconds_expression(n as nat),
            builder.schedule matches Some(schedule) ==> schedule@ == builder.expression@,
            builder.rejected() <==> !(1 <= n <= 59),
            builder == (TaskBuilder {
                expression: builder.expression,
                schedule: builder.schedule,
                ..self
            }),
    {
        self.every(every_seconds_text(n).as_str())
    }

    /// Run the task every `n` minutes. Rejected by `build` unless `n` lies in `1..=59`.
    pub fn every_minutes(self, n: u32) -> (builder: TaskBuilder<T, H>)
        ensures
            builder.expression@ == minutes_expression(n as nat),
            builder.schedule matches Some(schedule) ==> schedule@ == builder.expression@,
            builder.rejected() <==> !(1 <= n <= 59),
            builder == (TaskBuilder {
                expression: builder.expression,
                schedule: builder.schedule,
                ..self
            }),
    {
        self.every(every_minutes_text(n).as_str())
    }

    /// Run the task every `n` hours. Rejected by `build` unless `n` lies in `1..=23`.
    pub fn every_hours(self, n: u32) -> (builder: TaskBuilder<T, H>)
        ensures
            builder.expression@ == hours_expression(n as nat),
            builder.schedule matches Some(schedule) ==> schedule@ == builder.expression@,
            builder.rejected() <==> !(1 <= n <= 23),
            builder == (TaskBuilder {
                expression: builder.expression,
                schedule: builder.schedule,
                ..self
            }),
    {
        self.every(every_hours_text(n).as_str())
    }

    /// Run the task at the given minute of every hour. Rejected by `build` unless the minute is
    /// one.
    pub fn hourly_at(self, minute: u32) -> (builder: TaskBuilder<T, H>)
        ensures
            builder.expression@ == hourly_expression(minute as nat),
            builder.schedule matches Some(schedule) ==> schedule@ == builder.expression@,
            builder.rejected() <==> !(minute <= 59),
            builder == (TaskBuilder {
                expression: builder.expression,
                schedule: builder.schedule,
                ..self
            }),
    {
        self.every(hourly_at_text(minute).as_str())
    }

    /// Run the task every day at the given hour and minute. Rejected by `build` unless they are
    /// ones.
    pub fn daily_at(self, hour: u32, minute: u32) -> (builder: TaskBuilder<T, H>)
        ensures
            builder.expression@ == daily_expression(hour as nat, minute as nat),
            builder.schedule matches Some(schedule) ==> schedule@ == builder.expression@,
            builder.rejected() <==> !(hour <= 23 && minute <= 59),
            builder == (TaskBuilder {
                expression: builder.expression,
                schedule: builder.schedule,
                ..self
            }),
    {
        self.every(daily_at_text(hour, minute).as_str())
    }

    /// Set the max repeats for the generated `Task`.
    pub fn repeat(self, repeat: usize) -> (builder: TaskBuilder<T, H>)
        ensures
            builder == (TaskBuilder { repeats: Some(repeat), ..self }),
    {
        let mut builder = self;
        builder.repeats = Some(repeat);
        builder
    }

    /// Set a per-step execution timeout for the generated `Task`.
    ///
    /// A step that does not come to an end within `timeout` is cancelled and treated as a
    /// (retryable) failure.
    pub fn timeout(self, timeout: Duration) -> (builder: TaskBuilder<T, H>)
        ensures
            builder == (TaskBuilder { timeout: Some(timeout), ..self }),
    {
        let mut builder = self;
        builder.timeout = Some(timeout);
        builder
    }

    /// Set the retry policy applied to failing steps of the generated `Task`.
    pub fn retry(self, policy: RetryPolicy) -> (builder: TaskBuilder<T, H>)
        ensures
            builder == (TaskBuilder { retry_policy: Some(policy), ..self }),
    {
        let mut builder = self;
        builder.retry_policy = Some(policy);
        builder
    }

    /// Set the overlap policy: what to do when a scheduled run comes due while a previous run of
    /// the task is still in progress (defaults to `Skip`).
    pub fn overlap(self, overlap: OverlapPolicy) -> (builder: TaskBuilder<T, H>)
        ensures
            builder == (TaskBuilder { overlap, ..self }),
    {
        let mut builder = self;
        builder.overlap = overlap;
        builder
    }

    /// Attach a task-level board, shared across every run of the task and across every task that
    /// is given a handle on the same one.
    pub fn blackboard(self, board: H::Board) -> (builder: TaskBuilder<T, H>)
        ensures
            builder == (TaskBuilder { blackboard: Some(board), ..self }),
    {
        let mut builder = self;
        builder.blackboard = Some(board);
        builder
    }

    /// Register a callback invoked after each successful execution of the task.
    pub fn on_success(self, callback: H::Callback) -> (builder: TaskBuilder<T, H>)
        ensures
            builder == (TaskBuilder { on_success: Some(callback), ..self }),
    {
        let mut builder = self;
        builder.on_success = Some(callback);
        builder
    }

    /// Register a callback invoked after a failed execution of the task.
    pub fn on_failure(self, callback: H::Callback) -> (builder: TaskBuilder<T, H>)
        ensures
            builder == (TaskBuilder { on_failure: Some(callback), ..self }),
    {
        let mut builder = self;
        builder.on_failure = Some(callback);
        builder
    }

    /// Register a callback invoked once when the task reaches a terminal state (its repeat cycle
    /// is exhausted or it is force-removed).
    pub fn on_finish(self, callback: H::Callback) -> (builder: TaskBuilder<T, H>)
        ensures
            builder == (TaskBuilder { on_finish: Some(callback), ..self }),
    {
        let mut builder = self;
        builder.on_finish = Some(callback);
        builder
    }

    /// Add a new step for the generated task.
    pub fn add_step(self, description: &str, function: H::Step) -> (builder: TaskBuilder<T, H>)
        ensures
            builder.steps@.len() == self.steps@.len() + 1,
            builder.steps@.drop_last() == self.steps@,
            builder.steps@.last().function == function,
            builder.steps@.last().description matches Some(text) && text@ == description@,
            builder == (TaskBuilder { steps: builder.steps, ..self }),
    {
        let mut builder = self;
        builder.steps.push(TaskStep::new(description, function));
        assert(builder.steps@.drop_last() =~= self.steps@);
        builder
    }

    /// Add a new step to the generated task (without description).
    pub fn add_step_default(self, function: H::Step) -> (builder: TaskBuilder<T, H>)
        ensures
            builder.steps@ == self.steps@.push(TaskStep { function, description: None }),
            builder == (TaskBuilder { steps: builder.steps, ..self }),
    {
        let mut builder = self;
        builder.steps.push(TaskStep::default(function));
        builder
    }

    /// Build a new `Task` instance from the current configuration.
    pub fn build(self) -> (built: TaskResult<Task<T, H>>)
        ensures
            built is Err <==> self.rejected(),
            built matches Ok(task) ==> self.makes(task) && match self.schedule {
                Some(schedule) => task.schedule == schedule,
                None => task.schedule@ == self.expression@,
            },
            self.rejected() ==> (built matches Err(TaskError::InvalidCronExpression(text)) && text@
                == "Invalid cron expression '"@ + self.expression@ + "': "@ + cron_rejection(
                self.expression@,
            )->0),
            self.schedule is None ==> accepts_in_range(self.expression@, built is Ok),
    {
        let schedule = match self.schedule {
            Some(schedule) => schedule,
            None => match Schedule::parse(self.expression.as_str()) {
                Ok(schedule) => schedule,
                Err(reason) => {
                    return Err(
                        TaskError::InvalidCronExpression(
                            "Invalid cron expression '".to_string().concat(
                                self.expression.as_str(),
                            ).concat("': ").concat(reason.as_str()),
                        ),
                    );
                },
            },
        };
        let description = match &self.description {
            Some(text) => Some(text.as_str()),
            None => None,
        };
        let mut task = Task::on_schedule(schedule, description, self.repeats, self.timezone);
        task.set_steps(self.steps);
        if let Some(name) = &self.name {
            task.name = Some(name.clone());
        }
        task.set_history_limit(self.history_limit);
        if let Some(timeout) = self.timeout {
            task.set_timeout(timeout);
        }
        if let Some(policy) = self.retry_policy {
            task.set_retry_policy(policy);
        }
        task.set_overlap(self.overlap);
        if let Some(board) = self.blackboard {
            task.set_blackboard(board);
        }
        task.set_callbacks(self.on_success, self.on_failure, self.on_finish);
        Ok(task)
    }
}

/// The expression that a builder starts with, the one for the first minute of every hour, is in
/// range and so accepted: a builder that was given no schedule makes a task due once every hour.
pub proof fn law_default_schedule_is_accepted(expression: Seq<char>, accepted: bool)
    requires
        expression == hourly_expression(0),
        accepts_in_range(expression, accepted),
    ensures
        accepted,
{
}

} // verus!
