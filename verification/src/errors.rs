//! Error types of the library.

use vstd::prelude::*;

verus! {

/// Errors that can occur when working with tasks.
#[derive(Debug)]
pub enum TaskError {
    /// The task is not initialized yet.
    NotInitialized,
    /// The task has already been executed and must be rescheduled.
    AlreadyExecuted,
    /// The task has failed and must be rescheduled.
    Failed,
    /// The task has finished and must be removed.
    Finished,
    /// The task has been force removed.
    ForceRemoved,
    /// The task's schedule could not be parsed.
    InvalidCronExpression(String),
    /// A task with this name is already registered.
    DuplicateTaskName(String),
    /// A required component is missing.
    MissingComponent(String),
    /// A generic error occurred during task execution.
    ExecutionError(String),
}

/// Result type for task operations.
pub type TaskResult<T> = Result<T, TaskError>;

/// What a [`TaskError`] says to a reader.
pub open spec fn error_text(error: TaskError) -> Seq<char> {
    match error {
        TaskError::NotInitialized => "Task not initialized yet"@,
        TaskError::AlreadyExecuted => "Task already executed and must be rescheduled"@,
        TaskError::Failed => "Task failed and must be rescheduled"@,
        TaskError::Finished => "Task has finished and must be removed"@,
        TaskError::ForceRemoved => "Task has been force removed"@,
        TaskError::InvalidCronExpression(text) => "Invalid cron expression: "@ + text@,
        TaskError::DuplicateTaskName(name) => "Duplicate task name: "@ + name@,
        TaskError::MissingComponent(text) => "Missing required component: "@ + text@,
        TaskError::ExecutionError(text) => "Task execution error: "@ + text@,
    }
}

impl TaskError {
    /// The error as a line of text.
    pub fn message(&self) -> (text: String)
        ensures
            text@ == error_text(*self),
    {
        match self {
            TaskError::NotInitialized => "Task not initialized yet".to_string(),
            TaskError::AlreadyExecuted =>
                "Task already executed and must be rescheduled".to_string(),
            TaskError::Failed => "Task failed and must be rescheduled".to_string(),
            TaskError::Finished => "Task has finished and must be removed".to_string(),
            TaskError::ForceRemoved => "Task has been force removed".to_string(),
            TaskError::InvalidCronExpression(text) => "Invalid cron expression: ".to_string().concat(
                text.as_str(),
            ),
            TaskError::DuplicateTaskName(name) => "Duplicate task name: ".to_string().concat(
                name.as_str(),
            ),
            TaskError::MissingComponent(text) => "Missing required component: ".to_string().concat(
                text.as_str(),
            ),
            TaskError::ExecutionError(text) => "Task execution error: ".to_string().concat(
                text.as_str(),
            ),
        }
    }
}

} // verus!
