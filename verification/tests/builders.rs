//! Building tasks.

use tasklet::task::DEFAULT_HISTORY_LIMIT;
use tasklet::{
    Duration, Host, Jitter, OverlapPolicy, RetryPolicy, Status, Task, TaskBuilder, TaskError,
    TaskResult,
};

struct Plain;

impl Host for Plain {
    type Step = fn() -> bool;
    type Callback = &'static str;
    type Board = String;
    type Reply = ();
}

type Builder = TaskBuilder<chrono::Utc, Plain>;

fn success() -> bool {
    true
}

fn expression(builder: &Builder) -> &str {
    builder.expression.as_str()
}

/// Test the normal initialization of a `TaskBuilder`.
#[test]
fn test_task_builder_init() {
    let builder = Builder::new(chrono::Utc);
    assert!(builder.repeats.is_none());
    assert_eq!(builder.steps.len(), 0);
    assert_eq!(builder.timezone, chrono::Utc);
}

/// Test the normal functionality of the description() function of `TaskBuilder`.
#[test]
fn test_task_builder_with_description() {
    let builder = Builder::new(chrono::Utc).description("Some description");
    assert!(builder.repeats.is_none());
    assert_eq!(builder.steps.len(), 0);
    assert!(builder.description.is_some());
    assert_eq!(builder.timezone, chrono::Utc);
}

/// Test the normal initialization of a task with a schedule.
#[test]
fn test_task_builder_with_schedule() {
    let builder = Builder::new(chrono::Utc).every("* * * * * * *");
    assert_eq!(builder.timezone, chrono::Utc);
    assert!(builder.repeats.is_none());
    assert!(builder.description.is_none());
    assert_eq!(builder.steps.len(), 0);
    assert!(builder.schedule.is_some());
}

/// Test the normal functionality of the repeat() function of the `TaskBuilder`.
#[test]
fn test_task_builder_repeat() {
    let builder = Builder::new(chrono::Utc).repeat(5);
    assert_eq!(builder.timezone, chrono::Utc);
    assert_eq!(builder.steps.len(), 0);
    assert!(builder.repeats.is_some());
}

/// Test the normal functionality of the add_step() function of the `TaskBuilder`.
#[test]
fn test_task_builder_add_step() {
    let builder = Builder::new(chrono::Utc).add_step_default(success);
    assert_eq!(builder.timezone, chrono::Utc);
    assert_eq!(builder.steps.len(), 1);
}

/// Test the normal functionality of build() function of the `TaskBuilder`.
#[test]
fn test_task_builder_build() {
    let task = Builder::new(chrono::Utc)
        .every("* * * * * * *")
        .repeat(5)
        .description("Some description")
        .add_step("Step 1", success)
        .build()
        .unwrap();
    assert!(task.repeats.is_some());
    assert_eq!(task.description, "Some description");
    assert_eq!(task.timezone, chrono::Utc);
    assert_eq!(task.steps.len(), 1);
}

/// Test the normal functionality of build() function of the `TaskBuilder`.
#[test]
fn test_task_builder_build_default() {
    let task = Builder::new(chrono::Utc)
        .repeat(5)
        .add_step("Step 1", success)
        .build()
        .unwrap();
    assert!(task.repeats.is_some());
    assert_eq!(task.timezone, chrono::Utc);
    assert_eq!(task.steps.len(), 1);
}

/// Test building with an invalid cron expression
#[test]
fn test_task_builder_invalid_expression() {
    let result = Builder::new(chrono::Utc).every("invalid expression").build();
    assert!(result.is_err());
}

#[test]
fn builders_test_task_builder_invalid_schedule() {
    // Test with valid schedule
    let result = Builder::new(chrono::Utc).every("* * * * * * *").build();
    assert!(result.is_ok());

    // Test with invalid schedule
    let result = Builder::new(chrono::Utc).every("invalid cron").build();
    assert!(result.is_err());

    // Test that the error is the correct type
    match result {
        Err(TaskError::InvalidCronExpression(_)) => {} // Expected
        _ => panic!("Expected InvalidCronExpression error"),
    }
}

/// `name` and `history_limit` are transferred onto the built task.
#[test]
fn test_task_builder_name_and_history_limit() {
    let task = Builder::new(chrono::Utc)
        .every("* * * * * * *")
        .name("my-task")
        .history_limit(5)
        .build()
        .unwrap();
    assert_eq!(task.name.as_deref(), Some("my-task"));
    assert_eq!(task.history_limit, 5);
}

/// The default history limit is applied when not overridden.
#[test]
fn test_task_builder_default_history_limit() {
    let task = Builder::new(chrono::Utc).every("* * * * * * *").build().unwrap();
    assert_eq!(task.history_limit, DEFAULT_HISTORY_LIMIT);
    assert!(task.name.is_none());
}

#[test]
fn rejected_expressions_are_quoted() {
    let built: TaskResult<Task<chrono::Utc, Plain>> =
        Builder::new(chrono::Utc).every("nonsense").build();
    let reason = tasklet::Schedule::parse("nonsense").unwrap_err();
    match built {
        Err(TaskError::InvalidCronExpression(text)) => assert_eq!(
            text,
            format!("Invalid cron expression 'nonsense': {}", reason)
        ),
        _ => panic!("expected a rejected expression"),
    }
}

#[test]
fn later_schedules_replace_earlier_ones() {
    // An expression that is rejected takes the place of one that was not, and the other way
    // round.
    assert!(Builder::new(chrono::Utc).every("* * * * * * *").every("nope").build().is_err());
    let task = Builder::new(chrono::Utc).every("nope").every_minutes(5).build().unwrap();
    assert_eq!(task.schedule.source(), "0 */5 * * * * *");
}

#[test]
fn helpers_write_the_usual_expressions() {
    assert_eq!(expression(&Builder::new(chrono::Utc).every_seconds(5)), "*/5 * * * * * *");
    assert_eq!(expression(&Builder::new(chrono::Utc).every_minutes(15)), "0 */15 * * * * *");
    assert_eq!(expression(&Builder::new(chrono::Utc).every_hours(6)), "0 0 */6 * * * *");
    assert_eq!(expression(&Builder::new(chrono::Utc).hourly_at(15)), "0 15 * * * * *");
    assert_eq!(expression(&Builder::new(chrono::Utc).daily_at(9, 30)), "0 30 9 * * * *");
}

#[test]
fn helpers_accept_just_what_is_in_range() {
    let ok = |builder: Builder| builder.build().is_ok();
    for n in [1, 2, 30, 59] {
        assert!(ok(Builder::new(chrono::Utc).every_seconds(n)));
        assert!(ok(Builder::new(chrono::Utc).every_minutes(n)));
        assert!(ok(Builder::new(chrono::Utc).hourly_at(n)));
    }
    for n in [0, 60, 100, u32::MAX] {
        assert!(!ok(Builder::new(chrono::Utc).every_seconds(n)));
        assert!(!ok(Builder::new(chrono::Utc).every_minutes(n)));
    }
    for n in [1, 12, 23] {
        assert!(ok(Builder::new(chrono::Utc).every_hours(n)));
        assert!(ok(Builder::new(chrono::Utc).daily_at(n, 0)));
    }
    for n in [24, 60, u32::MAX] {
        assert!(!ok(Builder::new(chrono::Utc).every_hours(n)));
        assert!(!ok(Builder::new(chrono::Utc).daily_at(n, 0)));
    }
    assert!(!ok(Builder::new(chrono::Utc).every_hours(0)));
    assert!(ok(Builder::new(chrono::Utc).hourly_at(0)));
    assert!(!ok(Builder::new(chrono::Utc).hourly_at(60)));
    assert!(ok(Builder::new(chrono::Utc).daily_at(0, 59)));
    assert!(!ok(Builder::new(chrono::Utc).daily_at(0, 60)));
}

#[test]
fn tasks_without_a_schedule_run_every_hour() {
    let task = Builder::new(chrono::Utc).build().unwrap();
    assert_eq!(task.schedule.source(), "0 0 * * * * *");
}

#[test]
fn everything_is_transferred() {
    let policy = RetryPolicy::fixed(3, Duration::from_millis(100)).with_jitter(Jitter::Full);
    let task = Builder::new(chrono::Utc)
        .every("1 * * * * * *")
        .timeout(Duration::from_secs(5))
        .retry(policy)
        .overlap(OverlapPolicy::Queue)
        .blackboard("board".to_string())
        .on_success("succeeded")
        .on_failure("failed")
        .on_finish("finished")
        .add_step("first", success)
        .add_step_default(success)
        .build()
        .unwrap();
    assert_eq!(task.schedule.source(), "1 * * * * * *");
    assert_eq!(task.timeout, Some(Duration::from_secs(5)));
    assert_eq!(task.retry_policy, Some(policy));
    assert_eq!(task.overlap, OverlapPolicy::Queue);
    assert_eq!(task.blackboard, "board");
    assert_eq!(task.on_success, Some("succeeded"));
    assert_eq!(task.on_failure, Some("failed"));
    assert_eq!(task.on_finish, Some("finished"));
    assert_eq!(task.steps[0].description.as_deref(), Some("first"));
    assert_eq!(task.steps[1].description, None);
    assert!((task.steps[1].function)());
    assert_eq!(task.repeats, None);
    assert_eq!(task.description, "-");
    assert_eq!(task.status, Status::Init);
}
