//! Generating tasks on a schedule.

use chrono::{Local, Utc};
use tasklet::{Host, Schedule, Task, TaskError, TaskGenerator, TaskResult, Timestamp, Zone};

struct Plain;

impl Host for Plain {
    type Step = ();
    type Callback = ();
    type Board = String;
    type Reply = ();
}

type Found<T> = Option<TaskResult<Task<T, Plain>>>;

/// Test the normal flow of a task generation instance.
///
/// In this case the function is returning a new `Task`.
#[test]
fn test_task_generation_with_result() {
    // Create a task generation instance.
    let mut task_gen = TaskGenerator::new("* * * * * * *", Local, || -> Found<Local> {
        Some(Task::new("* * * * * * *", None, Some(1), Local))
    })
    .unwrap();
    assert!(task_gen.run().is_some());
}

/// Test the normal flow of a task generation instance.
///
/// In this case no new `Task` instance is generated.
#[test]
fn test_task_generation_without_result() {
    // Create a task generation instance.
    let mut task_gen =
        TaskGenerator::new("* * * * * * *", Local, || -> Found<Local> { None }).unwrap();
    assert!(task_gen.run().is_none());
}

#[test]
fn invalid_expressions_are_errors() {
    let made = TaskGenerator::new("not a cron", Utc, || -> Found<Utc> { None });
    let reason = Schedule::parse("not a cron").unwrap_err();
    match made {
        Err(TaskError::InvalidCronExpression(text)) => {
            assert_eq!(text, format!("Invalid cron expression: {}", reason))
        }
        _ => panic!("expected a rejected expression"),
    }
}

#[test]
fn schedules_without_occurrence_are_errors() {
    let made = TaskGenerator::new("0 0 0 1 1 * 1999", Utc, || -> Found<Utc> { None });
    match made {
        Err(TaskError::InvalidCronExpression(text)) => {
            assert_eq!(text, "The schedule has no upcoming execution")
        }
        _ => panic!("expected an error"),
    }
}

#[test]
fn running_moves_the_generator_on() {
    let mut calls = 0;
    let at = |secs: i64| Timestamp { secs, nanos: 0 };
    let schedule = Schedule::parse("0 * * * * * *").unwrap();
    let mut task_gen = TaskGenerator::starting_at(
        schedule,
        Utc,
        || -> Found<Utc> {
            calls += 1;
            None
        },
        Some(at(60)),
    )
    .unwrap();
    assert!(!task_gen.is_due(at(59)));
    assert!(task_gen.is_due(at(60)));
    assert!(task_gen.is_due(at(61)));
    assert!(task_gen.run_at(Some(at(120))).is_none());
    assert_eq!(task_gen.next_exec, Some(at(120)));
    assert!(!task_gen.is_due(at(119)));
    // The last occurrence is discovered like any other; then the generator is not due again.
    assert!(task_gen.is_due(at(120)));
    assert!(task_gen.run_at(None).is_none());
    assert_eq!(task_gen.next_exec, None);
    assert!(!task_gen.is_due(at(i64::MAX)));
    drop(task_gen);
    assert_eq!(calls, 2);
}

/// What the last discovery found is handed out.
#[test]
fn last_discovery_is_handed_out() {
    let at = |secs: i64| Timestamp { secs, nanos: 0 };
    let schedule = Schedule::parse("0 0 0 1 1 * 1999").unwrap();
    let mut task_gen = TaskGenerator::starting_at(
        schedule,
        Utc,
        || -> Found<Utc> { Some(Task::new("* * * * * * *", None, None, Utc)) },
        Some(at(915_148_800)),
    )
    .unwrap();
    // The schedule has run out by now, which does not keep its last occurrence from being run.
    assert!(matches!(task_gen.run(), Some(Ok(_))));
    assert_eq!(task_gen.next_exec, None);
}

#[test]
fn generated_times_lie_ahead() {
    let before = Utc::now().timestamp();
    let task_gen = TaskGenerator::new("* * * * * * *", Utc, || -> Found<Utc> { None }).unwrap();
    let first = task_gen.next_exec.unwrap();
    assert!(first.secs > before);
    let next = Utc.next_after(&task_gen.schedule, first).unwrap();
    assert_eq!(next.secs, first.secs + 1);
    assert!(task_gen.upcoming().unwrap().secs > before);
}
