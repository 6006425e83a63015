//! Cron schedules, zones and the text around them.

use chrono::{Local, TimeZone, Utc};
use tasklet::text::render;
use tasklet::{Schedule, TaskError, Timestamp, Zone};

fn at(secs: i64, nanos: u32) -> Timestamp {
    Timestamp { secs, nanos }
}

#[test]
fn schedules_keep_their_expression() {
    let schedule = Schedule::parse("0 30 9 * * * *").unwrap();
    assert_eq!(schedule.source(), "0 30 9 * * * *");
    assert!(Schedule::parse("").is_err());
    assert!(!Schedule::parse("60 * * * * * *").unwrap_err().is_empty());
}

#[test]
fn next_occurrence_in_utc() {
    let schedule = Schedule::parse("0 30 9 * * * *").unwrap();
    let midnight = Utc.with_ymd_and_hms(2024, 2, 29, 0, 0, 0).unwrap().timestamp();
    let due = Utc.with_ymd_and_hms(2024, 2, 29, 9, 30, 0).unwrap().timestamp();
    let following = Utc.with_ymd_and_hms(2024, 3, 1, 9, 30, 0).unwrap().timestamp();
    assert_eq!(Utc.next_after(&schedule, at(midnight, 0)), Some(at(due, 0)));
    // An occurrence is strictly later than the instant it is asked for at.
    assert_eq!(Utc.next_after(&schedule, at(due, 0)), Some(at(following, 0)));
    assert_eq!(Utc.next_after(&schedule, at(due - 1, 999_999_999)), Some(at(due, 0)));
}

#[test]
fn schedules_run_out() {
    let schedule = Schedule::parse("0 0 0 1 1 * 2020").unwrap();
    let new_year = Utc.with_ymd_and_hms(2020, 1, 1, 0, 0, 0).unwrap().timestamp();
    assert_eq!(Utc.next_after(&schedule, at(new_year - 1, 0)), Some(at(new_year, 0)));
    assert_eq!(Utc.next_after(&schedule, at(new_year, 0)), None);
}

#[test]
fn far_instants_have_no_occurrence() {
    let schedule = Schedule::parse("* * * * * * *").unwrap();
    assert_eq!(Utc.next_after(&schedule, at(i64::MAX, 0)), None);
    assert_eq!(Utc.next_after(&schedule, at(253_402_300_800, 0)), None);
    assert_eq!(Utc.next_after(&schedule, at(253_402_300_799, 0)), None);
    assert_eq!(Utc.next_after(&schedule, at(i64::MIN, 0)), None);
    assert_eq!(Local.next_after(&schedule, at(i64::MAX, 0)), None);
    // Nanoseconds beyond a leap second are no instant.
    assert_eq!(Utc.next_after(&schedule, at(0, u32::MAX)), None);
}

#[test]
fn next_occurrence_in_local_time() {
    let schedule = Schedule::parse("* * * * * * *").unwrap();
    let now = Utc.with_ymd_and_hms(2024, 1, 15, 12, 0, 0).unwrap().timestamp();
    assert_eq!(Local.next_after(&schedule, at(now, 5)), Some(at(now + 1, 0)));
}

#[test]
fn instants_are_ordered_by_seconds_first() {
    assert!(at(1, 999).is_at_or_before(&at(2, 0)));
    assert!(at(2, 0).is_at_or_before(&at(2, 0)));
    assert!(at(2, 0).is_at_or_before(&at(2, 1)));
    assert!(!at(2, 1).is_at_or_before(&at(2, 0)));
    assert!(!at(3, 0).is_at_or_before(&at(2, 9)));
    assert!(at(-1, 0).is_at_or_before(&at(0, 0)));
}

#[test]
fn numbers_are_written_in_decimal() {
    assert_eq!(render(0), "0");
    assert_eq!(render(7), "7");
    assert_eq!(render(10), "10");
    assert_eq!(render(907), "907");
    assert_eq!(render(123_456_789), "123456789");
    assert_eq!(render(u32::MAX), "4294967295");
}

#[test]
fn errors_have_messages() {
    let say = |error: TaskError| error.message();
    assert_eq!(say(TaskError::NotInitialized), "Task not initialized yet");
    assert_eq!(
        say(TaskError::AlreadyExecuted),
        "Task already executed and must be rescheduled"
    );
    assert_eq!(say(TaskError::Failed), "Task failed and must be rescheduled");
    assert_eq!(say(TaskError::Finished), "Task has finished and must be removed");
    assert_eq!(say(TaskError::ForceRemoved), "Task has been force removed");
    assert_eq!(
        say(TaskError::InvalidCronExpression("x".to_string())),
        "Invalid cron expression: x"
    );
    assert_eq!(say(TaskError::DuplicateTaskName("x".to_string())), "Duplicate task name: x");
    assert_eq!(
        say(TaskError::MissingComponent("x".to_string())),
        "Missing required component: x"
    );
    assert_eq!(say(TaskError::ExecutionError("x".to_string())), "Task execution error: x");
}
