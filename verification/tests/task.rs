//! Tasks: their runs, retries, callbacks, history and what they publish.
//!
//! Steps are plain closures here. Each says what it came to and how long it took, and the
//! helpers below play the runtime's part: they invoke steps, hold them to their timeout and
//! fire callbacks, without ever waiting.

use std::cell::{Cell, RefCell};
use std::rc::Rc;

use chrono::{Local, Utc};
use tasklet::shared::TaskShared;
use tasklet::task::TaskStepStatusErr::{Error, ErrorDelete};
use tasklet::task::TaskStepStatusOk::{HadErrors, Success};
use tasklet::task::{StepReply, TaskStep, DEFAULT_HISTORY_LIMIT};
use tasklet::{
    Action, Blackboard, Duration, Hook, Host, Phase, RetryPolicy, RunOutcome, Schedule, Status,
    StepStatus, Task, TaskContext, TaskDriver, TaskError, TaskResult, Timestamp, Verdict, Zone,
};

type Board = Rc<RefCell<Blackboard>>;
type Context = TaskContext<Board>;
type Step = Box<dyn FnMut(Context) -> (Duration, StepReply)>;

struct Sync;

impl Host for Sync {
    type Step = Step;
    type Callback = Box<dyn FnMut()>;
    type Board = Board;
    type Reply = usize;
}

/// A step that takes no time.
fn quick<F: FnMut(Context) -> StepReply + 'static>(mut body: F) -> Step {
    Box::new(move |context| (Duration::from_nanos(0), body(context)))
}

fn task_in<T>(expression: &str, description: Option<&str>, repeats: Option<usize>, zone: T) -> Task<T, Sync> {
    Task::new(expression, description, repeats, zone).unwrap()
}

/// Invoke a step within its timeout; a step that takes longer comes to an error.
fn invoke<T>(task: &mut Task<T, Sync>, context: Context) -> StepReply {
    let index = context.step_index();
    let (taken, reply) = (task.steps[index].function)(context);
    match task.timeout {
        Some(limit) if taken.as_nanos() > limit.as_nanos() => Err(Error),
        _ => reply,
    }
}

/// Run a task once, and report the delays between its attempts.
fn run_with_delays<T>(task: &mut Task<T, Sync>, run_id: usize) -> TaskResult<Vec<Duration>> {
    let mut run = task.begin_run(run_id)?;
    let mut delays = Vec::new();
    while task.has_attempt(&run) {
        let context = task.begin_attempt(&mut run);
        let reply = invoke(task, context);
        if task.settle(&mut run, reply) == Verdict::Retry {
            delays.push(task.retry_delay(run.attempt));
        }
    }
    task.end_run(run);
    Ok(delays)
}

fn run_task<T>(task: &mut Task<T, Sync>, run_id: usize) -> TaskResult<()> {
    run_with_delays(task, run_id).map(|_| ())
}

/// Carry out actions until the callbacks of a run are due, or the task waits or stops.
fn act<T>(
    driver: &mut TaskDriver<T, Sync>,
    shared: &mut TaskShared,
    mut action: Action<Board>,
) -> Action<Board> {
    loop {
        action = match action {
            Action::Invoke { context, timeout } => {
                let index = context.step_index();
                let (taken, reply) = (driver.task.steps[index].function)(context);
                match timeout {
                    Some(limit) if taken.as_nanos() > limit.as_nanos() => driver.on_timeout(shared),
                    _ => driver.on_reply(shared, reply),
                }
            }
            Action::Sleep(_) => driver.on_slept(shared),
            other => return other,
        };
    }
}

fn fire<T>(driver: &mut TaskDriver<T, Sync>, hooks: Vec<Hook>) {
    for hook in hooks {
        if let Some(callback) = driver.callback(hook) {
            callback();
        }
    }
}

/// Carry out actions until the task waits or stops.
fn finish<T: Zone>(
    driver: &mut TaskDriver<T, Sync>,
    shared: &mut TaskShared,
    action: Action<Board>,
) -> Action<Board> {
    let mut action = act(driver, shared, action);
    while let Action::Fire(hooks) = action {
        fire(driver, hooks);
        let next = driver.on_fired(shared);
        action = act(driver, shared, next);
    }
    action
}

fn run_once<T: Zone>(driver: &mut TaskDriver<T, Sync>, shared: &mut TaskShared) {
    let action = driver.on_command(shared);
    finish(driver, shared, action);
}

/// Start driving a task.
fn started<T: Zone>(task: Task<T, Sync>) -> (TaskDriver<T, Sync>, TaskShared) {
    let mut shared = TaskShared::new(task.history_limit);
    let mut driver = TaskDriver::new(task);
    driver.start(&mut shared);
    (driver, shared)
}

fn counter() -> Rc<Cell<usize>> {
    Rc::new(Cell::new(0))
}

fn counting(calls: &Rc<Cell<usize>>) -> Box<dyn FnMut()> {
    let calls = calls.clone();
    Box::new(move || calls.set(calls.get() + 1))
}

#[test]
fn normal_task_flow_test() {
    let mut task = task_in("* * * * * *", Some("Test task"), Some(2), Local);
    task.add_step_default(quick(|_ctx| Ok(Success)));
    assert_eq!(task.status, Status::Init);
    task.set_id(0);
    task.init();
    assert_eq!(task.status, Status::Scheduled);
    assert!(run_task(&mut task, 0).is_ok());
    assert_eq!(task.status, Status::Executed);
    assert!(task.reschedule().is_ok());
    assert_eq!(task.status, Status::Scheduled);
    assert!(run_task(&mut task, 0).is_ok());
    assert_eq!(task.status, Status::Executed);
    assert!(task.reschedule().is_ok());
    assert_eq!(task.status, Status::Finished);
}

#[test]
fn test_task_set_schedule() {
    let schedule = Schedule::parse("* * * * * * *").unwrap();
    let mut task = task_in("* * * * * * *", None, None, Local);
    task.set_schedule(schedule);
    task.add_step_default(quick(|_ctx| Ok(Success)));
    assert_eq!(task.status, Status::Init);
    task.set_id(0);
    task.init();
    assert_eq!(task.status, Status::Scheduled);
}

#[test]
fn normal_task_error_flow_test() {
    let mut task = task_in("* * * * * *", Some("Test task"), Some(2), Local);
    task.add_step_default(quick(|_ctx| Err(Error)));
    assert_eq!(task.status, Status::Init);
    task.set_id(0);
    task.init();
    assert_eq!(task.status, Status::Scheduled);
    assert!(run_task(&mut task, 0).is_ok());
    assert_eq!(task.status, Status::Failed);
    assert!(task.reschedule().is_ok());
    assert_eq!(task.status, Status::Scheduled);
    assert!(run_task(&mut task, 0).is_ok());
    assert_eq!(task.status, Status::Failed);
    assert!(task.reschedule().is_ok());
    assert_eq!(task.status, Status::Finished);
}

/// Test the normal execution of a simple task, without fixed repeats.
#[test]
fn normal_task_no_fixed_repeats_test() {
    let mut task = task_in("* * * * * * *", Some("Test task"), None, Local);
    task.add_step_default(quick(|_ctx| Ok(Success)));
    assert_eq!(task.status, Status::Init);
    task.set_id(0);
    task.init();
    assert_eq!(task.status, Status::Scheduled);
    // Run it for a few times.
    for _i in 1..10 {
        assert!(run_task(&mut task, 0).is_ok());
        assert_eq!(task.status, Status::Executed);
        assert!(task.reschedule().is_ok());
        assert_eq!(task.status, Status::Scheduled);
    }
}

#[test]
fn test_reschedule_not_initialized() {
    let mut task = task_in("* * * * * * *", None, None, Local);
    // The task is not initialized, so it should fail.
    assert!(task.reschedule().is_err());
    assert!(matches!(task.reschedule().unwrap_err(), TaskError::NotInitialized));
}

#[test]
fn test_reschedule_finished_should_mark_as_finished() {
    let mut task = task_in("* * * * * * *", None, Some(1), Local);
    // Execute the task.
    task.set_id(0);
    task.init();
    assert!(run_task(&mut task, 0).is_ok());
    assert!(task.reschedule().is_ok());
    assert_eq!(task.status, Status::Finished);
}

#[test]
fn test_run_uninitialized_task() {
    let mut task = task_in("* * * * * * *", None, None, Local);
    assert!(run_task(&mut task, 0).is_err());
    assert!(matches!(run_task(&mut task, 0).unwrap_err(), TaskError::NotInitialized));
}

#[test]
fn test_run_failed_task() {
    let mut task = task_in("* * * * * * *", None, None, Local);
    task.add_step_default(quick(|_ctx| Err(Error)));
    task.set_id(0);
    task.init();
    assert!(run_task(&mut task, 0).is_ok());
    assert_eq!(task.status, Status::Failed);
    // Attempt to rerun it, it should fail.
    assert!(run_task(&mut task, 0).is_err());
    assert!(matches!(run_task(&mut task, 0).unwrap_err(), TaskError::Failed));
}

#[test]
fn test_run_executed_task() {
    let mut task = task_in("* * * * * * *", None, None, Local);
    task.add_step("Step 1", quick(|_ctx| Ok(Success)));
    task.set_id(0);
    task.init();
    assert!(run_task(&mut task, 0).is_ok());
    assert_eq!(task.status, Status::Executed);
    // Attempt to run it again, it should fail.
    assert!(run_task(&mut task, 0).is_err());
    assert!(matches!(run_task(&mut task, 0).unwrap_err(), TaskError::AlreadyExecuted));
}

#[test]
fn test_run_finished_task() {
    let mut task = task_in("* * * * * * *", None, Some(1), Local);
    task.set_id(0);
    task.init();
    assert!(run_task(&mut task, 0).is_ok());
    assert!(task.reschedule().is_ok());
    assert_eq!(task.status, Status::Finished);
    // At this point the task is Finished. It should not be allowed to run again.
    assert!(run_task(&mut task, 0).is_err());
    assert!(matches!(run_task(&mut task, 0).unwrap_err(), TaskError::Finished));
}

#[test]
fn test_run_failed_delete() {
    let mut task = task_in("* * * * * * *", None, None, Local);
    task.add_step_default(quick(|_ctx| Err(ErrorDelete)));
    task.set_id(0);
    task.init();
    assert!(run_task(&mut task, 0).is_ok());
    assert_eq!(task.status, Status::ForceRemoved);
}

#[test]
fn force_removed_task_is_refused() {
    let mut task = task_in("* * * * * * *", None, None, Utc);
    task.add_step_default(quick(|_ctx| Err(ErrorDelete)));
    task.init();
    assert!(run_task(&mut task, 0).is_ok());
    assert!(matches!(run_task(&mut task, 1).unwrap_err(), TaskError::ForceRemoved));
    assert_eq!(task.status, Status::ForceRemoved);
    assert_eq!(task.last_attempts, 1);
}

#[test]
fn test_invalid_cron_expression() {
    let task: TaskResult<Task<Local, Sync>> = Task::new("invalid expression", None, None, Local);
    assert!(task.is_err());
    assert!(matches!(task.err().unwrap(), TaskError::InvalidCronExpression(_)));
}

#[test]
fn cron_errors_carry_the_reason() {
    let task: TaskResult<Task<Utc, Sync>> = Task::new("61 * * * * * *", None, None, Utc);
    let reason = Schedule::parse("61 * * * * * *").unwrap_err();
    match task {
        Err(TaskError::InvalidCronExpression(text)) => {
            assert_eq!(text, format!("Invalid cron expression: {}", reason))
        }
        _ => panic!("expected a rejected expression"),
    }
}

#[test]
fn test_task_status_transitions() {
    let mut task = task_in("* * * * * * *", Some("Status transition test"), Some(1), Local);

    // Initial status should be Init
    assert_eq!(task.status, Status::Init);

    // After init(), status should be Scheduled
    task.init();
    assert_eq!(task.status, Status::Scheduled);

    // Add a step that succeeds
    task.add_step_default(quick(|_ctx| Ok(Success)));

    // After run_task(), status should be Executed
    assert!(run_task(&mut task, 0).is_ok());
    assert_eq!(task.status, Status::Executed);

    // After reschedule(), with repeats=1 and already executed once,
    // status should be Finished
    assert!(task.reschedule().is_ok());
    assert_eq!(task.status, Status::Finished);
}

#[test]
fn test_task_step_display() {
    // Test with description
    let step_with_desc = TaskStep::new("Test step", quick(|_ctx| Ok(Success)));
    assert_eq!(step_with_desc.label(), "Test step");

    // Test without description
    let step_no_desc = TaskStep::default(quick(|_ctx| Ok(Success)));
    assert_eq!(step_no_desc.label(), "-");

    // Test with empty description
    let step_empty_desc = TaskStep::new("", quick(|_ctx| Ok(Success)));
    assert_eq!(step_empty_desc.label(), "-");
}

#[test]
fn test_run_and_reschedule_notify() {
    let mut task = task_in("* * * * * * *", Some("Notify flow"), Some(1), Utc);
    task.set_id(1);
    task.add_step("Test step", quick(|_ctx| Ok(Success)));

    let (mut driver, mut shared) = started(task);
    assert_eq!(driver.task.status, Status::Scheduled);

    // One run drives Scheduled -> Executed.
    let action = driver.on_command(&mut shared);
    let action = act(&mut driver, &mut shared, action);
    assert_eq!(driver.task.status, Status::Executed);
    assert!(matches!(action, Action::Fire(hooks) if hooks == vec![Hook::OnSuccess]));

    // With the single repeat spent, rescheduling retires the task.
    let action = driver.on_fired(&mut shared);
    assert_eq!(driver.task.status, Status::Finished);
    assert!(driver.task.is_terminal());
    assert!(matches!(action, Action::Fire(hooks) if hooks == vec![Hook::OnFinish]));
    assert!(matches!(driver.on_fired(&mut shared), Action::Stop));
}

/// A driven task initializes, publishes its state, runs on a command, and marks itself finished
/// when its repeat cycle is exhausted.
#[test]
fn test_run_task_loop_publishes_and_finishes() {
    let mut task = task_in("* * * * * * *", Some("Loop"), Some(1), Utc);
    task.set_id(3);
    task.add_step_default(quick(|_ctx| Ok(Success)));

    let mut shared = TaskShared::new(DEFAULT_HISTORY_LIMIT);
    let mut driver = TaskDriver::new(task);
    assert!(matches!(driver.start(&mut shared), Action::Wait));

    // After self-initialization the task publishes Scheduled + a next execution.
    assert_eq!(shared.state.status, Status::Scheduled);
    assert!(shared.state.next_exec.is_some());

    // Dispatch a single run; with repeat(1) the task then retires and the loop ends.
    shared.queued = true;
    let action = driver.on_command(&mut shared);
    assert!(!shared.queued);
    assert!(shared.running);
    assert!(matches!(finish(&mut driver, &mut shared, action), Action::Stop));

    assert!(shared.finished);
    assert!(!shared.running);
    assert_eq!(shared.state.status, Status::Finished);
}

#[test]
fn test_task_multiple_steps_execution() {
    // Create counters to track step execution
    let counters = [counter(), counter(), counter()];

    // Create a task with multiple steps
    let mut task = task_in("* * * * * * *", Some("Multiple steps"), Some(1), Local);

    // Add steps that increment counters
    for (i, calls) in counters.iter().enumerate() {
        let calls = calls.clone();
        task.add_step(
            &format!("Step {}", i + 1),
            quick(move |_ctx| {
                calls.set(calls.get() + 1);
                Ok(Success)
            }),
        );
    }

    // Initialize and run
    task.init();
    assert!(run_task(&mut task, 0).is_ok());

    // Verify all steps executed
    assert_eq!(counters[0].get(), 1);
    assert_eq!(counters[1].get(), 1);
    assert_eq!(counters[2].get(), 1);

    // Verify final status
    assert_eq!(task.status, Status::Executed);
}

#[test]
fn test_task_step_failure_scenarios() {
    // Keep the order in which steps executed
    let order = Rc::new(RefCell::new(Vec::new()));

    // Create a task with three steps, where the second step fails
    let mut task = task_in("* * * * * * *", Some("Failure test"), None, Local);

    // First step succeeds
    let seen = order.clone();
    task.add_step(
        "Step 1",
        quick(move |_ctx| {
            seen.borrow_mut().push(1);
            Ok(Success)
        }),
    );

    // Second step fails
    let seen = order.clone();
    task.add_step(
        "Step 2",
        quick(move |_ctx| {
            seen.borrow_mut().push(2);
            Err(Error)
        }),
    );

    // Third step should not execute due to previous failure
    let seen = order.clone();
    task.add_step(
        "Step 3",
        quick(move |_ctx| {
            seen.borrow_mut().push(3);
            Ok(Success)
        }),
    );

    // Initialize and run
    task.init();
    assert!(run_task(&mut task, 0).is_ok());

    // Verify only steps 1 and 2 executed
    assert_eq!(*order.borrow(), vec![1, 2]);

    // Verify task is in Failed state
    assert_eq!(task.status, Status::Failed);
}

#[test]
fn test_force_removal() {
    // Create a task with a step that forces removal
    let mut task = task_in("* * * * * * *", Some("Force removal"), None, Local);
    task.add_step("Failing step", quick(|_ctx| Err(ErrorDelete)));

    // Initialize and run
    task.init();
    assert!(run_task(&mut task, 0).is_ok());

    // Verify task is marked for force removal
    assert_eq!(task.status, Status::ForceRemoved);

    // Verify reschedule respects force removal status
    assert!(task.reschedule().is_ok());
    assert_eq!(task.status, Status::ForceRemoved);
}

#[test]
fn test_empty_task_execution() {
    // Create a task with no steps
    let mut task = task_in("* * * * * * *", Some("Empty task"), None, Local);

    // Initialize and run
    task.init();
    assert!(run_task(&mut task, 0).is_ok());

    // Verify task is marked as Executed even with no steps
    assert_eq!(task.status, Status::Executed);
}

/// A task built with `repeat(0)` must not underflow when executed.
#[test]
fn test_repeat_zero_does_not_underflow() {
    let mut task = task_in("* * * * * * *", Some("Zero repeats"), Some(0), Utc);
    task.add_step_default(quick(|_ctx| Ok(Success)));
    task.init();
    assert!(run_task(&mut task, 0).is_ok());
    assert_eq!(task.repeats, Some(0));
    // With no repeats left, the task is retired on reschedule.
    assert!(task.reschedule().is_ok());
    assert_eq!(task.status, Status::Finished);
}

/// A step exceeding the configured timeout is cancelled and marks the task failed.
#[test]
fn test_step_timeout_marks_failed() {
    let mut task = task_in("* * * * * * *", Some("Timeout"), None, Utc);
    task.timeout = Some(Duration::from_millis(50));
    // Takes far longer than the timeout.
    task.add_step_default(Box::new(|_ctx| (Duration::from_millis(500), Ok(Success))));
    task.init();
    assert!(run_task(&mut task, 0).is_ok());
    assert_eq!(task.status, Status::Failed);
}

#[test]
fn driven_step_is_held_to_its_timeout() {
    let mut task = task_in("* * * * * * *", None, None, Utc);
    task.set_timeout(Duration::from_millis(50));
    task.add_step_default(Box::new(|_ctx| (Duration::from_millis(500), Ok(Success))));
    let (mut driver, mut shared) = started(task);
    let action = driver.on_command(&mut shared);
    match &action {
        Action::Invoke { timeout, .. } => assert_eq!(*timeout, Some(Duration::from_millis(50))),
        _ => panic!("a run begins by invoking its first step"),
    }
    let action = act(&mut driver, &mut shared, action);
    assert!(matches!(action, Action::Fire(hooks) if hooks == vec![Hook::OnFailure]));
    assert_eq!(driver.task.status, Status::Failed);
    assert_eq!(shared.steps[0].status, StepStatus::Failed);
}

/// A transient failure is retried and the task succeeds once a step returns Ok.
#[test]
fn test_retry_eventually_succeeds() {
    let calls = counter();
    let c = calls.clone();

    let mut task = task_in("* * * * * * *", Some("Retry ok"), None, Utc);
    task.retry_policy = Some(RetryPolicy::fixed(3, Duration::from_millis(10)));
    task.add_step_default(quick(move |_ctx| {
        // Fail the first two attempts, succeed on the third.
        c.set(c.get() + 1);
        if c.get() <= 2 {
            Err(Error)
        } else {
            Ok(Success)
        }
    }));
    task.init();
    let delays = run_with_delays(&mut task, 0).unwrap();
    assert_eq!(task.status, Status::Executed);
    assert_eq!(calls.get(), 3);
    assert_eq!(delays, vec![Duration::from_millis(10), Duration::from_millis(10)]);
}

/// When the retry budget is exhausted the task is marked failed.
#[test]
fn test_retry_exhausted_marks_failed() {
    let calls = counter();
    let c = calls.clone();

    let mut task = task_in("* * * * * * *", Some("Retry fail"), None, Utc);
    task.retry_policy = Some(RetryPolicy::fixed(2, Duration::from_millis(10)));
    task.add_step_default(quick(move |_ctx| {
        c.set(c.get() + 1);
        Err(Error)
    }));
    task.init();
    assert!(run_task(&mut task, 0).is_ok());
    assert_eq!(task.status, Status::Failed);
    // 1 initial attempt + 2 retries.
    assert_eq!(calls.get(), 3);
}

/// `ErrorDelete` bypasses the retry policy and removes the task immediately.
#[test]
fn test_error_delete_bypasses_retry() {
    let calls = counter();
    let c = calls.clone();

    let mut task = task_in("* * * * * * *", Some("Delete"), None, Utc);
    task.retry_policy = Some(RetryPolicy::fixed(5, Duration::from_millis(10)));
    task.add_step_default(quick(move |_ctx| {
        c.set(c.get() + 1);
        Err(ErrorDelete)
    }));
    task.init();
    assert!(run_task(&mut task, 0).is_ok());
    assert_eq!(task.status, Status::ForceRemoved);
    // Called exactly once — no retries.
    assert_eq!(calls.get(), 1);
}

/// A timed-out attempt counts as a retryable failure; a later attempt can succeed.
#[test]
fn test_timeout_is_retried() {
    let calls = counter();
    let c = calls.clone();

    let mut task = task_in("* * * * * * *", Some("Timeout retry"), None, Utc);
    task.timeout = Some(Duration::from_millis(50));
    task.retry_policy = Some(RetryPolicy::fixed(2, Duration::from_millis(0)));
    task.add_step_default(Box::new(move |_ctx| {
        // First attempt hangs past the timeout; subsequent attempts return quickly.
        c.set(c.get() + 1);
        let taken = if c.get() == 1 { 500 } else { 0 };
        (Duration::from_millis(taken), Ok(Success))
    }));
    let (mut driver, mut shared) = started(task);
    let action = driver.on_command(&mut shared);
    let action = act(&mut driver, &mut shared, action);
    assert!(matches!(action, Action::Fire(_)));
    assert_eq!(driver.task.status, Status::Executed);
    assert_eq!(calls.get(), 2);
}

/// A retry with a delay waits it out; one without is attempted at once.
#[test]
fn retries_wait_out_their_delay() {
    let mut task = task_in("* * * * * * *", None, None, Utc);
    task.set_retry_policy(RetryPolicy::exponential(2, Duration::from_millis(100), 2));
    task.add_step_default(quick(|_ctx| Err(Error)));
    let (mut driver, mut shared) = started(task);
    assert!(matches!(driver.on_command(&mut shared), Action::Invoke { .. }));
    match driver.on_reply(&mut shared, Err(Error)) {
        Action::Sleep(delay) => assert_eq!(delay, Duration::from_millis(100)),
        _ => panic!("a retry with a delay sleeps first"),
    }
    assert!(matches!(driver.phase, Phase::Backoff(_)));
    match driver.on_slept(&mut shared) {
        Action::Invoke { context, .. } => assert_eq!(context.attempt(), 2),
        _ => panic!("the step is attempted again"),
    }
    match driver.on_reply(&mut shared, Err(Error)) {
        Action::Sleep(delay) => assert_eq!(delay, Duration::from_millis(200)),
        _ => panic!("a retry with a delay sleeps first"),
    }
    assert!(matches!(driver.on_slept(&mut shared), Action::Invoke { .. }));
    // The budget is spent: the run ends.
    assert!(matches!(driver.on_reply(&mut shared, Err(Error)), Action::Fire(_)));
    assert_eq!(driver.task.last_attempts, 3);
}

/// Lifecycle callbacks fire for a successful, finishing task.
#[test]
fn test_lifecycle_callbacks_success_and_finish() {
    let (success, failure, end) = (counter(), counter(), counter());

    let mut task = task_in("* * * * * * *", Some("Callbacks"), Some(1), Utc);
    task.add_step_default(quick(|_ctx| Ok(Success)));
    task.on_success = Some(counting(&success));
    task.on_failure = Some(counting(&failure));
    task.on_finish = Some(counting(&end));
    task.set_id(0);

    // A run fires on_success; the follow-up reschedule retires the task (repeat 1)
    // and fires on_finish exactly once.
    let (mut driver, mut shared) = started(task);
    run_once(&mut driver, &mut shared);

    assert_eq!(success.get(), 1);
    assert_eq!(failure.get(), 0);
    assert_eq!(end.get(), 1);
}

/// A force-removed task fires both on_failure and on_finish.
#[test]
fn test_lifecycle_callbacks_force_removed() {
    let (failure, end) = (counter(), counter());

    let mut task = task_in("* * * * * * *", Some("Callbacks delete"), None, Utc);
    task.add_step_default(quick(|_ctx| Err(ErrorDelete)));
    task.set_callbacks(None, Some(counting(&failure)), Some(counting(&end)));
    task.set_id(0);

    // ForceRemoved is terminal, so the run fires both on_failure and on_finish.
    let (mut driver, mut shared) = started(task);
    run_once(&mut driver, &mut shared);

    assert_eq!(failure.get(), 1);
    assert_eq!(end.get(), 1);
    assert!(matches!(driver.phase, Phase::Stopped));
    assert!(shared.finished);
}

/// A task that runs several times fires on_success each time and on_finish once at the end.
#[test]
fn finish_callback_fires_once_over_a_life() {
    let (success, end) = (counter(), counter());
    let mut task = task_in("* * * * * * *", None, Some(3), Utc);
    task.add_step_default(quick(|_ctx| Ok(Success)));
    task.set_callbacks(Some(counting(&success)), None, Some(counting(&end)));
    let (mut driver, mut shared) = started(task);
    for done in 0..3 {
        assert_eq!(end.get(), 0);
        assert_eq!(success.get(), done);
        run_once(&mut driver, &mut shared);
    }
    assert_eq!(success.get(), 3);
    assert_eq!(end.get(), 1);
    assert_eq!(shared.runs, 3);
    assert_eq!(driver.task.status, Status::Finished);
}

/// Step states track each step's outcome; a step after a failure is skipped.
#[test]
fn test_step_states_track_outcomes() {
    let mut task = task_in("* * * * * * *", Some("Steps"), Some(1), Utc);
    task.add_step("ok", quick(|_ctx| Ok(Success)));
    task.add_step("boom", quick(|_ctx| Err(Error)));
    task.add_step("never", quick(|_ctx| Ok(Success)));
    task.set_id(0);
    task.init();

    // Before the first run every step is pending, with descriptions preserved.
    assert_eq!(task.step_states.len(), 3);
    assert!(task.step_states.iter().all(|s| s.status == StepStatus::Pending));
    assert_eq!(task.step_states[0].description.as_deref(), Some("ok"));

    assert!(run_task(&mut task, 0).is_ok());
    assert_eq!(task.step_states[0].status, StepStatus::Succeeded);
    assert_eq!(task.step_states[1].status, StepStatus::Failed);
    assert_eq!(task.step_states[2].status, StepStatus::Skipped);
    assert_eq!(task.last_attempts, 2);
}

/// A step returning `HadErrors` classifies the run outcome as `HadErrors`.
#[test]
fn test_run_outcome_had_errors() {
    let mut task = task_in("* * * * * * *", None, Some(1), Utc);
    task.add_step_default(quick(|_ctx| Ok(HadErrors)));
    task.init();
    assert!(run_task(&mut task, 0).is_ok());
    assert_eq!(task.step_states[0].status, StepStatus::HadErrors);
    assert_eq!(task.run_outcome(), RunOutcome::HadErrors);
}

#[test]
fn run_outcomes_follow_the_status() {
    let outcome = |replies: Vec<StepReply>| {
        let mut task = task_in("* * * * * * *", None, None, Utc);
        for reply in replies {
            task.add_step_default(quick(move |_ctx| reply));
        }
        task.init();
        run_task(&mut task, 0).unwrap();
        task.run_outcome()
    };
    assert_eq!(outcome(vec![Ok(Success), Ok(Success)]), RunOutcome::Success);
    assert_eq!(outcome(vec![Ok(HadErrors), Ok(Success)]), RunOutcome::HadErrors);
    assert_eq!(outcome(vec![Ok(HadErrors), Err(Error)]), RunOutcome::Failed);
    assert_eq!(outcome(vec![Ok(Success), Err(ErrorDelete)]), RunOutcome::ForceRemoved);
    assert_eq!(outcome(vec![]), RunOutcome::Success);
}

/// Run history records each run's outcome and is bounded by the history limit.
#[test]
fn test_run_history_records_and_caps() {
    let mut task = task_in("* * * * * * *", Some("Hist"), None, Utc);
    task.set_id(0);
    task.set_history_limit(2);
    task.add_step_default(quick(|_ctx| Ok(Success)));

    let (mut driver, mut shared) = started(task);
    for _ in 0..3 {
        run_once(&mut driver, &mut shared);
    }

    let hist = &shared.history;
    // Only the two most recent runs are retained, oldest first.
    assert_eq!(hist.len(), 2);
    assert_eq!(hist.front().unwrap().run_id, 1);
    assert_eq!(hist.back().unwrap().run_id, 2);
    assert!(hist
        .iter()
        .all(|r| r.outcome == Some(RunOutcome::Success) && r.finished_at.is_some()));
    // The lifetime counter is not bounded by the retained history.
    assert_eq!(shared.runs, 3);
    // The per-step snapshot is published to the shared cell.
    assert_eq!(shared.steps[0].status, StepStatus::Succeeded);
}

/// A `history_limit` of zero disables run history but still counts runs.
#[test]
fn test_history_limit_zero_disables_history() {
    let mut task = task_in("* * * * * * *", None, None, Utc);
    task.set_history_limit(0);
    task.add_step_default(quick(|_ctx| Ok(Success)));

    let (mut driver, mut shared) = started(task);
    run_once(&mut driver, &mut shared);

    assert!(shared.history.is_empty());
    assert_eq!(shared.runs, 1);
}

#[test]
fn records_are_closed_one_by_one() {
    let at = |secs: i64| Timestamp { secs, nanos: 0 };
    let mut shared = TaskShared::new(3);
    assert_eq!(shared.start_run(at(10)), 0);
    assert_eq!(shared.start_run(at(20)), 1);
    shared.finish_run(0, at(15), RunOutcome::Failed, 4);
    assert_eq!(shared.history[0].finished_at, Some(at(15)));
    assert_eq!(shared.history[0].outcome, Some(RunOutcome::Failed));
    assert_eq!(shared.history[0].attempts, 4);
    assert_eq!(shared.history[0].started_at, at(10));
    assert_eq!(shared.history[1].outcome, None);
    assert_eq!(shared.history[1].finished_at, None);
    assert_eq!(shared.last_outcome, Some(RunOutcome::Failed));
    // The end of a run that is no longer kept changes no record.
    let before = shared.history.clone();
    shared.finish_run(7, at(30), RunOutcome::Success, 1);
    assert_eq!(shared.history, before);
    assert_eq!(shared.last_outcome, Some(RunOutcome::Success));
}

/// The history holds exactly the newest runs, with ids that have no gap.
#[test]
fn history_holds_the_newest_runs() {
    let at = |secs: i64| Timestamp { secs, nanos: 0 };
    for limit in [0usize, 1, 3, 20] {
        let mut shared = TaskShared::new(limit);
        for n in 0..7usize {
            assert_eq!(shared.start_run(at(n as i64)), n);
            if n % 2 == 0 {
                shared.finish_run(n, at(100 + n as i64), RunOutcome::Success, n);
            }
            assert_eq!(shared.runs, n + 1);
            let kept = limit.min(n + 1);
            assert_eq!(shared.history.len(), kept);
            for (i, record) in shared.history.iter().enumerate() {
                let id = n + 1 - kept + i;
                assert_eq!(record.run_id, id);
                assert_eq!(record.started_at, at(id as i64));
                let over = id % 2 == 0;
                assert_eq!(record.outcome, if over { Some(RunOutcome::Success) } else { None });
                assert_eq!(record.attempts, if over { id } else { 0 });
            }
            assert_eq!(shared.last_outcome, Some(RunOutcome::Success));
        }
    }
}

/// Step-state transitions are streamed to the shared cell during a run, so an observer sees a
/// completed step while a later step is still pending.
#[test]
fn test_step_states_stream_live() {
    let mut task = task_in("* * * * * * *", None, Some(1), Utc);
    task.set_id(0);
    task.add_step("first", quick(|_ctx| Ok(Success)));
    task.add_step("second", quick(|_ctx| Ok(Success)));
    let (mut driver, mut shared) = started(task);

    // Dispatch a run and stop while step 1 is mid-flight.
    assert!(matches!(driver.on_command(&mut shared), Action::Invoke { .. }));
    let action = driver.on_reply(&mut shared, Ok(Success));
    assert!(matches!(&action, Action::Invoke { context, .. } if context.step_index() == 1));

    // Live snapshot: step 0 already succeeded while step 1 is still pending.
    assert_eq!(shared.steps[0].status, StepStatus::Succeeded);
    assert_eq!(shared.steps[1].status, StepStatus::Pending);

    // Let step 1 finish; the run completes and, with repeat(1), the task retires.
    assert!(matches!(finish(&mut driver, &mut shared, action), Action::Stop));
    assert_eq!(shared.steps[0].status, StepStatus::Succeeded);
    assert_eq!(shared.steps[1].status, StepStatus::Succeeded);
}

/// A step's context reports the task id/name, run id, step index and attempt.
#[test]
fn test_context_reports_identity() {
    let seen = Rc::new(RefCell::new(Vec::<(usize, Option<String>, usize, usize, u32)>::new()));
    let s = seen.clone();
    let mut task = task_in("* * * * * *", None, Some(1), Local);
    task.set_name("ctx-task");
    task.set_id(7);
    task.add_step(
        "first",
        quick(move |ctx| {
            s.borrow_mut().push((
                ctx.task_id(),
                ctx.task_name().map(str::to_string),
                ctx.run_id(),
                ctx.step_index(),
                ctx.attempt(),
            ));
            Ok(Success)
        }),
    );
    task.init();
    // Run with an explicit run id, as the scheduler would.
    assert!(run_task(&mut task, 42).is_ok());

    let seen = seen.borrow();
    assert_eq!(seen.len(), 1);
    assert_eq!(
        seen[0],
        (7, Some("ctx-task".to_string()), 42, 0, 1),
        "context should carry task id/name, run id, step index and attempt"
    );
}

/// The per-run store hands values from one step to a later step within the same run, and does
/// not leak into the next run.
#[test]
fn test_run_store_passes_data_between_steps() {
    let observed = Rc::new(RefCell::new(Vec::<Option<u32>>::new()));
    let mut task = task_in("* * * * * *", None, Some(2), Local);
    task.set_id(0);
    // First step writes a value keyed by the current run id.
    task.add_step(
        "produce",
        quick(|ctx| {
            assert!(ctx.run_store().borrow().is_empty(), "a run's store starts empty");
            ctx.run_store().borrow_mut().set("value", ctx.run_id() as u32 + 1);
            Ok(Success)
        }),
    );
    // Second step reads what the first step wrote.
    let o = observed.clone();
    task.add_step(
        "consume",
        quick(move |ctx| {
            o.borrow_mut().push(ctx.run_store().borrow().get::<u32>("value"));
            Ok(Success)
        }),
    );
    task.init();

    // Two runs with distinct run ids; each run gets a fresh store.
    assert!(run_task(&mut task, 0).is_ok());
    assert!(task.reschedule().is_ok());
    assert!(run_task(&mut task, 1).is_ok());

    assert_eq!(
        *observed.borrow(),
        vec![Some(1), Some(2)],
        "each run's store is fresh and visible to later steps in that run"
    );
}

/// A blackboard attached to the task is visible to every step through its context and persists
/// across runs.
#[test]
fn test_context_blackboard_persists_across_runs() {
    let board = Board::default();
    let mut task = task_in("* * * * * *", None, Some(3), Local);
    task.set_id(0);
    task.set_blackboard(board.clone());
    task.add_step(
        "count",
        quick(|ctx| {
            let n: u32 = ctx.blackboard().borrow_mut().get_or_insert("runs", 0);
            ctx.blackboard().borrow_mut().set("runs", n + 1);
            Ok(Success)
        }),
    );
    task.init();

    for run_id in 0..3 {
        assert!(run_task(&mut task, run_id).is_ok());
        let _ = task.reschedule();
    }

    // The externally-held blackboard reflects every run.
    assert_eq!(board.borrow().get::<u32>("runs"), Some(3));
}

/// The context's attempt counter increments as a failing step is retried.
#[test]
fn test_context_attempt_increments_on_retry() {
    let attempts = Rc::new(RefCell::new(Vec::<u32>::new()));
    let a = attempts.clone();
    let mut task = task_in("* * * * * *", None, Some(1), Local);
    task.set_id(0);
    // Fail the first two attempts (recording each attempt number), succeed on the third.
    task.set_retry_policy(RetryPolicy::fixed(2, Duration::from_millis(0)));
    task.add_step(
        "flaky",
        quick(move |ctx| {
            a.borrow_mut().push(ctx.attempt());
            if ctx.attempt() < 3 {
                Err(Error)
            } else {
                Ok(Success)
            }
        }),
    );
    task.init();
    assert!(run_task(&mut task, 0).is_ok());
    assert_eq!(task.status, Status::Executed);
    assert_eq!(*attempts.borrow(), vec![1, 2, 3]);
}

/// Retries are counted per step, and attempts over the whole run.
#[test]
fn attempts_add_up_over_steps() {
    let mut task = task_in("* * * * * * *", None, None, Utc);
    task.set_retry_policy(RetryPolicy::fixed(2, Duration::from_millis(0)));
    task.add_step_default(quick(|ctx| if ctx.attempt() < 2 { Err(Error) } else { Ok(HadErrors) }));
    task.add_step_default(quick(|_ctx| Ok(Success)));
    task.add_step_default(quick(|_ctx| Err(Error)));
    task.add_step_default(quick(|_ctx| Ok(Success)));
    task.init();
    assert!(run_task(&mut task, 0).is_ok());
    assert_eq!(task.last_attempts, 2 + 1 + 3);
    let statuses: Vec<StepStatus> = task.step_states.iter().map(|s| s.status).collect();
    assert_eq!(
        statuses,
        vec![
            StepStatus::HadErrors,
            StepStatus::Succeeded,
            StepStatus::Failed,
            StepStatus::Skipped
        ]
    );
    assert_eq!(task.status, Status::Failed);
}

/// A schedule in the past leaves the task finished from the start, without a callback.
#[test]
fn schedule_without_occurrence_finishes_at_once() {
    let end = counter();
    let mut task = task_in("0 0 0 1 1 * 1999", None, None, Utc);
    task.set_callbacks(None, None, Some(counting(&end)));
    let mut shared = TaskShared::new(1);
    let mut driver = TaskDriver::new(task);
    assert!(matches!(driver.start(&mut shared), Action::Stop));
    assert_eq!(shared.state.status, Status::Finished);
    assert_eq!(shared.state.next_exec, None);
    assert!(shared.finished);
    assert_eq!(end.get(), 0);
}

/// The next occurrence decides whether a task goes on; without repeats left it is not needed.
#[test]
fn rescheduling_takes_the_next_occurrence() {
    let at = Timestamp { secs: 1_700_000_000, nanos: 0 };
    let later = Timestamp { secs: 1_700_000_060, nanos: 0 };
    let mut task = task_in("0 * * * * * *", None, Some(2), Utc);
    task.init_at(Some(at));
    assert_eq!(task.next_exec, Some(at));
    assert!(run_task(&mut task, 0).is_ok());
    assert!(task.has_repeats_left());
    assert!(task.reschedule_at(Some(later)).is_ok());
    assert_eq!((task.status, task.next_exec), (Status::Scheduled, Some(later)));
    assert!(run_task(&mut task, 1).is_ok());
    assert!(!task.has_repeats_left());
    assert!(task.reschedule_at(Some(at)).is_ok());
    assert_eq!((task.status, task.next_exec), (Status::Finished, Some(later)));

    let mut endless = task_in("0 * * * * * *", None, None, Utc);
    endless.init_at(Some(at));
    assert!(run_task(&mut endless, 0).is_ok());
    // The schedule has run out.
    assert!(endless.reschedule_at(None).is_ok());
    assert_eq!((endless.status, endless.next_exec), (Status::Finished, Some(at)));
}

/// A run asked for while another is in progress follows it at once, and only one does.
#[test]
fn pending_run_follows_the_current_one() {
    let calls = counter();
    let c = calls.clone();
    let mut task = task_in("* * * * * * *", None, None, Utc);
    task.add_step_default(quick(move |_ctx| {
        c.set(c.get() + 1);
        Ok(Success)
    }));
    let (mut driver, mut shared) = started(task);
    let action = driver.on_command(&mut shared);
    shared.pending = true;
    assert!(matches!(finish(&mut driver, &mut shared, action), Action::Wait));
    assert_eq!(calls.get(), 2);
    assert_eq!(shared.runs, 2);
    assert!(!shared.pending);
    assert_eq!(shared.history.len(), 2);
    assert_eq!(shared.history[1].run_id, 1);
}

/// A pending run leaves the occurrence published that its predecessor was rescheduled to.
#[test]
fn pending_run_keeps_the_next_occurrence() {
    let at = |secs: i64| Timestamp { secs, nanos: 0 };
    let mut task = task_in("* * * * * * *", None, None, Utc);
    task.add_step_default(quick(|_ctx| Ok(Success)));
    let mut shared = TaskShared::new(task.history_limit);
    let mut driver = TaskDriver::new(task);
    driver.start_at(&mut shared, Some(at(100)));
    driver.on_command_at(&mut shared, at(100), Some(at(200)));
    shared.pending = true;
    driver.on_reply(&mut shared, Ok(Success));
    let action = driver.on_run_fired_at(&mut shared, at(203), Some(at(300)));
    assert!(matches!(action, Action::Invoke { .. }));
    assert!(shared.running && !shared.pending);
    assert_eq!(shared.state.next_exec, Some(at(300)));
    assert_eq!(shared.last_outcome, Some(RunOutcome::Success));
}

/// The counters must have room for an attempt that follows, and for none where none does.
#[test]
fn counters_limit_only_what_follows() {
    let mut task = task_in("* * * * * * *", None, None, Utc);
    task.set_retry_policy(RetryPolicy::fixed(1, Duration::from_nanos(0)));
    task.add_step_default(quick(|_ctx| Ok(Success)));
    task.add_step_default(quick(|_ctx| Ok(Success)));
    let (mut driver, mut shared) = started(task);
    assert!(!driver.can_reply(Ok(Success)));
    driver.on_command(&mut shared);
    assert!(driver.can_reply(Ok(Success)) && driver.can_reply(Err(Error)));
    driver.task.last_attempts = usize::MAX;
    // A retry and the second step would follow; a removal ends the run.
    assert!(!driver.can_reply(Err(Error)));
    assert!(!driver.can_reply(Ok(HadErrors)));
    assert!(driver.can_reply(Err(ErrorDelete)));
    driver.task.last_attempts = 1;
    driver.on_reply(&mut shared, Ok(Success));
    driver.task.last_attempts = usize::MAX;
    // No step follows the last one.
    assert!(driver.can_reply(Ok(Success)));
    assert!(!driver.can_reply(Err(Error)));
}

#[test]
fn new_tasks_hold_defaults() {
    let task = task_in("* * * * * * *", None, Some(5), Utc);
    assert_eq!(task.description, "-");
    assert_eq!(task.repeats, Some(5));
    assert_eq!(task.history_limit, 20);
    assert_eq!(task.schedule.source(), "* * * * * * *");
    assert_eq!(task.status, Status::default());
    assert!(task.name.is_none() && task.next_exec.is_none() && task.timeout.is_none());
    assert!(task.blackboard.borrow().is_empty());
    assert_eq!(task.max_retries(), 0);
    let named = task_in("* * * * * * *", Some("Described"), None, Utc);
    assert_eq!(named.description, "Described");
}

#[test]
fn contexts_can_be_cloned() {
    let seen = Rc::new(Cell::new(false));
    let s = seen.clone();
    let mut task = task_in("* * * * * *", None, None, Utc);
    task.add_step_default(quick(move |ctx| {
        let copy = ctx.clone();
        ctx.run_store().borrow_mut().set("k", 1u8);
        // A clone leads to the same stores.
        s.set(copy.run_store().borrow().get::<u8>("k") == Some(1) && copy.run_id() == ctx.run_id());
        Ok(Success)
    }));
    task.init();
    assert!(run_task(&mut task, 9).is_ok());
    assert!(seen.get());
}

/// A step may take any time to answer: the run goes on only when it has.
#[test]
fn test_async_step_is_awaited() {
    let ran = Rc::new(Cell::new(false));
    let flag = ran.clone();

    let mut task = task_in("* * * * * * *", Some("Async step"), Some(1), Utc);
    task.add_step(
        "Awaits",
        quick(move |_ctx| {
            flag.set(true);
            Ok(Success)
        }),
    );
    task.init();
    let mut run = task.begin_run(0).unwrap();
    let context = task.begin_attempt(&mut run);
    assert!(!ran.get());
    assert_eq!(task.step_states[0].status, StepStatus::Pending);
    let reply = invoke(&mut task, context);
    assert!(ran.get(), "async step body must run");
    assert_eq!(task.settle(&mut run, reply), Verdict::Complete(StepStatus::Succeeded));
    assert!(!task.has_attempt(&run));
    task.end_run(run);
    assert_eq!(task.status, Status::Executed);
}

/// Runs leave what was set on a task alone.
#[test]
fn runs_keep_the_settings() {
    let mut task = task_in("5 * * * * * *", Some("kept"), Some(4), Utc);
    task.set_name("name").set_history_limit(3).set_timeout(Duration::from_secs(1));
    task.add_step("one", quick(|_ctx| Ok(Success)));
    task.init();
    assert!(run_task(&mut task, 0).is_ok());
    assert!(task.reschedule().is_ok());
    assert_eq!(task.name.as_deref(), Some("name"));
    assert_eq!(task.description, "kept");
    assert_eq!(task.history_limit, 3);
    assert_eq!(task.timeout, Some(Duration::from_secs(1)));
    assert_eq!(task.schedule.source(), "5 * * * * * *");
    assert_eq!(task.steps.len(), 1);
    assert_eq!(task.repeats, Some(3));
}

/// A rescheduled task is due in the future, and waits for a command.
#[test]
fn rescheduled_task_waits_for_its_next_slot() {
    let mut task = task_in("* * * * * * *", None, None, Utc);
    task.add_step_default(quick(|_ctx| Ok(Success)));
    let (mut driver, mut shared) = started(task);
    let before = Utc::now().timestamp();
    let action = driver.on_command(&mut shared);
    assert!(matches!(finish(&mut driver, &mut shared, action), Action::Wait));
    assert!(matches!(driver.phase, Phase::Parked));
    assert!(shared.state.next_exec.unwrap().secs > before);
    assert_eq!(shared.state.next_exec, driver.task.next_exec);
    // Nobody asked for another run.
    assert_eq!(shared.runs, 1);
    assert!(!shared.running);
}

/// The record of a complete run tells its start, its end, its outcome and its attempts.
#[test]
fn complete_runs_are_recorded() {
    let at = |secs: i64| Timestamp { secs, nanos: 0 };
    let mut task = task_in("* * * * * * *", None, None, Utc);
    task.set_retry_policy(RetryPolicy::fixed(1, Duration::from_nanos(0)));
    task.add_step_default(quick(|_ctx| Err(Error)));
    let mut shared = TaskShared::new(task.history_limit);
    let mut driver = TaskDriver::new(task);
    driver.start_at(&mut shared, Some(at(100)));
    let action = driver.on_command_at(&mut shared, at(100), Some(at(150)));
    // The occurrence that follows is published, not the one that the run is for.
    assert_eq!(shared.state.next_exec, Some(at(150)));
    assert_eq!(shared.state.status, Status::Scheduled);
    assert!(matches!(act(&mut driver, &mut shared, action), Action::Fire(_)));
    assert_eq!(shared.history[0].outcome, None);
    let action = driver.on_run_fired_at(&mut shared, at(103), Some(at(200)));
    assert!(matches!(action, Action::Wait));
    let record = shared.history[0];
    assert_eq!(record.run_id, 0);
    assert_eq!(record.started_at, at(100));
    assert_eq!(record.finished_at, Some(at(103)));
    assert_eq!(record.outcome, Some(RunOutcome::Failed));
    assert_eq!(record.attempts, 2);
    assert_eq!(shared.state.next_exec, Some(at(200)));
}
