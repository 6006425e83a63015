//! The scheduler: adding, dispatching, observing, controlling and reaping tasks.
//!
//! The helpers below play the runtime's part. A [`World`] holds a scheduler and the drivers of
//! its tasks; it starts what the scheduler hands out and runs what was dispatched, at once.

use std::cell::{Cell, RefCell};
use std::rc::Rc;

use chrono::Local;
use tasklet::scheduler::{spawn_answer, Reaped};
use tasklet::task::TaskStepStatusErr::ErrorDelete;
use tasklet::task::TaskStepStatusOk::Success;
use tasklet::task::{StepReply, TaskContext};
use tasklet::{
    Action, Blackboard, Host, OverlapPolicy, Progress, RunOutcome, Schedule, Status, StepStatus, Task,
    TaskBuilder, TaskDriver, TaskError, TaskGenerator, TaskResult, TaskScheduler, Timestamp, Wake,
};

type Board = Rc<RefCell<Blackboard>>;

struct Sync;

impl Host for Sync {
    type Step = Box<dyn FnMut(TaskContext<Board>) -> StepReply>;
    type Callback = Box<dyn FnMut()>;
    type Board = Board;
    type Reply = &'static str;
}

type LocalTask = Task<Local, Sync>;
type Discovery = Box<dyn FnMut() -> Option<TaskResult<LocalTask>>>;
type Scheduler = TaskScheduler<Local, Sync, Discovery>;
type Builder = TaskBuilder<Local, Sync>;

fn task(expression: &str, repeats: Option<usize>) -> TaskResult<LocalTask> {
    Task::new(expression, None, repeats, Local)
}

fn named(name: &str) -> TaskResult<LocalTask> {
    Builder::new(Local).every("* * * * * * *").name(name).build()
}

/// Build a task that increments `counter` once per run.
fn counting_task(counter: &Rc<Cell<usize>>, repeats: Option<usize>) -> TaskResult<LocalTask> {
    let c = counter.clone();
    let mut builder = Builder::new(Local).every("* * * * * * *").add_step_default(Box::new(
        move |_ctx| {
            c.set(c.get() + 1);
            Ok(Success)
        },
    ));
    if let Some(r) = repeats {
        builder = builder.repeat(r);
    }
    builder.build()
}

fn counter() -> Rc<Cell<usize>> {
    Rc::new(Cell::new(0))
}

struct World {
    scheduler: Scheduler,
    drivers: Vec<TaskDriver<Local, Sync>>,
}

impl World {
    fn new(sleep: usize) -> World {
        World { scheduler: Scheduler::new(sleep, Local), drivers: Vec::new() }
    }

    fn add(&mut self, task: TaskResult<LocalTask>) -> usize {
        let id = self.scheduler.add_task_get_id(task).unwrap();
        self.start();
        id
    }

    /// Start the tasks that the scheduler handed out.
    fn start(&mut self) {
        for task in self.scheduler.take_outbox() {
            let id = task.task_id;
            let mut driver = TaskDriver::new(task);
            let at = self.scheduler.handle().find(id).unwrap();
            driver.start(&mut self.scheduler.handle_mut().registry[at].shared);
            self.drivers.push(driver);
        }
    }

    /// Begin every dispatched run, and carry it to its end.
    fn work(&mut self) {
        for driver in self.drivers.iter_mut() {
            let at = match self.scheduler.handle.find(driver.task.task_id) {
                Some(at) => at,
                None => continue,
            };
            let shared = &mut self.scheduler.handle.registry[at].shared;
            if !shared.queued || shared.finished {
                continue;
            }
            let mut action = driver.on_command(shared);
            loop {
                action = match action {
                    Action::Invoke { context, .. } => {
                        let index = context.step_index();
                        let reply = (driver.task.steps[index].function)(context);
                        driver.on_reply(shared, reply)
                    }
                    Action::Sleep(_) => driver.on_slept(shared),
                    Action::Fire(_) => driver.on_fired(shared),
                    Action::Wait | Action::Stop => break,
                };
            }
        }
    }

    /// Begin a dispatched run and invoke its step, but do not report the reply yet: the run stays
    /// in progress.
    fn begin(&mut self, at: usize) -> StepReply {
        let driver = &mut self.drivers[at];
        let shared = &mut self.scheduler.handle.registry[at].shared;
        assert!(shared.queued);
        match driver.on_command(shared) {
            Action::Invoke { context, .. } => {
                let index = context.step_index();
                (driver.task.steps[index].function)(context)
            }
            _ => panic!("a run begins by invoking its first step"),
        }
    }

    /// Move a task's next execution to a second ago.
    fn force_due(&mut self, at: usize) {
        let past = chrono::Utc::now().timestamp() - 1;
        self.scheduler.handle.registry[at].shared.state.next_exec =
            Some(Timestamp { secs: past, nanos: 0 });
    }

    /// Run one scheduling round at the time a task is due next.
    fn round_when_due(&mut self, at: usize) -> Vec<Reaped> {
        let now = self.scheduler.handle.registry[at].shared.state.next_exec.unwrap();
        let reaped = self.scheduler.dispatch_round_at(now);
        self.work();
        reaped
    }

    fn len(&self) -> usize {
        self.scheduler.handle().task_count()
    }
}

/// A finite task runs the expected number of times and is then reaped.
#[test]
fn test_scheduler_runs_finite_task_and_reaps() {
    let counter = counter();
    let mut world = World::new(100);
    world.add(counting_task(&counter, Some(1)));

    assert!(world.round_when_due(0).is_empty());
    // After the single run has completed, the task must be gone.
    let reaped = world.scheduler.dispatch_round();

    assert_eq!(counter.get(), 1, "task should run exactly once");
    assert_eq!(world.len(), 0, "finished task should be reaped");
    assert_eq!(reaped, vec![Reaped { id: 0, requested: false }]);
}

/// A slow-running task must not delay other tasks' schedules.
#[test]
fn test_slow_task_does_not_block_others() {
    let slow = counter();
    let fast = counter();
    let mut world = World::new(100);
    // A slow task: records that it started, and then its run stays in progress.
    world.add(counting_task(&slow, None));
    // A fast task on the same one-second cadence.
    world.add(counting_task(&fast, None));

    world.force_due(0);
    world.scheduler.dispatch_round();
    let reply = world.begin(0);
    for _ in 0..3 {
        world.force_due(0);
        world.round_when_due(1);
    }

    // The fast task keeps ticking even while the slow one is blocked.
    assert!(fast.get() >= 2, "fast task was blocked by the slow one: {} runs", fast.get());
    // The slow task started once; Skip (default) prevents a second overlapping run.
    assert_eq!(slow.get(), 1, "slow task should not overlap itself under Skip");
    let state = world.scheduler.handle().state_of(0).unwrap();
    assert!(state.running);
    assert_eq!(state.run_count, 1);
    assert!(!world.scheduler.handle.registry[0].shared.pending);

    // Once its step has answered, its run ends like any other.
    let shared = &mut world.scheduler.handle.registry[0].shared;
    assert!(matches!(world.drivers[0].on_reply(shared, reply), Action::Fire(_)));
    assert!(matches!(world.drivers[0].on_fired(shared), Action::Wait));
    assert!(!world.scheduler.handle().state_of(0).unwrap().running);
}

/// `dispatch_round` does not start a new run when one is in progress under Skip.
#[test]
fn test_dispatch_skips_running_task() {
    let mut world = World::new(1000);
    world.add(task("* * * * * * *", None));

    // Simulate a due task whose previous run is still in progress.
    world.scheduler.handle.registry[0].shared.running = true;
    world.force_due(0);
    world.scheduler.dispatch_round();

    // Skip: nothing is queued.
    assert!(!world.scheduler.handle.registry[0].shared.pending);
    assert!(!world.scheduler.handle.registry[0].shared.queued);
}

/// `dispatch_round` queues a missed occurrence when the policy is Queue.
#[test]
fn test_dispatch_queues_running_task() {
    let mut world = World::new(1000);
    world.add(Builder::new(Local).every("* * * * * * *").overlap(OverlapPolicy::Queue).build());

    world.scheduler.handle.registry[0].shared.running = true;
    world.force_due(0);
    world.scheduler.dispatch_round();

    // Queue: the missed occurrence is recorded.
    assert!(world.scheduler.handle.registry[0].shared.pending);
}

/// A run in progress is not taken for a missed one: only an occurrence that comes due meanwhile is
/// queued.
#[test]
fn occurrences_are_not_run_twice() {
    let counter = counter();
    let mut task = counting_task(&counter, None).unwrap();
    task.set_overlap(OverlapPolicy::Queue);
    task.set_schedule(Schedule::parse("0 0 0 1 1 * 2099").unwrap());
    let mut world = World::new(1000);
    world.add(Ok(task));
    world.force_due(0);
    world.scheduler.dispatch_round();
    let reply = world.begin(0);

    // Further rounds during the run find the next occurrence ahead.
    world.scheduler.dispatch_round();
    world.scheduler.dispatch_round();
    assert!(!world.scheduler.handle.registry[0].shared.pending);
    let following = world.scheduler.handle.registry[0].shared.state.next_exec.unwrap();
    let before = Timestamp { secs: following.secs - 1, nanos: 999_999_999 };
    world.scheduler.dispatch_round_at(before);
    assert!(!world.scheduler.handle.registry[0].shared.pending);
    // Once that one has come, it is missed and queued.
    world.scheduler.dispatch_round_at(following);
    assert!(world.scheduler.handle.registry[0].shared.pending);

    // It is run after the current run, once.
    let shared = &mut world.scheduler.handle.registry[0].shared;
    assert!(matches!(world.drivers[0].on_reply(shared, reply), Action::Fire(_)));
    assert!(matches!(world.drivers[0].on_fired(shared), Action::Invoke { .. }));
    assert_eq!(shared.runs, 2);
    assert!(!shared.pending);
    world.scheduler.dispatch_round();
    assert!(!world.scheduler.handle.registry[0].shared.pending);
    assert_eq!(counter.get(), 1);
}

/// `dispatch_round` dispatches a run to an idle, due task.
#[test]
fn test_dispatch_runs_idle_due_task() {
    let counter = counter();
    let mut world = World::new(1000);
    world.add(counting_task(&counter, None));

    // Force the task due while idle.
    world.force_due(0);
    world.scheduler.dispatch_round();
    world.work();
    assert_eq!(counter.get(), 1);
}

#[test]
fn tasks_that_are_not_due_wait() {
    let mut world = World::new(1000);
    world.add(task("* * * * * * *", None));
    let next = world.scheduler.handle.registry[0].shared.state.next_exec.unwrap();
    world.scheduler.dispatch_round_at(Timestamp { secs: next.secs - 1, nanos: 999_999_999 });
    assert!(!world.scheduler.handle.registry[0].shared.queued);
    world.scheduler.dispatch_round_at(next);
    assert!(world.scheduler.handle.registry[0].shared.queued);
    // Dispatching again adds nothing.
    world.scheduler.dispatch_round_at(next);
    world.work();
    assert_eq!(world.scheduler.handle.registry[0].shared.runs, 1);
}

/// A force-removed task is reaped without disturbing other tasks.
#[test]
fn test_scheduler_force_removal_isolated() {
    let survivor = counter();
    let mut world = World::new(100);

    let mut doomed = task("* * * * * * *", None).unwrap();
    doomed.add_step_default(Box::new(|_ctx| Err(ErrorDelete)));
    world.add(Ok(doomed));
    world.add(counting_task(&survivor, None));

    world.round_when_due(0);
    world.round_when_due(1);

    // Only the surviving task remains, and it kept running.
    assert_eq!(world.len(), 1, "doomed task should be reaped");
    assert_eq!(world.scheduler.handle().registry[0].id, 1);
    assert!(survivor.get() >= 1);
}

#[test]
fn test_scheduler_with_generator() {
    // Create a new scheduler instance.
    let mut scheduler = Scheduler::new(500, Local);
    let none: Discovery = Box::new(|| None);
    let found: Discovery =
        Box::new(|| Some(Builder::new(Local).every("* * * * * * *").build()));

    // Add a task generator function that does nothing.
    scheduler.set_task_gen(TaskGenerator::new("* * * * * * *", Local, none).unwrap());

    // Should start with zero tasks.
    assert_eq!(scheduler.handle().task_count(), 0);

    // Execute the task generator.
    let due = scheduler.task_gen.as_ref().unwrap().next_exec.unwrap();
    let next = Timestamp { secs: due.secs + 1, nanos: 0 };
    assert!(scheduler.discover_at(due, Some(next)).is_none());
    assert_eq!(scheduler.task_gen.as_ref().unwrap().next_exec, Some(next));

    // The number of tasks should be zero again.
    assert_eq!(scheduler.handle().task_count(), 0);

    // Update the generator to actually create a new task.
    scheduler.set_task_gen(TaskGenerator::new("* * * * * * *", Local, found).unwrap());

    // It is not due yet.
    let early = Timestamp { secs: 0, nanos: 0 };
    assert!(scheduler.discover_at(early, Some(next)).is_none());
    assert_eq!(scheduler.handle().task_count(), 0);

    // Execute the task generator.
    scheduler.task_gen.as_mut().unwrap().next_exec = Some(early);
    assert!(scheduler.run_task_gen());
    assert_eq!(scheduler.handle().task_count(), 1);
    // It has moved on, and is not due again.
    assert!(scheduler.task_gen.as_ref().unwrap().next_exec.unwrap().secs > early.secs);
}

/// The last due occurrence of a generator is discovered, and then it is never due again.
#[test]
fn generators_run_for_the_last_time() {
    let mut scheduler = Scheduler::new(500, Local);
    let found: Discovery =
        Box::new(|| Some(Builder::new(Local).every("* * * * * * *").build()));
    scheduler.set_task_gen(TaskGenerator::new("* * * * * * *", Local, found).unwrap());
    let due = scheduler.task_gen.as_ref().unwrap().next_exec.unwrap();
    assert!(matches!(scheduler.discover_at(due, None), Some(Ok(_))));
    assert_eq!(scheduler.task_gen.as_ref().unwrap().next_exec, None);
    let late = Timestamp { secs: i64::MAX, nanos: 0 };
    assert!(scheduler.discover_at(late, None).is_none());
    assert!(!scheduler.run_task_gen());
}

#[test]
fn generators_report_what_they_found_though_it_is_rejected() {
    let mut scheduler = Scheduler::default(Local);
    let broken: Discovery = Box::new(|| Some(Builder::new(Local).every("nope").build()));
    scheduler.set_task_gen(TaskGenerator::new("* * * * * * *", Local, broken).unwrap());
    scheduler.task_gen.as_mut().unwrap().next_exec = Some(Timestamp { secs: 0, nanos: 0 });
    assert!(scheduler.run_task_gen());
    assert_eq!(scheduler.handle().task_count(), 0);
    // Without a generator nothing happens.
    scheduler.task_gen = None;
    assert!(!scheduler.run_task_gen());
    assert_eq!(scheduler.next_id, 0);
}

#[test]
fn scheduler_test_task_builder_invalid_schedule() {
    // Test with valid schedule
    let result: TaskResult<Task<chrono::Utc, Sync>> =
        TaskBuilder::new(chrono::Utc).every("* * * * * * *").build();
    assert!(result.is_ok());

    // Test with invalid schedule
    let result: TaskResult<Task<chrono::Utc, Sync>> =
        TaskBuilder::new(chrono::Utc).every("invalid cron").build();
    assert!(result.is_err());

    // Test that the error is the correct type
    match result {
        Err(TaskError::InvalidCronExpression(_)) => {} // Expected
        _ => panic!("Expected InvalidCronExpression error"),
    }
}

/// The loop stops once a shutdown is requested through the handle.
#[test]
fn test_scheduler_graceful_shutdown() {
    let mut world = World::new(50);
    world.add(task("* * * * * * *", None));
    world.scheduler.start();
    assert!(matches!(world.scheduler.on_wake(Wake::Tick, None), Progress::Continue(_)));
    world.scheduler.handle_mut().shutdown();
    assert!(world.scheduler.handle_mut().take_shutdown());
    match world.scheduler.on_wake(Wake::Shutdown, None) {
        Progress::Stopped(ids) => assert_eq!(ids, vec![0]),
        Progress::Continue(_) => panic!("a shutdown ends the loop"),
    }

    // Tasks are drained on shutdown.
    assert_eq!(world.len(), 0);
}

/// A shutdown requested before the loop starts must still stop the scheduler.
#[test]
fn test_scheduler_shutdown_requested_before_run() {
    let mut scheduler = Scheduler::new(50, Local);
    // Request shutdown up-front; the stored notification must not be lost.
    scheduler.handle_mut().shutdown();
    scheduler.tick();
    assert!(scheduler.handle_mut().take_shutdown());
    // It is acted upon once.
    assert!(!scheduler.handle_mut().take_shutdown());
}

/// The loop stops when the future that drives the shutdown resolves.
#[test]
fn test_scheduler_run_until() {
    let mut world = World::new(50);
    world.add(task("* * * * * * *", None));
    assert!(matches!(world.scheduler.on_wake(Wake::Shutdown, None), Progress::Stopped(_)));
    assert_eq!(world.scheduler.handle().task_count(), 0);
    assert!(world.scheduler.take_outbox().is_empty());
}

/// The handle reports the live task count and per-task status while running.
#[test]
fn test_handle_status_queries() {
    let mut world = World::new(100);
    world
        .scheduler
        .add_task(task("* * * * * * *", None))
        .unwrap()
        .add_task(task("* * * * * * *", None))
        .unwrap();

    // The registry is populated at `add_task` time, so both tasks are visible
    // through the handle before the loop ever runs.
    assert_eq!(world.len(), 2);
    assert_eq!(world.scheduler.handle().status_of(0), Some(Status::Init));

    world.start();
    let handle = world.scheduler.handle();
    let statuses = handle.statuses();
    assert_eq!(handle.task_count(), 2);
    assert_eq!(statuses.len(), 2);
    assert!(statuses.iter().all(|t| t.status == Status::Scheduled));
    assert!(statuses.iter().all(|t| t.next_exec.is_some()));
    assert_eq!(handle.status_of(0), Some(Status::Scheduled));
    assert_eq!(handle.status_of(1), Some(Status::Scheduled));
    assert_eq!(handle.status_of(99), None);
}

/// A finished task drops out of the handle's snapshot.
#[test]
fn test_handle_status_drops_finished_task() {
    let mut world = World::new(100);
    world.add(task("* * * * * * *", Some(1)));
    world.round_when_due(0);
    assert_eq!(world.scheduler.handle().status_of(0), Some(Status::Finished));
    world.scheduler.dispatch_round();
    assert_eq!(world.len(), 0);
    assert_eq!(world.scheduler.handle().status_of(0), None);
}

/// A duplicate task name is rejected.
#[test]
fn test_add_task_rejects_duplicate_name() {
    let mut scheduler = Scheduler::new(1000, Local);
    scheduler.add_task(named("dup")).unwrap();
    match scheduler.add_task(named("dup")) {
        Err(TaskError::DuplicateTaskName(name)) => assert_eq!(name, "dup"),
        _ => panic!("expected DuplicateTaskName error"),
    }
    assert_eq!(scheduler.handle().task_count(), 1);
    assert_eq!(scheduler.outbox.len(), 1);
    // A different name is accepted.
    assert!(scheduler.add_task(named("other")).is_ok());
}

/// `add_task_get_id` returns the assigned id and still enforces name uniqueness.
#[test]
fn test_add_task_get_id_returns_ids() {
    let mut scheduler = Scheduler::new(1000, Local);
    let id0 = scheduler.add_task_get_id(task("* * * * * * *", None)).unwrap();
    let id1 = scheduler.add_task_get_id(task("* * * * * * *", None)).unwrap();
    assert_eq!(id0, 0);
    assert_eq!(id1, 1);

    // A propagated build error surfaces rather than assigning an id.
    assert!(scheduler.add_task_get_id(task("not a cron", None)).is_err());

    // Duplicate names are still rejected.
    assert_eq!(scheduler.add_task_get_id(named("solo")).unwrap(), 2);
    assert!(matches!(
        scheduler.add_task_get_id(named("solo")),
        Err(TaskError::DuplicateTaskName(_))
    ));
    // The tasks handed out bear the ids they were assigned.
    let ids: Vec<usize> = scheduler.take_outbox().iter().map(|t| t.task_id).collect();
    assert_eq!(ids, vec![0, 1, 2]);
}

/// A name is free again once its task is gone, and ids are not used twice.
#[test]
fn names_are_freed_and_ids_are_not() {
    let mut world = World::new(1000);
    world.add(named("again"));
    assert!(world.scheduler.handle_mut().remove_name("again"));
    assert_eq!(world.scheduler.dispatch_round(), vec![Reaped { id: 0, requested: true }]);
    assert_eq!(world.add(named("again")), 1);
}

/// Pausing a task stops its schedule from being dispatched; resuming restores it.
#[test]
fn test_control_pause_and_resume() {
    let counter = counter();
    let mut world = World::new(1000);
    world.add(counting_task(&counter, None));
    assert!(world.scheduler.handle_mut().pause(0));

    // Force the task due and dispatch: a paused task must not run.
    world.force_due(0);
    world.scheduler.dispatch_round();
    world.work();
    assert_eq!(counter.get(), 0, "paused task must not run");
    assert!(world.scheduler.handle().state_of(0).unwrap().paused);

    // Resume and dispatch: the task runs.
    assert!(world.scheduler.handle_mut().resume(0));
    world.force_due(0);
    world.scheduler.dispatch_round();
    world.work();
    assert_eq!(counter.get(), 1, "resumed task should run");
}

/// Triggering runs an idle task immediately, regardless of its schedule.
#[test]
fn test_control_trigger_runs_idle_task() {
    let counter = counter();
    let mut world = World::new(1000);
    world.add(counting_task(&counter, None));

    assert_eq!(counter.get(), 0);
    assert!(world.scheduler.handle_mut().trigger(0));
    world.work();
    assert_eq!(counter.get(), 1, "trigger should run the task now");
    // Triggering an unknown id reports not-found.
    assert!(!world.scheduler.handle_mut().trigger(99));
}

#[test]
fn triggering_a_running_task_queues_one_run() {
    let mut world = World::new(1000);
    world.add(task("* * * * * * *", None));
    world.scheduler.handle.registry[0].shared.running = true;
    assert!(world.scheduler.handle_mut().trigger(0));
    assert!(world.scheduler.handle_mut().trigger(0));
    assert!(world.scheduler.handle.registry[0].shared.pending);
    assert!(!world.scheduler.handle.registry[0].shared.queued);
}

/// Requesting removal reaps the task on the next round.
#[test]
fn test_control_remove_reaps_task() {
    let mut world = World::new(1000);
    world.add(task("* * * * * * *", None));
    world.scheduler.dispatch_round();

    assert_eq!(world.len(), 1);
    assert!(world.scheduler.handle_mut().remove(0));
    // Next round reaps it.
    world.scheduler.dispatch_round();
    assert_eq!(world.len(), 0);
    assert!(!world.scheduler.handle_mut().remove(0));
}

/// Tasks are controlled by name as by id.
#[test]
fn control_by_name() {
    let mut world = World::new(1000);
    world.add(named("first"));
    world.add(named("second"));
    let handle = world.scheduler.handle_mut();
    assert!(handle.pause_name("second"));
    assert!(!handle.state_of(0).unwrap().paused);
    assert!(handle.state_of(1).unwrap().paused);
    assert!(handle.resume_name("second"));
    assert!(!handle.state_of(1).unwrap().paused);
    assert!(handle.trigger_name("second"));
    assert!(handle.registry[1].shared.queued);
    assert!(handle.remove_name("first"));
    assert!(handle.registry[0].shared.remove_requested);
    for unknown in ["third", ""] {
        assert!(!handle.pause_name(unknown));
        assert!(!handle.resume_name(unknown));
        assert!(!handle.trigger_name(unknown));
        assert!(!handle.remove_name(unknown));
        assert_eq!(handle.status_of_name(unknown), None);
    }
    assert!(!handle.pause(7) && !handle.resume(7));
    assert!(handle.state_of(7).is_none());
    assert!(handle.history(7).is_empty() && handle.step_states(7).is_empty());
}

/// The handle resolves names and exposes run history and step states.
#[test]
fn test_handle_name_history_and_steps() {
    let counter = counter();
    let mut world = World::new(100);
    let c = counter.clone();
    world.add(
        Builder::new(Local)
            .every("* * * * * * *")
            .name("worker")
            .add_step(
                "do work",
                Box::new(move |_ctx| {
                    c.set(c.get() + 1);
                    Ok(Success)
                }),
            )
            .build(),
    );
    world.round_when_due(0);

    let probe = world.scheduler.handle();
    let id = probe.id_of_name("worker");
    let status = probe.status_of_name("worker");
    let history = id.map(|i| probe.history(i)).unwrap_or_default();
    let steps = id.map(|i| probe.step_states(i)).unwrap_or_default();

    assert_eq!(id, Some(0));
    assert!(status.is_some());
    assert!(!history.is_empty(), "history should have records");
    assert!(history.iter().any(|r| r.outcome == Some(RunOutcome::Success)));
    assert_eq!(steps.len(), 1);
    assert_eq!(steps[0].description.as_deref(), Some("do work"));
    assert_eq!(steps[0].status, StepStatus::Succeeded);
    assert!(counter.get() >= 1);
    // Unknown name resolves to nothing.
    assert_eq!(world.scheduler.handle().id_of_name("nope"), None);
}

/// `TaskState` carries name, run_count and last_outcome.
#[test]
fn test_task_state_exposes_new_fields() {
    let mut world = World::new(100);
    world.add(named("named"));
    assert_eq!(world.scheduler.handle().state_of(0).unwrap().last_outcome, None);
    world.round_when_due(0);
    let state = world.scheduler.handle().state_of(0).expect("state should exist").clone();

    assert_eq!(state.name.as_deref(), Some("named"));
    assert!(state.run_count >= 1);
    assert_eq!(state.last_outcome, Some(RunOutcome::Success));
    assert!(!state.paused);
    assert!(!state.running);
    assert_eq!(state.id, 0);
}

/// The last outcome is that of the most recent completed run, also while a newer one is in
/// progress and though nothing is kept of it.
#[test]
fn last_outcome_outlives_new_runs() {
    for limit in [20, 1, 0] {
        let counter = counter();
        let mut task = counting_task(&counter, None).unwrap();
        task.set_history_limit(limit);
        let mut world = World::new(100);
        world.add(Ok(task));
        world.round_when_due(0);
        world.scheduler.handle_mut().trigger(0);
        world.begin(0);
        let state = world.scheduler.handle().state_of(0).unwrap();
        assert!(state.running);
        assert_eq!(state.last_outcome, Some(RunOutcome::Success));
        assert_eq!(state.run_count, 2);
    }
}

/// Ids count the tasks that were added before, rejected and removed ones left aside.
#[test]
fn ids_count_added_tasks() {
    let mut world = World::new(1000);
    assert_eq!(world.add(named("a")), 0);
    assert!(world.scheduler.add_task_get_id(named("a")).is_err());
    assert!(world.scheduler.add_task_get_id(task("broken", None)).is_err());
    assert_eq!(world.add(named("b")), 1);
    assert!(world.scheduler.handle_mut().remove(0));
    world.scheduler.spawner().spawn_get_id(named("a"), "again").unwrap();
    let report = world.scheduler.tick();
    // Its name is still taken as the queue is picked up, and free after the round.
    assert!(matches!(report.answers[0].result, Err(TaskError::DuplicateTaskName(_))));
    assert_eq!(world.add(named("a")), 2);
    assert_eq!(world.scheduler.next_id, 3);
}

/// A scheduler that goes away refuses requests and drops those not picked up.
#[test]
fn closed_spawners_drop_their_requests() {
    let mut scheduler = Scheduler::default(Local);
    scheduler.spawner().spawn_get_id(named("a"), "waiting").unwrap();
    scheduler.spawner().close();
    assert!(scheduler.spawner().queue.is_empty());
    let refused = scheduler.spawner().spawn(named("b"));
    assert!(matches!(refused, Err(TaskError::ExecutionError(_))));
}

/// A `TaskSpawner` adds a task to a running scheduler, which then executes it.
#[test]
fn test_spawner_adds_task_at_runtime() {
    let counter = counter();
    let mut world = World::new(100);

    // Nothing registered up front.
    assert_eq!(world.len(), 0);

    world
        .scheduler
        .spawner()
        .spawn(counting_task(&counter, None))
        .expect("spawn should be accepted");
    // It is picked up on the next round, not before.
    assert_eq!(world.len(), 0);
    world.scheduler.tick();
    assert_eq!(world.len(), 1);
    world.start();
    world.round_when_due(0);

    assert!(counter.get() >= 1, "spawned task should have executed at least once");
}

/// `spawn_get_id` resolves with the id the scheduler assigns the task.
#[test]
fn test_spawner_get_id_returns_assigned_id() {
    let mut world = World::new(50);
    // Pre-register one task so the next assigned id is 1.
    world.add(task("* * * * * * *", None));

    let given = Builder::new(Local).every("* * * * * * *").build();
    world.scheduler.spawner().spawn_get_id(given, "caller").unwrap();
    let mut report = world.scheduler.tick();

    assert_eq!(report.answers.len(), 1);
    let answer = report.answers.pop().unwrap();
    assert_eq!(answer.reply, "caller");
    let id = spawn_answer(Some(answer.result)).expect("spawn_get_id should succeed");
    assert_eq!(id, 1, "the injected task should be assigned the next id");
}

/// A spawned task whose name collides with an existing one is rejected.
#[test]
fn test_spawner_rejects_duplicate_name() {
    let mut world = World::new(50);
    world.add(named("dup"));
    world.scheduler.spawner().spawn_get_id(named("dup"), "caller").unwrap();
    let mut report = world.scheduler.tick();
    let result = spawn_answer(Some(report.answers.pop().unwrap().result));
    assert!(
        matches!(result, Err(TaskError::DuplicateTaskName(name)) if name == "dup"),
        "a duplicate name must be rejected on the scheduler side"
    );
    assert_eq!(world.len(), 1);
}

#[test]
fn spawned_tasks_are_added_in_order() {
    let mut scheduler = Scheduler::default(Local);
    scheduler.spawner().spawn(named("a")).unwrap();
    scheduler.spawner().spawn_get_id(named("a"), "second").unwrap();
    scheduler.spawner().spawn_get_id(named("b"), "third").unwrap();
    let answers = scheduler.drain_spawns();
    // Only those who wait are answered.
    assert_eq!(answers.len(), 2);
    assert_eq!(answers[0].reply, "second");
    assert!(matches!(answers[0].result, Err(TaskError::DuplicateTaskName(_))));
    assert_eq!(answers[1].reply, "third");
    assert!(matches!(answers[1].result, Ok(1)));
    assert_eq!(scheduler.handle().id_of_name("b"), Some(1));
    assert!(scheduler.spawner().queue.is_empty());
}

#[test]
fn stopped_schedulers_take_no_requests() {
    let mut scheduler = Scheduler::default(Local);
    scheduler.shutdown_tasks();
    let refused = scheduler.spawner().spawn(task("* * * * * * *", None));
    assert!(
        matches!(refused, Err(TaskError::ExecutionError(text)) if text == "scheduler is no longer running")
    );
    let refused = scheduler.spawner().spawn_get_id(task("* * * * * * *", None), "caller");
    assert!(matches!(refused, Err(TaskError::ExecutionError(_))));
    // Started again, it does; a build error is returned either way.
    scheduler.start();
    assert!(scheduler.spawner().spawn(task("* * * * * * *", None)).is_ok());
    let broken = scheduler.spawner().spawn(task("broken", None));
    assert!(matches!(broken, Err(TaskError::InvalidCronExpression(_))));
    assert_eq!(scheduler.spawner().queue.len(), 1);
}

#[test]
fn lost_answers_are_errors() {
    assert!(matches!(
        spawn_answer(None),
        Err(TaskError::ExecutionError(text)) if text == "scheduler dropped the spawn request"
    ));
    assert!(matches!(spawn_answer(Some(Ok(4))), Ok(4)));
}

#[test]
fn schedulers_start_empty() {
    let scheduler = Scheduler::default(Local);
    assert_eq!(scheduler.sleep, 1000);
    assert_eq!(scheduler.next_id, 0);
    assert_eq!(scheduler.handle().task_count(), 0);
    assert!(scheduler.handle().statuses().is_empty());
    assert_eq!(Scheduler::new(50, Local).sleep, 50);
}

/// Ticking runs the generator before the spawn requests, and both before the round.
#[test]
fn ticks_run_the_generator_first() {
    let mut scheduler = Scheduler::default(Local);
    let found: Discovery = Box::new(|| Some(named("generated")));
    let mut task_gen = TaskGenerator::new("* * * * * * *", Local, found).unwrap();
    task_gen.next_exec = Some(Timestamp { secs: 0, nanos: 0 });
    scheduler.set_task_gen(task_gen);
    scheduler.spawner().spawn_get_id(named("generated"), "late").unwrap();
    scheduler.spawner().spawn(named("spawned")).unwrap();
    let report = scheduler.tick();
    assert_eq!(scheduler.handle().id_of_name("generated"), Some(0));
    assert_eq!(scheduler.handle().id_of_name("spawned"), Some(1));
    assert!(matches!(report.answers[0].result, Err(TaskError::DuplicateTaskName(_))));
    assert!(report.reaped.is_empty());
    assert!(scheduler.task_gen.as_ref().unwrap().next_exec.unwrap().secs > 0);
}

/// What the generator found is added before the spawn requests.
#[test]
fn found_tasks_are_added_on_waking() {
    let mut scheduler = Scheduler::default(Local);
    scheduler.spawner().spawn(named("spawned")).unwrap();
    match scheduler.on_wake(Wake::Tick, Some(named("found"))) {
        Progress::Continue(report) => assert!(report.answers.is_empty()),
        Progress::Stopped(_) => panic!("a round does not end the loop"),
    }
    assert_eq!(scheduler.handle().id_of_name("found"), Some(0));
    assert_eq!(scheduler.handle().id_of_name("spawned"), Some(1));
}
