//! Driving a task from command to command.
//!
//! A [`TaskDriver`] decides; the runtime acts. Each handler takes in what has happened, brings
//! the task and what it publishes up to date, and answers with the next [`Action`]: wait for a
//! command, invoke a step, sleep before a retry, fire callbacks, or stop.

use vstd::prelude::*;

use crate::handle::TaskHandle;
use crate::run::{statuses, verdict, Run, RunModel, Verdict};
use crate::schedule::Zone;
use crate::shared::{
    closed_history, recorded, started, successor, RunEvent, SharedState, TaskShared,
};
use crate::task::{
    upcoming, Host, RunOutcome, Status, StepReply, StepStatus, Task, TaskContext,
    TaskStepStatusErr,
};
use crate::time::{clock_reads, present, Duration, Timestamp};

verus! {

/// A lifecycle callback.
#[derive(Debug, Clone, Copy, PartialEq, Eq, Structural)]
pub enum Hook {
    /// Invoked after a successful execution.
    OnSuccess,
    /// Invoked after a failed execution.
    OnFailure,
    /// Invoked once when the task reaches a terminal state.
    OnFinish,
}

/// Where a driven task stands.
pub enum Phase<B> {
    /// The task has not been started.
    Fresh,
    /// The task waits for a command to run.
    Parked,
    /// A step attempt is under way.
    Attempt(Run<B>),
    /// A failed step waits to be attempted again.
    Backoff(Run<B>),
    /// The run is over and its callbacks are being fired.
    RunHooks { run_id: usize },
    /// The task has just finished and its last callback is being fired.
    FinishHooks { run_id: usize, outcome: RunOutcome },
    /// The task will never run again.
    Stopped,
}

/// What the runtime is to do next.
pub enum Action<B> {
    /// Wait for a command to run the task.
    Wait,
    /// Invoke the step that the context names, within the timeout if there is one, and report
    /// its reply. An attempt that runs out of time is reported as an error.
    Invoke { context: TaskContext<B>, timeout: Option<Duration> },
    /// Wait this long, and report.
    Sleep(Duration),
    /// Fire these callbacks in order, those that are set, and report.
    Fire(Vec<Hook>),
    /// The task is done.
    Stop,
}

/// The callbacks that a run ends with, by the status it leaves the task in.
pub open spec fn run_hooks(status: Status) -> Seq<Hook> {
    match status {
        Status::Executed => seq![Hook::OnSuccess],
        Status::Failed => seq![Hook::OnFailure],
        Status::ForceRemoved => seq![Hook::OnFailure, Hook::OnFinish],
        _ => seq![],
    }
}

impl<B> Action<B> {
    /// Whether the action fires the callback for a terminal state.
    pub open spec fn fires_finish(self) -> bool {
        self matches Action::Fire(hooks) && hooks@.contains(Hook::OnFinish)
    }
}

/// A task and where it stands.
pub struct TaskDriver<T, H: Host> {
    pub task: Task<T, H>,
    pub phase: Phase<H::Board>,
}

/// The shared cell after a run with the next id has started on a task. The occurrence that the
/// run is for is no longer published as due: the one that follows it, `next`, is.
pub open spec fn shared_begun<T, H: Host>(
    shared: TaskShared,
    now: Timestamp,
    next: Option<Timestamp>,
    task: Task<T, H>,
    after: TaskShared,
) -> bool {
    &&& after.history@ == recorded(
        shared.history@,
        shared.history_limit as nat,
        started(shared.run_seq, now),
    )
    &&& after.steps@ == task.step_states@
    &&& after == TaskShared {
        running: true,
        run_seq: successor(shared.run_seq),
        runs: successor(shared.runs),
        state: SharedState { next_exec: next, ..shared.state },
        history: after.history,
        steps: after.steps,
        ..shared
    }
}

/// The shared cell after a run is over: it is no longer running, its record is closed, its
/// outcome is the last one, and the task's state is published. A terminal task is flagged as
/// finished.
pub open spec fn shared_completed<T, H: Host>(
    shared: TaskShared,
    run_id: usize,
    now: Timestamp,
    outcome: RunOutcome,
    task: Task<T, H>,
    after: TaskShared,
) -> bool {
    &&& after.history@ == closed_history(
        shared.history@,
        run_id,
        now,
        outcome,
        task.last_attempts,
    )
    &&& after.steps@ == task.step_states@
    &&& after == TaskShared {
        running: false,
        finished: shared.finished || task.status.terminal(),
        state: SharedState { status: task.status, next_exec: task.next_exec },
        history: after.history,
        last_outcome: Some(outcome),
        steps: after.steps,
        ..shared
    }
}

/// The shared cell after the queued run was picked up.
pub open spec fn picked_up(shared: TaskShared) -> TaskShared {
    TaskShared { queued: false, ..shared }
}

/// The shared cell with the task's per-step snapshot published.
pub open spec fn shared_streamed<T, H: Host>(
    shared: TaskShared,
    task: Task<T, H>,
    after: TaskShared,
) -> bool {
    after.steps@ == task.step_states@ && after == TaskShared { steps: after.steps, ..shared }
}

impl<T, H: Host> TaskDriver<T, H> {
    /// What holds of a driven task and of what it publishes.
    pub open spec fn wf(self, shared: TaskShared) -> bool {
        match self.phase {
            Phase::Fresh => !shared.running && !shared.finished,
            Phase::Parked => {
                &&& self.task.status is Scheduled
                &&& !shared.running
                &&& !shared.finished
                &&& shared.state == SharedState {
                    status: self.task.status,
                    next_exec: self.task.next_exec,
                }
                &&& shared.steps@ == self.task.step_states@
            },
            Phase::Attempt(run) => {
                &&& self.task.run_wf(run)
                &&& !self.task.model(run).over()
                &&& run.attempt >= 1
                &&& shared.running
                &&& !shared.finished
                &&& shared.steps@ == self.task.step_states@
            },
            Phase::Backoff(run) => {
                &&& self.task.run_wf(run)
                &&& !self.task.model(run).over()
                &&& 1 <= run.attempt <= self.task.retries()
                &&& shared.running
                &&& !shared.finished
                &&& shared.steps@ == self.task.step_states@
            },
            Phase::RunHooks { run_id } => {
                &&& self.task.status is Executed || self.task.status is Failed
                    || self.task.status is ForceRemoved
                &&& shared.running
                &&& !shared.finished
                &&& shared.steps@ == self.task.step_states@
            },
            Phase::FinishHooks { run_id, outcome } => {
                &&& self.task.status is Finished
                &&& shared.running
                &&& !shared.finished
                &&& shared.steps@ == self.task.step_states@
            },
            Phase::Stopped => {
                &&& self.task.status.terminal()
                &&& !shared.running
                &&& shared.finished
                &&& shared.state == SharedState {
                    status: self.task.status,
                    next_exec: self.task.next_exec,
                }
                &&& shared.steps@ == self.task.step_states@
            },
        }
    }

    /// The next attempt of a run has begun, and the step is to be invoked.
    pub open spec fn invokes(
        task: Task<T, H>,
        run: Run<H::Board>,
        after: TaskDriver<T, H>,
        action: Action<H::Board>,
    ) -> bool {
        &&& action matches Action::Invoke { context, timeout }
        &&& timeout == task.timeout
        &&& after.phase matches Phase::Attempt(run_after)
        &&& task.attempt_begun(run, after.task, run_after, context)
    }

    /// A run goes on: with its next attempt, or by closing and firing the run's callbacks.
    pub open spec fn goes_on(
        task: Task<T, H>,
        run: Run<H::Board>,
        shared: TaskShared,
        after: TaskDriver<T, H>,
        shared_after: TaskShared,
        action: Action<H::Board>,
    ) -> bool {
        if !task.model(run).over() {
            TaskDriver::invokes(task, run, after, action) && shared_after == shared
        } else {
            &&& task.run_ended(after.task)
            &&& shared_streamed(shared, after.task, shared_after)
            &&& after.phase == Phase::<H::Board>::RunHooks { run_id: run.run_id }
            &&& action matches Action::Fire(hooks)
            &&& hooks@ == run_hooks(after.task.status)
        }
    }

    /// A run has started at `now` on a scheduled task: it has the next run id, it is recorded,
    /// its fresh snapshot and the occurrence that follows, `next`, are published, and it goes on
    /// with its first attempt.
    pub open spec fn starts_run(
        task: Task<T, H>,
        shared: TaskShared,
        now: Timestamp,
        next: Option<Timestamp>,
        after: TaskDriver<T, H>,
        shared_after: TaskShared,
        action: Action<H::Board>,
    ) -> bool {
        exists|mid: Task<T, H>, run: Run<H::Board>, shared_mid: TaskShared|
            {
                &&& #[trigger] task.run_begun(shared.run_seq, mid, run)
                &&& #[trigger] shared_begun(shared, now, next, mid, shared_mid)
                &&& TaskDriver::goes_on(mid, run, shared_mid, after, shared_after, action)
            }
    }

    /// A run is over and rescheduled; it ended at `now`. A task that is done stops. Otherwise a
    /// run that was asked for meanwhile starts at once, and without one the task waits.
    pub open spec fn completes_run(
        task: Task<T, H>,
        shared: TaskShared,
        run_id: usize,
        outcome: RunOutcome,
        now: Timestamp,
        after: TaskDriver<T, H>,
        shared_after: TaskShared,
        action: Action<H::Board>,
    ) -> bool {
        if task.status.terminal() || !shared.pending {
            &&& shared_completed(shared, run_id, now, outcome, task, shared_after)
            &&& after.task == task
            &&& if task.status.terminal() {
                after.phase is Stopped && action is Stop
            } else {
                after.phase is Parked && action is Wait
            }
        } else {
            exists|shared_mid: TaskShared|
                {
                    &&& #[trigger] shared_completed(shared, run_id, now, outcome, task, shared_mid)
                    &&& TaskDriver::starts_run(
                        task,
                        TaskShared { pending: false, ..shared_mid },
                        now,
                        task.next_exec,
                        after,
                        shared_after,
                        action,
                    )
                }
        }
    }

    /// A driver for a task that has not been started.
    pub fn new(task: Task<T, H>) -> (driver: TaskDriver<T, H>)
        ensures
            driver.task == task,
            driver.phase is Fresh,
    {
        TaskDriver { task, phase: Phase::Fresh }
    }

    /// Start the task: initialize it with its first execution time, and publish its state. A
    /// task without one stops at once.
    pub fn start_at(&mut self, shared: &mut TaskShared, next: Option<Timestamp>) -> (action: Action<
        H::Board,
    >)
        requires
            old(self).wf(*old(shared)),
            old(self).phase is Fresh,
        ensures
            old(self).task.inited(next, final(self).task),
            final(shared).steps@ == final(self).task.step_states@,
            *final(shared) == (TaskShared {
                state: SharedState {
                    status: final(self).task.status,
                    next_exec: final(self).task.next_exec,
                },
                steps: final(shared).steps,
                finished: next is None,
                ..*old(shared)
            }),
            next is Some ==> final(self).phase is Parked && action is Wait,
            next is None ==> final(self).phase is Stopped && action is Stop,
            final(self).wf(*final(shared)),
    {
        self.task.init_at(next);
        shared.publish(&self.task);
        if self.task.is_terminal() {
            shared.finished = true;
            self.phase = Phase::Stopped;
            Action::Stop
        } else {
            self.phase = Phase::Parked;
            Action::Wait
        }
    }

    /// Go on with a run: begin its next attempt, or close it.
    fn go_on(&mut self, shared: &mut TaskShared, run: Run<H::Board>) -> (action: Action<H::Board>)
        requires
            old(self).task.run_wf(run),
            !old(self).task.model(run).over() ==> run.attempt <= old(self).task.retries()
                && run.attempt < u32::MAX && old(self).task.last_attempts < usize::MAX,
            old(shared).running,
            !old(shared).finished,
            old(shared).steps@ == old(self).task.step_states@,
        ensures
            TaskDriver::goes_on(
                old(self).task,
                run,
                *old(shared),
                *final(self),
                *final(shared),
                action,
            ),
            final(self).wf(*final(shared)),
    {
        let mut run = run;
        if self.task.has_attempt(&run) {
            let timeout = self.task.timeout;
            let context = self.task.begin_attempt(&mut run);
            self.phase = Phase::Attempt(run);
            Action::Invoke { context, timeout }
        } else {
            let run_id: usize = run.run_id;
            self.task.end_run(run);
            shared.publish_steps(&self.task);
            self.phase = Phase::RunHooks { run_id };
            Action::Fire(self.hooks_of_run())
        }
    }

    /// The callbacks that the run ends with.
    fn hooks_of_run(&self) -> (hooks: Vec<Hook>)
        ensures
            hooks@ == run_hooks(self.task.status),
    {
        let mut hooks: Vec<Hook> = Vec::new();
        match self.task.status {
            Status::Executed => {
                hooks.push(Hook::OnSuccess);
            },
            Status::Failed => {
                hooks.push(Hook::OnFailure);
            },
            Status::ForceRemoved => {
                hooks.push(Hook::OnFailure);
                hooks.push(Hook::OnFinish);
            },
            _ => {},
        }
        assert(hooks@ =~= run_hooks(self.task.status));
        hooks
    }

    /// Start a run at `now`, given the occurrence that follows.
    fn begin_at(
        &mut self,
        shared: &mut TaskShared,
        now: Timestamp,
        next: Option<Timestamp>,
    ) -> (action: Action<H::Board>)
        requires
            old(self).task.status is Scheduled,
            !old(shared).finished,
        ensures
            TaskDriver::starts_run(
                old(self).task,
                *old(shared),
                now,
                next,
                *final(self),
                *final(shared),
                action,
            ),
            final(self).wf(*final(shared)),
    {
        let ghost task_before = self.task;
        let ghost shared_before = *shared;
        let run_id: usize = shared.start_run(now);
        shared.running = true;
        shared.state = SharedState { status: shared.state.status, next_exec: next };
        match self.task.begin_run(run_id) {
            Ok(run) => {
                shared.publish_steps(&self.task);
                assert(task_before.run_begun(shared_before.run_seq, self.task, run));
                assert(shared_begun(shared_before, now, next, self.task, *shared));
                self.go_on(shared, run)
            },
            Err(_) => {
                self.phase = Phase::RunHooks { run_id };
                Action::Fire(self.hooks_of_run())
            },
        }
    }

    /// A command to run the task was picked up: start a run at `now`, given the occurrence of the
    /// schedule that follows.
    pub fn on_command_at(
        &mut self,
        shared: &mut TaskShared,
        now: Timestamp,
        next: Option<Timestamp>,
    ) -> (action: Action<H::Board>)
        requires
            old(self).wf(*old(shared)),
            old(self).phase is Parked,
        ensures
            TaskDriver::starts_run(
                old(self).task,
                picked_up(*old(shared)),
                now,
                next,
                *final(self),
                *final(shared),
                action,
            ),
            final(self).wf(*final(shared)),
            old(self).task.status.terminal() ==> final(self).task.status.terminal(),
            action.fires_finish() <==> !old(self).task.status.terminal()
                && final(self).task.status.terminal(),
    {
        shared.queued = false;
        let action = self.begin_at(shared, now, next);
        proof {
            lemma_run_hooks(self.task.status);
        }
        action
    }

    /// Whether the attempt counters have room for the attempt that follows from a reply to the one
    /// under way, if one does.
    pub fn can_reply(&self, reply: StepReply) -> (room: bool)
        requires
            self.phase matches Phase::Attempt(run) ==> self.task.run_wf(run)
                && !self.task.model(run).over(),
        ensures
            room == (self.phase matches Phase::Attempt(run) && self.task.model(run).settled(
                reply,
                self.task.retries(),
            ).countable()),
    {
        match &self.phase {
            Phase::Attempt(run) => self.task.can_count(run, reply),
            _ => false,
        }
    }

    /// The attempt under way came to `reply`.
    ///
    /// The attempt counters are machine integers; where another attempt follows, they must not be
    /// at their end.
    pub fn on_reply(&mut self, shared: &mut TaskShared, reply: StepReply) -> (action: Action<
        H::Board,
    >)
        requires
            old(self).wf(*old(shared)),
            old(self).phase matches Phase::Attempt(run) && old(self).task.model(run).settled(
                reply,
                old(self).task.retries(),
            ).countable(),
        ensures
            old(self).phase matches Phase::Attempt(run) && TaskDriver::replied(
                old(self).task,
                run,
                reply,
                *old(shared),
                *final(self),
                *final(shared),
                action,
            ),
            final(self).wf(*final(shared)),
            old(self).task.status.terminal() ==> final(self).task.status.terminal(),
            action.fires_finish() <==> !old(self).task.status.terminal()
                && final(self).task.status.terminal(),
    {
        let mut phase = Phase::Parked;
        std::mem::swap(&mut phase, &mut self.phase);
        match phase {
            Phase::Attempt(run) => {
                let ghost task_before = self.task;
                let ghost shared_before = *shared;
                let ghost run_before = run;
                let mut run = run;
                match self.task.settle(&mut run, reply) {
                    Verdict::Retry => {
                        let delay = self.task.retry_delay(run.attempt);
                        assert(task_before.may_wait(run_before.attempt, delay));
                        if delay.is_zero() {
                            self.go_on(shared, run)
                        } else {
                            self.phase = Phase::Backoff(run);
                            Action::Sleep(delay)
                        }
                    },
                    outcome => {
                        shared.publish_steps(&self.task);
                        assert(task_before.attempt_settled(run_before, outcome, self.task, run));
                        assert(shared_streamed(shared_before, self.task, *shared));
                        let action = self.go_on(shared, run);
                        proof {
                            lemma_run_hooks(self.task.status);
                        }
                        action
                    },
                }
            },
            other => {
                self.phase = other;
                Action::Wait
            },
        }
    }

    /// The attempt under way ran out of time, which counts as an error.
    ///
    /// The attempt counters are machine integers; where another attempt follows, they must not be
    /// at their end.
    pub fn on_timeout(&mut self, shared: &mut TaskShared) -> (action: Action<H::Board>)
        requires
            old(self).wf(*old(shared)),
            old(self).phase matches Phase::Attempt(run) && old(self).task.model(run).settled(
                Err(TaskStepStatusErr::Error),
                old(self).task.retries(),
            ).countable(),
        ensures
            old(self).phase matches Phase::Attempt(run) && TaskDriver::replied(
                old(self).task,
                run,
                Err(TaskStepStatusErr::Error),
                *old(shared),
                *final(self),
                *final(shared),
                action,
            ),
            final(self).wf(*final(shared)),
            old(self).task.status.terminal() ==> final(self).task.status.terminal(),
            action.fires_finish() <==> !old(self).task.status.terminal()
                && final(self).task.status.terminal(),
    {
        self.on_reply(shared, Err(TaskStepStatusErr::Error))
    }

    /// The callback of the task that a hook stands for, if one is set.
    pub fn callback(&mut self, hook: Hook) -> (callback: &mut Option<H::Callback>)
        ensures
            *callback == match hook {
                Hook::OnSuccess => old(self).task.on_success,
                Hook::OnFailure => old(self).task.on_failure,
                Hook::OnFinish => old(self).task.on_finish,
            },
            final(self).task == (match hook {
                Hook::OnSuccess => Task { on_success: *final(callback), ..old(self).task },
                Hook::OnFailure => Task { on_failure: *final(callback), ..old(self).task },
                Hook::OnFinish => Task { on_finish: *final(callback), ..old(self).task },
            }),
            final(self).phase == old(self).phase,
    {
        match hook {
            Hook::OnSuccess => &mut self.task.on_success,
            Hook::OnFailure => &mut self.task.on_failure,
            Hook::OnFinish => &mut self.task.on_finish,
        }
    }

    /// The delay before a retry is over: attempt the step again.
    ///
    /// The attempt counters are machine integers; they must not be at their end.
    pub fn on_slept(&mut self, shared: &mut TaskShared) -> (action: Action<H::Board>)
        requires
            old(self).wf(*old(shared)),
            old(self).phase matches Phase::Backoff(run) && run.attempt < u32::MAX,
            old(self).task.last_attempts < usize::MAX,
        ensures
            old(self).phase matches Phase::Backoff(run) && TaskDriver::invokes(
                old(self).task,
                run,
                *final(self),
                action,
            ),
            *final(shared) == *old(shared),
            final(self).wf(*final(shared)),
            !action.fires_finish(),
            final(self).task.status == old(self).task.status,
    {
        let mut phase = Phase::Parked;
        std::mem::swap(&mut phase, &mut self.phase);
        match phase {
            Phase::Backoff(run) => self.go_on(shared, run),
            other => {
                self.phase = other;
                Action::Wait
            },
        }
    }

    /// Complete a run that ended at `now`.
    fn complete_at(
        &mut self,
        shared: &mut TaskShared,
        run_id: usize,
        outcome: RunOutcome,
        now: Timestamp,
    ) -> (action: Action<H::Board>)
        requires
            old(self).task.status is Scheduled || old(self).task.status.terminal(),
            !old(shared).finished,
        ensures
            TaskDriver::completes_run(
                old(self).task,
                *old(shared),
                run_id,
                outcome,
                now,
                *final(self),
                *final(shared),
                action,
            ),
            final(self).wf(*final(shared)),
            old(self).task.status.terminal() ==> final(self).task.status
                == old(self).task.status && action is Stop,
            action.fires_finish() <==> !old(self).task.status.terminal()
                && final(self).task.status.terminal(),
    {
        let ghost shared_before = *shared;
        shared.running = false;
        shared.finish_run(run_id, now, outcome, self.task.last_attempts);
        if self.task.is_terminal() {
            shared.finished = true;
        }
        shared.publish(&self.task);
        assert(shared_completed(shared_before, run_id, now, outcome, self.task, *shared));
        if shared.finished {
            self.phase = Phase::Stopped;
            Action::Stop
        } else if shared.pending {
            shared.pending = false;
            let action = self.begin_at(shared, now, self.task.next_exec);
            proof {
                lemma_run_hooks(self.task.status);
            }
            action
        } else {
            self.phase = Phase::Parked;
            Action::Wait
        }
    }

    /// The callbacks of a run have been fired: reschedule the task, given the next occurrence of
    /// its schedule and the present instant. A task that has just finished fires its last
    /// callback; otherwise the run is complete.
    pub fn on_run_fired_at(
        &mut self,
        shared: &mut TaskShared,
        now: Timestamp,
        next: Option<Timestamp>,
    ) -> (action: Action<H::Board>)
        requires
            old(self).wf(*old(shared)),
            old(self).phase is RunHooks,
        ensures
            old(self).phase matches Phase::RunHooks { run_id } && TaskDriver::rescheduled(
                old(self).task,
                *old(shared),
                run_id,
                now,
                next,
                *final(self),
                *final(shared),
                action,
            ),
            final(self).wf(*final(shared)),
            old(self).task.status.terminal() ==> final(self).task.status.terminal(),
            action.fires_finish() <==> !old(self).task.status.terminal()
                && final(self).task.status.terminal(),
    {
        let mut phase = Phase::Parked;
        std::mem::swap(&mut phase, &mut self.phase);
        match phase {
            Phase::RunHooks { run_id } => {
                // The outcome is read before rescheduling overwrites the status.
                let outcome = self.task.run_outcome();
                let _ = self.task.reschedule_at(next);
                if self.task.status == Status::Finished {
                    self.phase = Phase::FinishHooks { run_id, outcome };
                    let mut hooks: Vec<Hook> = Vec::new();
                    hooks.push(Hook::OnFinish);
                    assert(hooks@[0] == Hook::OnFinish);
                    Action::Fire(hooks)
                } else {
                    self.complete_at(shared, run_id, outcome, now)
                }
            },
            other => {
                self.phase = other;
                Action::Wait
            },
        }
    }

    /// The last callback of a finished task has been fired: the run ended at `now`.
    pub fn on_finish_fired_at(&mut self, shared: &mut TaskShared, now: Timestamp) -> (action:
        Action<H::Board>)
        requires
            old(self).wf(*old(shared)),
            old(self).phase is FinishHooks,
        ensures
            old(self).phase matches Phase::FinishHooks { run_id, outcome } && shared_completed(
                *old(shared),
                run_id,
                now,
                outcome,
                old(self).task,
                *final(shared),
            ),
            final(self).task == old(self).task,
            final(self).phase is Stopped,
            action is Stop,
            final(self).wf(*final(shared)),
    {
        let mut phase = Phase::Parked;
        std::mem::swap(&mut phase, &mut self.phase);
        match phase {
            Phase::FinishHooks { run_id, outcome } => {
                self.complete_at(shared, run_id, outcome, now)
            },
            other => {
                self.phase = other;
                Action::Stop
            },
        }
    }

    /// The attempt under way was answered: a step to be retried waits out its delay, or is
    /// attempted again at once where the delay is empty; otherwise the step's new status is
    /// published and the run goes on.
    pub open spec fn replied(
        task: Task<T, H>,
        run: Run<H::Board>,
        reply: StepReply,
        shared: TaskShared,
        after: TaskDriver<T, H>,
        shared_after: TaskShared,
        action: Action<H::Board>,
    ) -> bool {
        let outcome = verdict(reply, run.attempt as nat, task.retries());
        if outcome is Retry {
            &&& shared_after == shared
            &&& exists|delay: Duration|
                {
                    &&& #[trigger] task.may_wait(run.attempt, delay)
                    &&& if delay@ == 0 {
                        TaskDriver::invokes(task, run, after, action)
                    } else {
                        &&& action == Action::<H::Board>::Sleep(delay)
                        &&& after.task == task
                        &&& after.phase == Phase::Backoff(run)
                    }
                }
        } else {
            exists|mid: Task<T, H>, run_mid: Run<H::Board>, shared_mid: TaskShared|
                {
                    &&& #[trigger] task.attempt_settled(run, outcome, mid, run_mid)
                    &&& #[trigger] shared_streamed(shared, mid, shared_mid)
                    &&& TaskDriver::goes_on(mid, run_mid, shared_mid, after, shared_after, action)
                }
        }
    }

    /// The task was rescheduled after a run, whose outcome is that of the task before.
    pub open spec fn rescheduled(
        task: Task<T, H>,
        shared: TaskShared,
        run_id: usize,
        now: Timestamp,
        next: Option<Timestamp>,
        after: TaskDriver<T, H>,
        shared_after: TaskShared,
        action: Action<H::Board>,
    ) -> bool {
        let done = task.rescheduled(next);
        if done.status is Finished {
            &&& shared_after == shared
            &&& after.task == done
            &&& after.phase == Phase::<H::Board>::FinishHooks { run_id, outcome: task.outcome() }
            &&& action matches Action::Fire(hooks)
            &&& hooks@ == seq![Hook::OnFinish]
        } else {
            TaskDriver::completes_run(
                done,
                shared,
                run_id,
                task.outcome(),
                now,
                after,
                shared_after,
                action,
            )
        }
    }
}

proof fn lemma_run_hooks(status: Status)
    ensures
        run_hooks(status).contains(Hook::OnFinish) <==> status is ForceRemoved,
{
    if status is ForceRemoved {
        assert(run_hooks(status)[1] == Hook::OnFinish);
    }
}

impl<T: Zone, H: Host> TaskDriver<T, H> {
    /// Start the task: initialize it, schedule its first execution and publish its state.
    pub fn start(&mut self, shared: &mut TaskShared) -> (action: Action<H::Board>)
        requires
            old(self).wf(*old(shared)),
            old(self).phase is Fresh,
        ensures
            exists|next: Option<Timestamp>|
                {
                    &&& #[trigger] upcoming(old(self).task.timezone, old(self).task.schedule, next)
                    &&& old(self).task.inited(next, final(self).task)
                    &&& next is Some ==> final(self).phase is Parked && action is Wait
                    &&& next is None ==> final(self).phase is Stopped && action is Stop
                },
            final(shared).steps@ == final(self).task.step_states@,
            *final(shared) == (TaskShared {
                state: SharedState {
                    status: final(self).task.status,
                    next_exec: final(self).task.next_exec,
                },
                steps: final(shared).steps,
                finished: final(self).phase is Stopped,
                ..*old(shared)
            }),
            final(self).wf(*final(shared)),
    {
        let next = self.task.upcoming();
        self.start_at(shared, next)
    }

    /// A command to run the task was picked up: start a run now.
    pub fn on_command(&mut self, shared: &mut TaskShared) -> (action: Action<H::Board>)
        requires
            old(self).wf(*old(shared)),
            old(self).phase is Parked,
        ensures
            exists|now: Timestamp, next: Option<Timestamp>|
                {
                    &&& clock_reads(now)
                    &&& call_ensures(
                        T::next_after,
                        (&old(self).task.timezone, &old(self).task.schedule, now),
                        next,
                    )
                    &&& #[trigger] TaskDriver::starts_run(
                        old(self).task,
                        picked_up(*old(shared)),
                        now,
                        next,
                        *final(self),
                        *final(shared),
                        action,
                    )
                },
            final(self).wf(*final(shared)),
            old(self).task.status.terminal() ==> final(self).task.status.terminal(),
            action.fires_finish() <==> !old(self).task.status.terminal()
                && final(self).task.status.terminal(),
    {
        let now = present();
        let next = self.task.timezone.next_after(&self.task.schedule, now);
        self.on_command_at(shared, now, next)
    }

    /// The callbacks that were to be fired have been: reschedule the task after a run, or retire
    /// it after its last callback.
    pub fn on_fired(&mut self, shared: &mut TaskShared) -> (action: Action<H::Board>)
        requires
            old(self).wf(*old(shared)),
            old(self).phase is RunHooks || old(self).phase is FinishHooks,
        ensures
            match old(self).phase {
                Phase::RunHooks { run_id } => exists|now: Timestamp, next: Option<Timestamp>|
                    {
                        &&& clock_reads(now)
                        &&& old(self).task.continues() ==> upcoming(
                            old(self).task.timezone,
                            old(self).task.schedule,
                            next,
                        )
                        &&& #[trigger] TaskDriver::rescheduled(
                            old(self).task,
                            *old(shared),
                            run_id,
                            now,
                            next,
                            *final(self),
                            *final(shared),
                            action,
                        )
                    },
                Phase::FinishHooks { run_id, outcome } => {
                    &&& exists|now: Timestamp|
                        clock_reads(now) && #[trigger] shared_completed(
                            *old(shared),
                            run_id,
                            now,
                            outcome,
                            old(self).task,
                            *final(shared),
                        )
                    &&& final(self).task == old(self).task
                    &&& final(self).phase is Stopped
                    &&& action is Stop
                },
                _ => false,
            },
            final(self).wf(*final(shared)),
            old(self).task.status.terminal() ==> final(self).task.status.terminal(),
            action.fires_finish() <==> !old(self).task.status.terminal()
                && final(self).task.status.terminal(),
    {
        match &self.phase {
            Phase::RunHooks { .. } => {
                let next = if self.task.has_repeats_left() {
                    self.task.upcoming()
                } else {
                    None
                };
                let now = present();
                self.on_run_fired_at(shared, now, next)
            },
            _ => {
                let now = present();
                self.on_finish_fired_at(shared, now)
            },
        }
    }
}

/// How many of the first `n` actions fire the callback for a terminal state.
pub open spec fn finishes<B>(actions: Seq<Action<B>>, n: nat) -> nat
    decreases n,
{
    if n == 0 {
        0
    } else {
        finishes(actions, (n - 1) as nat) + if actions[n - 1].fires_finish() {
            1nat
        } else {
            0
        }
    }
}

/// Whether step `i` of a task's life leads into a terminal state just where its action fires the
/// callback for it, and never out of one, as every handler does.
pub open spec fn fires_on_entry<B>(
    statuses: Seq<Status>,
    actions: Seq<Action<B>>,
    i: int,
) -> bool {
    &&& statuses[i].terminal() ==> statuses[i + 1].terminal()
    &&& actions[i].fires_finish() <==> !statuses[i].terminal() && statuses[i + 1].terminal()
}

/// The callback for a terminal state fires exactly once over a task's life, when it reaches
/// such a state, and not at all before.
///
/// `statuses` are the task's statuses from its first command on, and `actions[i]` is the action
/// of the handler that led from one to the next. A task that has no first execution time is
/// terminal from the start and fires nothing.
pub proof fn law_finish_fires_once<B>(statuses: Seq<Status>, actions: Seq<Action<B>>)
    requires
        statuses.len() == actions.len() + 1,
        !statuses[0].terminal(),
        forall|i: int| 0 <= i < actions.len() ==> #[trigger] fires_on_entry(statuses, actions, i),
    ensures
        finishes(actions, actions.len()) == if statuses.last().terminal() {
            1nat
        } else {
            0
        },
    decreases actions.len(),
{
    if actions.len() > 0 {
        let front = actions.drop_last();
        let earlier = statuses.drop_last();
        assert forall|i: int| 0 <= i < front.len() implies #[trigger] fires_on_entry(
            earlier,
            front,
            i,
        ) by {
            assert(fires_on_entry(statuses, actions, i));
        }
        law_finish_fires_once(earlier, front);
        lemma_finishes_prefix(actions, front, front.len());
        assert(fires_on_entry(statuses, actions, actions.len() - 1));
    }
}

proof fn lemma_finishes_prefix<B>(a: Seq<Action<B>>, b: Seq<Action<B>>, n: nat)
    requires
        n <= a.len(),
        n <= b.len(),
        forall|i: int| 0 <= i < n ==> a[i] == b[i],
    ensures
        finishes(a, n) == finishes(b, n),
    decreases n,
{
    if n > 0 {
        lemma_finishes_prefix(a, b, (n - 1) as nat);
    }
}

/// What the handlers book of a task's runs: starting one books its start, completing one books its
/// end and the start of the one that follows at once, if any, and an answer to an attempt books
/// nothing.
pub proof fn law_handlers_book_runs<T, H: Host>(
    task: Task<T, H>,
    run: Run<H::Board>,
    reply: StepReply,
    shared: TaskShared,
    run_id: usize,
    outcome: RunOutcome,
    now: Timestamp,
    next: Option<Timestamp>,
    after: TaskDriver<T, H>,
    shared_after: TaskShared,
    action: Action<H::Board>,
)
    ensures
        TaskDriver::starts_run(task, shared, now, next, after, shared_after, action)
            ==> shared_after.book() == shared.book().with(RunEvent::Started(now)),
        TaskDriver::replied(task, run, reply, shared, after, shared_after, action)
            ==> shared_after.book() == shared.book(),
        shared_completed(shared, run_id, now, outcome, task, shared_after) ==> shared_after.book()
            == shared.book().with(
            RunEvent::Finished {
                run_id,
                finished_at: now,
                outcome,
                attempts: task.last_attempts,
            },
        ),
        TaskDriver::completes_run(
            task,
            shared,
            run_id,
            outcome,
            now,
            after,
            shared_after,
            action,
        ) ==> {
            let over = shared.book().with(
                RunEvent::Finished {
                    run_id,
                    finished_at: now,
                    outcome,
                    attempts: task.last_attempts,
                },
            );
            shared_after.book() == if !task.status.terminal() && shared.pending {
                over.with(RunEvent::Started(now))
            } else {
                over
            }
        },
{
}

/// What is asked of a task books nothing of its runs, and neither does picking up a command.
pub proof fn law_requests_book_nothing(handle: TaskHandle, now: Timestamp, paused: bool)
    ensures
        handle.with_run().shared.book() == handle.shared.book(),
        handle.dispatched(now).shared.book() == handle.shared.book(),
        handle.with_paused(paused).shared.book() == handle.shared.book(),
        handle.with_removal().shared.book() == handle.shared.book(),
        picked_up(handle.shared).book() == handle.shared.book(),
{
}

/// A run that was asked for while another was in progress starts as soon as that one is
/// complete, once: the request is used up, one more run is counted, and the task is running.
pub proof fn law_missed_run_follows<T, H: Host>(
    task: Task<T, H>,
    shared: TaskShared,
    run_id: usize,
    outcome: RunOutcome,
    now: Timestamp,
    after: TaskDriver<T, H>,
    shared_after: TaskShared,
    action: Action<H::Board>,
)
    requires
        TaskDriver::completes_run(
            task,
            shared,
            run_id,
            outcome,
            now,
            after,
            shared_after,
            action,
        ),
        shared.pending,
        task.status is Scheduled,
    ensures
        !shared_after.pending,
        shared_after.running,
        shared_after.runs == successor(shared.runs),
{
}

/// A run in progress is followed by another only for an occurrence that comes meanwhile: from the
/// start of a run on, the occurrence that follows is published, and a later round leaves the task
/// alone until that one has come. So no occurrence is run twice.
pub proof fn law_round_waits_for_following_occurrence<T, H: Host>(
    task: Task<T, H>,
    shared: TaskShared,
    now: Timestamp,
    next: Option<Timestamp>,
    after: TaskDriver<T, H>,
    action: Action<H::Board>,
    handle: TaskHandle,
    later: Timestamp,
)
    requires
        TaskDriver::starts_run(task, shared, now, next, after, handle.shared, action),
    ensures
        handle.shared.state.next_exec == next,
        handle.due(later) <==> (next matches Some(at) && at.at_or_before(later)),
        !handle.due(later) ==> handle.dispatched(later) == handle,
        handle.due(later) && handle.overlap is Skip ==> handle.dispatched(later) == handle,
        handle.due(later) && handle.overlap is Queue && !handle.shared.paused
            ==> handle.dispatched(later).shared.pending,
{
}

/// In UTC, a run that has just started is not due again at that instant: the occurrence it is for
/// is not taken for one that it misses.
pub proof fn law_started_run_is_not_due<H: Host>(
    task: Task<chrono::Utc, H>,
    shared: TaskShared,
    now: Timestamp,
    next: Option<Timestamp>,
    after: TaskDriver<chrono::Utc, H>,
    action: Action<H::Board>,
    handle: TaskHandle,
)
    requires
        call_ensures(
            <chrono::Utc as Zone>::next_after,
            (&task.timezone, &task.schedule, now),
            next,
        ),
        TaskDriver::starts_run(task, shared, now, next, after, handle.shared, action),
    ensures
        !handle.due(now),
        handle.dispatched(now) == handle,
{
    law_round_waits_for_following_occurrence(
        task,
        shared,
        now,
        next,
        after,
        action,
        handle,
        now,
    );
}

/// An answer to an attempt leaves the published status and occurrence as they are: they hold from
/// the start of a run to its completion.
pub proof fn law_attempts_keep_published_occurrence<T, H: Host>(
    task: Task<T, H>,
    run: Run<H::Board>,
    reply: StepReply,
    shared: TaskShared,
    after: TaskDriver<T, H>,
    shared_after: TaskShared,
    action: Action<H::Board>,
)
    requires
        TaskDriver::replied(task, run, reply, shared, after, shared_after, action),
    ensures
        shared_after.state == shared.state,
{
}

/// A run that nobody asked for does not start by itself: where none is pending, completing a
/// run starts no other.
pub proof fn law_no_run_without_request<T, H: Host>(
    task: Task<T, H>,
    shared: TaskShared,
    run_id: usize,
    outcome: RunOutcome,
    now: Timestamp,
    after: TaskDriver<T, H>,
    shared_after: TaskShared,
    action: Action<H::Board>,
)
    requires
        TaskDriver::completes_run(
            task,
            shared,
            run_id,
            outcome,
            now,
            after,
            shared_after,
            action,
        ),
        !shared.pending,
    ensures
        !shared_after.running,
        shared_after.runs == shared.runs,
        action is Wait || action is Stop,
{
}

/// What the scheduler and its callers ask of a task never gets between the task and what it
/// publishes: asking for a run, pausing, resuming and requesting removal keep what holds of
/// them.
pub proof fn law_control_keeps_driver<T, H: Host>(
    driver: TaskDriver<T, H>,
    handle: TaskHandle,
    now: Timestamp,
    paused: bool,
)
    requires
        driver.wf(handle.shared),
    ensures
        driver.wf(handle.with_run().shared),
        driver.wf(handle.dispatched(now).shared),
        driver.wf(handle.with_paused(paused).shared),
        driver.wf(handle.with_removal().shared),
{
}

/// A task that has stopped is reaped by the next round, and one that is to be removed is too;
/// a task that is still driven and that nobody asked to remove is not.
pub proof fn law_stopped_or_removed_is_reaped<T, H: Host>(
    driver: TaskDriver<T, H>,
    handle: TaskHandle,
)
    requires
        driver.wf(handle.shared),
    ensures
        driver.phase is Stopped ==> handle.done(),
        handle.with_removal().done(),
        !(driver.phase is Stopped) && !handle.shared.remove_requested ==> !handle.done(),
{
}

/// A run under way is flagged as running from its start to its completion, and a task that waits
/// or has stopped is not.
pub proof fn law_running_flag<T, H: Host>(driver: TaskDriver<T, H>, shared: TaskShared)
    requires
        driver.wf(shared),
    ensures
        shared.running <==> driver.phase is Attempt || driver.phase is Backoff
            || driver.phase is RunHooks || driver.phase is FinishHooks,
{
}

/// Observers see a task's steps as they are: from its start on, the published snapshot is the
/// task's own after every transition, also in the middle of a run.
pub proof fn law_steps_are_published_live<T, H: Host>(driver: TaskDriver<T, H>, shared: TaskShared)
    requires
        driver.wf(shared),
        !(driver.phase is Fresh),
    ensures
        shared.steps@ == driver.task.step_states@,
{
}

proof fn lemma_begun_model<T, H: Host>(
    task: Task<T, H>,
    run: Run<H::Board>,
    after: Task<T, H>,
    run_after: Run<H::Board>,
    context: TaskContext<H::Board>,
)
    requires
        task.attempt_begun(run, after, run_after, context),
        run.attempt < u32::MAX,
        task.last_attempts < usize::MAX,
    ensures
        after.model(run_after) == task.model(run).attempting(),
{
}

proof fn lemma_settled_model<T, H: Host>(
    task: Task<T, H>,
    run: Run<H::Board>,
    reply: StepReply,
    after: Task<T, H>,
    run_after: Run<H::Board>,
)
    requires
        task.run_wf(run),
        !task.model(run).over(),
        task.attempt_settled(
            run,
            verdict(reply, run.attempt as nat, task.retries()),
            after,
            run_after,
        ),
    ensures
        after.model(run_after) == task.model(run).settled(reply, task.retries()),
{
    assert(task.step_states@.len() == task.step_states.len());
    assert(after.model(run_after) =~= task.model(run).settled(reply, task.retries()));
}

/// A driven run follows the run as a value. A reply settles the attempt under way; then either
/// the next attempt is under way, at once or after a delay, or the run is over and closes with
/// the statuses it has come to, the unreached steps skipped.
pub proof fn law_driven_run_follows_model<T, H: Host>(
    task: Task<T, H>,
    run: Run<H::Board>,
    reply: StepReply,
    shared: TaskShared,
    after: TaskDriver<T, H>,
    shared_after: TaskShared,
    action: Action<H::Board>,
)
    requires
        task.run_wf(run),
        !task.model(run).over(),
        task.model(run).settled(reply, task.retries()).countable(),
        TaskDriver::replied(task, run, reply, shared, after, shared_after, action),
    ensures
        ({
            let settled = task.model(run).settled(reply, task.retries());
            match after.phase {
                Phase::Attempt(run_after) => !settled.over() && after.task.model(run_after)
                    == settled.attempting(),
                Phase::Backoff(run_after) => !settled.over() && after.task.model(run_after)
                    == settled,
                Phase::RunHooks { run_id } => {
                    &&& settled.over()
                    &&& run_id == run.run_id
                    &&& after.task.status == settled.status
                    &&& after.task.step_states@.len() == settled.statuses.len()
                    &&& forall|i: int|
                        0 <= i < settled.statuses.len() ==> (
                        #[trigger] after.task.step_states@[i]).status == if settled.statuses[i] is Pending {
                            StepStatus::Skipped
                        } else {
                            settled.statuses[i]
                        }
                },
                _ => false,
            }
        }),
{
    let settled = task.model(run).settled(reply, task.retries());
    let outcome = verdict(reply, run.attempt as nat, task.retries());
    if outcome is Retry {
        if let Phase::Attempt(run_after) = after.phase {
            if let Action::Invoke { context, timeout } = action {
                lemma_begun_model(task, run, after.task, run_after, context);
            }
        }
    } else {
        let (mid, run_mid, shared_mid) = choose|
            mid: Task<T, H>,
            run_mid: Run<H::Board>,
            shared_mid: TaskShared,
        |
            {
                &&& #[trigger] task.attempt_settled(run, outcome, mid, run_mid)
                &&& #[trigger] shared_streamed(shared, mid, shared_mid)
                &&& TaskDriver::goes_on(mid, run_mid, shared_mid, after, shared_after, action)
            };
        lemma_settled_model(task, run, reply, mid, run_mid);
        if !settled.over() {
            if let Phase::Attempt(run_after) = after.phase {
                if let Action::Invoke { context, timeout } = action {
                    lemma_begun_model(mid, run_mid, after.task, run_after, context);
                }
            }
        } else {
            assert(mid.steps@.len() > 0);
            assert forall|i: int| 0 <= i < settled.statuses.len() implies (
            #[trigger] after.task.step_states@[i]).status == (if settled.statuses[i] is Pending {
                StepStatus::Skipped
            } else {
                settled.statuses[i]
            }) by {
                assert(settled.statuses[i] == mid.step_states@[i].status);
            }
        }
    }
}

/// A run that has started follows the run as a value: its first attempt is under way, or it has
/// no steps and is over.
pub proof fn law_started_run_follows_model<T, H: Host>(
    task: Task<T, H>,
    shared: TaskShared,
    now: Timestamp,
    next: Option<Timestamp>,
    after: TaskDriver<T, H>,
    shared_after: TaskShared,
    action: Action<H::Board>,
)
    requires
        task.status is Scheduled,
        TaskDriver::starts_run(task, shared, now, next, after, shared_after, action),
    ensures
        match after.phase {
            Phase::Attempt(run) => task.steps@.len() > 0 && after.task.model(run)
                == RunModel::start(task.steps@.len()).attempting() && run.run_id == shared.run_seq,
            Phase::RunHooks { run_id } => task.steps@.len() == 0 && after.task.status is Executed
                && run_id == shared.run_seq,
            _ => false,
        },
{
    let (mid, run, shared_mid) = choose|
        mid: Task<T, H>,
        run: Run<H::Board>,
        shared_mid: TaskShared,
    |
        {
            &&& #[trigger] task.run_begun(shared.run_seq, mid, run)
            &&& #[trigger] shared_begun(shared, now, next, mid, shared_mid)
            &&& TaskDriver::goes_on(mid, run, shared_mid, after, shared_after, action)
        };
    let n = task.steps@.len();
    assert(statuses(mid.step_states@) =~= RunModel::start(n).statuses);
    assert(mid.model(run) =~= RunModel::start(n));
    if n > 0 {
        if let Phase::Attempt(run_after) = after.phase {
            if let Action::Invoke { context, timeout } = action {
                lemma_begun_model(mid, run, after.task, run_after, context);
            }
        }
    }
}

} // verus!
