//! Driving a task: what each handler publishes, and what it asks the runtime to do.

use vstd::prelude::*;

use crate::driver::{Action, Hook, Phase, TaskDriver};
use crate::laws::history::{counts_up, lemma_record_closed, record_closed, record_opened};
use crate::laws::making::comes_next;
use crate::laws::running::{
    has_room, is_at_attempt, leads_to_close, leads_to_retry, lemma_may_wait, spread_from,
    step_came_to,
};
use crate::retry::Jitter;
use crate::run::Run;
use crate::schedule::Zone;
use crate::shared::{SharedState, TaskShared};
use crate::task::{
    upcoming, Host, RunOutcome, Status, StepReply, StepStatus, Task, TaskStepStatusErr,
    TaskStepStatusOk,
};
use crate::time::{clock_reads, Duration, Timestamp};

verus! {

/// Whether an action invokes a step: the context names the task, the run, the step and the
/// attempt, leads to the task's board and the given store, and the step is held to the task's
/// timeout.
pub open spec fn invokes_step<T, H: Host>(
    action: Action<H::Board>,
    task: Task<T, H>,
    store: H::Board,
    run_id: usize,
    step: int,
    attempt: int,
) -> bool {
    match action {
        Action::Invoke { context, timeout } => {
            &&& timeout == task.timeout
            &&& context.task_id == task.task_id
            &&& context.task_name == task.name
            &&& context.run_id == run_id
            &&& context.step_index == step
            &&& context.attempt == attempt
            &&& cloned(task.blackboard, context.blackboard)
            &&& cloned(store, context.run_store)
        },
        _ => false,
    }
}

/// Whether an action fires these callbacks, in this order.
pub open spec fn fires<B>(action: Action<B>, wanted: Seq<Hook>) -> bool {
    match action {
        Action::Fire(hooks) => hooks@ == wanted,
        _ => false,
    }
}

/// What a run came to, by the status and the per-step snapshot it left.
pub open spec fn outcome_of<T, H: Host>(task: Task<T, H>) -> RunOutcome {
    if task.status == Status::ForceRemoved {
        RunOutcome::ForceRemoved
    } else if task.status == Status::Failed {
        RunOutcome::Failed
    } else if exists|k: int|
        0 <= k < task.step_states@.len() && (#[trigger] task.step_states@[k]).status
            == StepStatus::HadErrors {
        RunOutcome::HadErrors
    } else {
        RunOutcome::Success
    }
}

/// Whether a task was started, given its first execution time. It is scheduled at that and waits
/// for a command; without one it is finished and stops at once. Every step is pending. The
/// status, the time and the steps are published, and no flag but that of a finished task is
/// touched.
pub open spec fn task_started<T, H: Host>(
    before: TaskDriver<T, H>,
    shared: TaskShared,
    next: Option<Timestamp>,
    after: TaskDriver<T, H>,
    shared_after: TaskShared,
    action: Action<H::Board>,
) -> bool {
    let task = after.task;
    let states = task.step_states@;
    &&& task.status == if next is Some {
        Status::Scheduled
    } else {
        Status::Finished
    }
    &&& next is Some ==> task.next_exec == next && action is Wait && after.phase is Parked
    &&& next is None ==> task.next_exec == before.task.next_exec && action is Stop
        && after.phase is Stopped
    &&& states.len() == before.task.steps@.len()
    &&& forall|k: int|
        0 <= k < states.len() ==> (#[trigger] states[k]).index == k && states[k].description
            == before.task.steps@[k].description && states[k].status == StepStatus::Pending
    &&& task == Task {
        step_states: task.step_states,
        status: task.status,
        next_exec: task.next_exec,
        ..before.task
    }
    &&& shared_after.steps@ == states
    &&& shared_after == TaskShared {
        state: SharedState { status: task.status, next_exec: task.next_exec },
        steps: shared_after.steps,
        finished: next is None,
        ..shared
    }
}

/// A task is started at its first execution time.
pub proof fn law_started_task_waits_or_stops<T, H: Host>(
    driver: &mut TaskDriver<T, H>,
    shared: &mut TaskShared,
    next: Option<Timestamp>,
    action: Action<H::Board>,
)
    requires
        call_ensures(TaskDriver::<T, H>::start_at, (driver, shared, next), action),
    ensures
        task_started(*old(driver), *old(shared), next, *final(driver), *final(shared), action),
{
    assert(old(driver).task.steps@.len() == old(driver).task.steps.len());
}

/// By the clock, a task is started at the next occurrence of its own schedule in its own zone.
pub proof fn law_task_starts_by_the_clock<T: Zone, H: Host>(
    driver: &mut TaskDriver<T, H>,
    shared: &mut TaskShared,
    action: Action<H::Board>,
)
    requires
        call_ensures(TaskDriver::<T, H>::start, (driver, shared), action),
    ensures
        exists|next: Option<Timestamp>|
            comes_next(old(driver).task.timezone, old(driver).task.schedule, next)
                && #[trigger] task_started(
                *old(driver),
                *old(shared),
                next,
                *final(driver),
                *final(shared),
                action,
            ),
{
    assert(old(driver).task.steps@.len() == old(driver).task.steps.len());
    let next = choose|next: Option<Timestamp>|
        {
            &&& #[trigger] upcoming(old(driver).task.timezone, old(driver).task.schedule, next)
            &&& old(driver).task.inited(next, final(driver).task)
            &&& next is Some ==> final(driver).phase is Parked && action is Wait
            &&& next is None ==> final(driver).phase is Stopped && action is Stop
        };
    assert(task_started(
        *old(driver),
        *old(shared),
        next,
        *final(driver),
        *final(shared),
        action,
    ));
}

/// Whether a run started on a task: it has the next run id and is counted and recorded, the task
/// is flagged as running, and the occurrence that follows is published. The first step is invoked
/// for the first time; a task without steps has executed at once.
pub open spec fn run_started<T, H: Host>(
    task: Task<T, H>,
    shared: TaskShared,
    now: Timestamp,
    next: Option<Timestamp>,
    after: TaskDriver<T, H>,
    shared_after: TaskShared,
    action: Action<H::Board>,
) -> bool {
    let done = after.task;
    &&& shared_after.running
    &&& shared_after.state == SharedState { status: shared.state.status, next_exec: next }
    &&& shared_after.steps@ == done.step_states@
    &&& counts_up(shared.run_seq, shared_after.run_seq)
    &&& counts_up(shared.runs, shared_after.runs)
    &&& record_opened(
        shared.history@,
        shared.history_limit,
        shared.run_seq,
        now,
        shared_after.history@,
    )
    &&& shared_after == TaskShared {
        running: true,
        runs: shared_after.runs,
        run_seq: shared_after.run_seq,
        history: shared_after.history,
        state: shared_after.state,
        steps: shared_after.steps,
        ..shared
    }
    &&& done.step_states@.len() == task.steps@.len()
    &&& forall|k: int|
        0 <= k < task.steps@.len() ==> (#[trigger] done.step_states@[k]).index == k
            && done.step_states@[k].description == task.steps@[k].description
            && done.step_states@[k].status == StepStatus::Pending
    &&& done == Task {
        step_states: done.step_states,
        last_attempts: done.last_attempts,
        status: done.status,
        repeats: done.repeats,
        ..task
    }
    &&& task.steps@.len() > 0 ==> {
        &&& after.phase matches Phase::Attempt(run) && {
            &&& run.run_id == shared.run_seq
            &&& run.index == 0
            &&& run.attempt == 1
            &&& !run.halted
            &&& call_ensures(<H::Board as Default>::default, (), run.store)
            &&& invokes_step(action, task, run.store, shared.run_seq, 0, 1)
        }
        &&& done.last_attempts == 1
        &&& done.status == task.status
        &&& done.repeats == task.repeats
    }
    &&& task.steps@.len() == 0 ==> {
        &&& after.phase == Phase::<H::Board>::RunHooks { run_id: shared.run_seq }
        &&& done.status == Status::Executed
        &&& done.last_attempts == 0
        &&& one_repeat_less(task.repeats, done.repeats)
        &&& fires(action, seq![Hook::OnSuccess])
    }
}

/// Whether one repeat was used up, where a number of them is set and any were left.
pub open spec fn one_repeat_less(before: Option<usize>, after: Option<usize>) -> bool {
    match (before, after) {
        (None, None) => true,
        (Some(left), Some(still)) => still == if left > 0 {
            left - 1
        } else {
            0
        },
        _ => false,
    }
}

proof fn lemma_run_started<T, H: Host>(
    task: Task<T, H>,
    shared: TaskShared,
    now: Timestamp,
    next: Option<Timestamp>,
    after: TaskDriver<T, H>,
    shared_after: TaskShared,
    action: Action<H::Board>,
)
    requires
        TaskDriver::starts_run(task, shared, now, next, after, shared_after, action),
    ensures
        run_started(task, shared, now, next, after, shared_after, action),
{
    assert(task.steps@.len() == task.steps.len());
    let (mid, run, shared_mid) = choose|
        mid: Task<T, H>,
        run: Run<H::Board>,
        shared_mid: TaskShared,
    |
        {
            &&& #[trigger] task.run_begun(shared.run_seq, mid, run)
            &&& #[trigger] crate::driver::shared_begun(shared, now, next, mid, shared_mid)
            &&& TaskDriver::goes_on(mid, run, shared_mid, after, shared_after, action)
        };
    assert(mid.step_states@.len() == task.steps@.len());
    if task.steps@.len() == 0 {
        assert(after.task.step_states@ =~= mid.step_states@);
    }
}

/// What a task publishes, with the command to run it used up.
pub open spec fn command_used(shared: TaskShared) -> TaskShared {
    TaskShared { queued: false, ..shared }
}

/// A command that is picked up starts one run at the given instant and is used up.
pub proof fn law_command_starts_one_run<T, H: Host>(
    driver: &mut TaskDriver<T, H>,
    shared: &mut TaskShared,
    now: Timestamp,
    next: Option<Timestamp>,
    action: Action<H::Board>,
)
    requires
        call_ensures(TaskDriver::<T, H>::on_command_at, (driver, shared, now, next), action),
    ensures
        !final(shared).queued,
        run_started(
            old(driver).task,
            command_used(*old(shared)),
            now,
            next,
            *final(driver),
            *final(shared),
            action,
        ),
{
    lemma_run_started(
        old(driver).task,
        command_used(*old(shared)),
        now,
        next,
        *final(driver),
        *final(shared),
        action,
    );
}

/// By the clock, a command starts one run at an instant that the clock read, and publishes the
/// occurrence of the task's own schedule after that instant.
pub proof fn law_command_starts_one_run_by_the_clock<T: Zone, H: Host>(
    driver: &mut TaskDriver<T, H>,
    shared: &mut TaskShared,
    action: Action<H::Board>,
)
    requires
        call_ensures(TaskDriver::<T, H>::on_command, (driver, shared), action),
    ensures
        !final(shared).queued,
        exists|now: Timestamp, next: Option<Timestamp>|
            {
                &&& clock_reads(now)
                &&& call_ensures(
                    T::next_after,
                    (&old(driver).task.timezone, &old(driver).task.schedule, now),
                    next,
                )
                &&& #[trigger] run_started(
                    old(driver).task,
                    command_used(*old(shared)),
                    now,
                    next,
                    *final(driver),
                    *final(shared),
                    action,
                )
            },
{
    let idle = command_used(*old(shared));
    let (now, next) = choose|now: Timestamp, next: Option<Timestamp>|
        {
            &&& clock_reads(now)
            &&& call_ensures(
                T::next_after,
                (&old(driver).task.timezone, &old(driver).task.schedule, now),
                next,
            )
            &&& #[trigger] TaskDriver::starts_run(
                old(driver).task,
                idle,
                now,
                next,
                *final(driver),
                *final(shared),
                action,
            )
        };
    lemma_run_started(
        old(driver).task,
        idle,
        now,
        next,
        *final(driver),
        *final(shared),
        action,
    );
}

/// A reply can be taken just where an attempt is under way and the counters have room for the
/// attempt it leads to.
pub proof fn law_reply_needs_an_attempt_and_room<T, H: Host>(
    driver: TaskDriver<T, H>,
    reply: StepReply,
    room: bool,
)
    requires
        call_ensures(TaskDriver::<T, H>::can_reply, (&driver, reply), room),
        driver.phase matches Phase::Attempt(run) ==> is_at_attempt(driver.task, run),
    ensures
        driver.phase matches Phase::Attempt(run) ==> (room <==> has_room(driver.task, run, reply)),
        !(driver.phase is Attempt) ==> !room,
{
}

/// Whether a reply to the attempt under way was taken in.
///
/// A step that fails while retries are left is attempted again, after the policy's delay for that
/// retry or at once where it is empty, at the same step with the next attempt number, and nothing
/// is published. Any other reply settles the step, and the steps are published. After a complete
/// step the next one is invoked for the first time. Where there is none, or the step failed for
/// good, the run closes: the steps that were never reached are skipped, one repeat is used up,
/// and the callbacks for what the run came to are fired.
pub open spec fn reply_taken<T, H: Host>(
    before: TaskDriver<T, H>,
    run: Run<H::Board>,
    reply: StepReply,
    shared: TaskShared,
    after: TaskDriver<T, H>,
    shared_after: TaskShared,
    action: Action<H::Board>,
) -> bool {
    let task = before.task;
    let done = after.task;
    let status = match reply {
        Ok(TaskStepStatusOk::Success) => StepStatus::Succeeded,
        Ok(TaskStepStatusOk::HadErrors) => StepStatus::HadErrors,
        Err(_) => StepStatus::Failed,
    };
    let closes = leads_to_close(task, run, reply);
    let computed = match task.retry_policy {
        Some(policy) => policy.backoff.nanos((run.attempt - 1) as nat),
        None => 0,
    };
    let jitter = match task.retry_policy {
        Some(policy) => policy.jitter,
        None => Jitter::Off,
    };
    if leads_to_retry(task, run, reply) {
        &&& shared_after == shared
        &&& ({
            ||| {
                &&& spread_from(jitter, computed, 0)
                &&& after.phase == Phase::Attempt(Run { attempt: (run.attempt + 1) as u32, ..run })
                &&& done == Task { last_attempts: (task.last_attempts + 1) as usize, ..task }
                &&& invokes_step(
                    action,
                    task,
                    run.store,
                    run.run_id,
                    run.index as int,
                    run.attempt + 1,
                )
            }
            ||| {
                &&& after.phase == Phase::Backoff(run)
                &&& done == task
                &&& action matches Action::Sleep(delay) && delay@ > 0 && spread_from(
                    jitter,
                    computed,
                    delay@,
                )
            }
        })
    } else {
        &&& shared_after.steps@ == done.step_states@
        &&& shared_after == TaskShared { steps: shared_after.steps, ..shared }
        &&& step_came_to(
            task.step_states@,
            run.index as int,
            status,
            closes,
            done.step_states@,
        )
        &&& done.status == match reply {
            Ok(_) => Status::Executed,
            Err(TaskStepStatusErr::Error) => Status::Failed,
            Err(TaskStepStatusErr::ErrorDelete) => Status::ForceRemoved,
        }
        &&& done == Task {
            step_states: done.step_states,
            status: done.status,
            repeats: done.repeats,
            last_attempts: done.last_attempts,
            ..task
        }
        &&& !closes ==> {
            &&& done.repeats == task.repeats
            &&& done.last_attempts == task.last_attempts + 1
            &&& after.phase == Phase::Attempt(
                Run { index: (run.index + 1) as usize, attempt: 1, ..run },
            )
            &&& invokes_step(action, task, run.store, run.run_id, run.index + 1, 1)
        }
        &&& closes ==> {
            &&& one_repeat_less(task.repeats, done.repeats)
            &&& done.last_attempts == task.last_attempts
            &&& after.phase == Phase::<H::Board>::RunHooks { run_id: run.run_id }
            &&& fires(
                action,
                match reply {
                    Ok(_) => seq![Hook::OnSuccess],
                    Err(TaskStepStatusErr::Error) => seq![Hook::OnFailure],
                    Err(TaskStepStatusErr::ErrorDelete) => seq![Hook::OnFailure, Hook::OnFinish],
                },
            )
        }
    }
}

proof fn lemma_reply_taken<T, H: Host>(
    before: TaskDriver<T, H>,
    run: Run<H::Board>,
    reply: StepReply,
    shared: TaskShared,
    after: TaskDriver<T, H>,
    shared_after: TaskShared,
    action: Action<H::Board>,
)
    requires
        before.phase == Phase::Attempt(run),
        is_at_attempt(before.task, run),
        has_room(before.task, run, reply),
        TaskDriver::replied(before.task, run, reply, shared, after, shared_after, action),
    ensures
        reply_taken(before, run, reply, shared, after, shared_after, action),
{
    let task = before.task;
    assert(task.steps@.len() == task.steps.len());
    assert(task.model(run).statuses.len() == task.step_states@.len());
    let i = run.index as int;
    assert(task.model(run).statuses[i] == task.step_states@[i].status);
    let outcome = crate::run::verdict(reply, run.attempt as nat, task.retries());
    if outcome is Retry {
        let delay = choose|delay: Duration|
            {
                &&& #[trigger] task.may_wait(run.attempt, delay)
                &&& if delay@ == 0 {
                    TaskDriver::invokes(task, run, after, action)
                } else {
                    &&& action == Action::<H::Board>::Sleep(delay)
                    &&& after.task == task
                    &&& after.phase == Phase::Backoff(run)
                }
            };
        lemma_may_wait(task, run.attempt, delay);
    } else {
        let (mid, run_mid, shared_mid) = choose|
            mid: Task<T, H>,
            run_mid: Run<H::Board>,
            shared_mid: TaskShared,
        |
            {
                &&& #[trigger] task.attempt_settled(run, outcome, mid, run_mid)
                &&& #[trigger] crate::driver::shared_streamed(shared, mid, shared_mid)
                &&& TaskDriver::goes_on(mid, run_mid, shared_mid, after, shared_after, action)
            };
        assert(mid.step_states@.len() == task.step_states@.len());
        assert(mid.model(run_mid).over() <==> reply is Err || run.index + 1 >= task.steps@.len());
        let closes = reply is Err || run.index + 1 >= task.steps@.len();
        let status = match reply {
            Ok(TaskStepStatusOk::Success) => StepStatus::Succeeded,
            Ok(TaskStepStatusOk::HadErrors) => StepStatus::HadErrors,
            Err(_) => StepStatus::Failed,
        };
        assert forall|k: int| 0 <= k < task.step_states@.len() implies {
            &&& (#[trigger] after.task.step_states@[k]).index == task.step_states@[k].index
            &&& after.task.step_states@[k].description == task.step_states@[k].description
            &&& after.task.step_states@[k].status == if k == run.index {
                status
            } else if closes && task.step_states@[k].status == StepStatus::Pending {
                StepStatus::Skipped
            } else {
                task.step_states@[k].status
            }
        } by {
            assert(mid.step_states@[k].status == if k == run.index {
                status
            } else {
                task.step_states@[k].status
            });
        }
    }
}

/// A reply is taken in as the step's own rules say.
pub proof fn law_reply_moves_the_run_on<T, H: Host>(
    driver: &mut TaskDriver<T, H>,
    shared: &mut TaskShared,
    reply: StepReply,
    run: Run<H::Board>,
    action: Action<H::Board>,
)
    requires
        old(driver).phase == Phase::Attempt(run),
        is_at_attempt(old(driver).task, run),
        has_room(old(driver).task, run, reply),
        call_ensures(TaskDriver::<T, H>::on_reply, (driver, shared, reply), action),
    ensures
        reply_taken(
            *old(driver),
            run,
            reply,
            *old(shared),
            *final(driver),
            *final(shared),
            action,
        ),
{
    lemma_reply_taken(
        *old(driver),
        run,
        reply,
        *old(shared),
        *final(driver),
        *final(shared),
        action,
    );
}

/// An attempt that runs out of time is taken for one that came to an error.
pub proof fn law_timeout_counts_as_error<T, H: Host>(
    driver: &mut TaskDriver<T, H>,
    shared: &mut TaskShared,
    run: Run<H::Board>,
    action: Action<H::Board>,
)
    requires
        old(driver).phase == Phase::Attempt(run),
        is_at_attempt(old(driver).task, run),
        has_room(old(driver).task, run, Err(TaskStepStatusErr::Error)),
        call_ensures(TaskDriver::<T, H>::on_timeout, (driver, shared), action),
    ensures
        reply_taken(
            *old(driver),
            run,
            Err(TaskStepStatusErr::Error),
            *old(shared),
            *final(driver),
            *final(shared),
            action,
        ),
{
    lemma_reply_taken(
        *old(driver),
        run,
        Err(TaskStepStatusErr::Error),
        *old(shared),
        *final(driver),
        *final(shared),
        action,
    );
}

/// After its delay a step is attempted again: the same step, with the next attempt number, and
/// held to the task's timeout like any other attempt. Nothing is published.
pub proof fn law_delayed_retry_is_the_next_attempt<T, H: Host>(
    driver: &mut TaskDriver<T, H>,
    shared: &mut TaskShared,
    run: Run<H::Board>,
    action: Action<H::Board>,
)
    requires
        old(driver).phase == Phase::Backoff(run),
        run.attempt < u32::MAX,
        old(driver).task.last_attempts < usize::MAX,
        call_ensures(TaskDriver::<T, H>::on_slept, (driver, shared), action),
    ensures
        *final(shared) == *old(shared),
        final(driver).phase == Phase::Attempt(Run { attempt: (run.attempt + 1) as u32, ..run }),
        final(driver).task == (Task {
            last_attempts: (old(driver).task.last_attempts + 1) as usize,
            ..old(driver).task
        }),
        invokes_step(
            action,
            old(driver).task,
            run.store,
            run.run_id,
            run.index as int,
            run.attempt + 1,
        ),
{
}

/// Whether a run was completed at `now`, with the status and the time its task has after it: the
/// run is no longer flagged, its record is closed with its outcome and its attempts, the outcome
/// is the last one, and the task's status, time and steps are published. Only a terminal task is
/// flagged as finished.
pub open spec fn run_completed<T, H: Host>(
    task: Task<T, H>,
    shared: TaskShared,
    run_id: usize,
    outcome: RunOutcome,
    now: Timestamp,
    shared_after: TaskShared,
) -> bool {
    let terminal = task.status == Status::Finished || task.status == Status::ForceRemoved;
    &&& !shared_after.running
    &&& shared_after.finished <==> shared.finished || terminal
    &&& shared_after.state == SharedState { status: task.status, next_exec: task.next_exec }
    &&& shared_after.steps@ == task.step_states@
    &&& shared_after.last_outcome == Some(outcome)
    &&& record_closed(
        shared.history@,
        run_id,
        now,
        outcome,
        task.last_attempts,
        shared_after.history@,
    )
    &&& shared_after == TaskShared {
        running: false,
        finished: shared_after.finished,
        state: shared_after.state,
        steps: shared_after.steps,
        history: shared_after.history,
        last_outcome: shared_after.last_outcome,
        ..shared
    }
}

/// Whether a run was followed up after its callbacks, and the task rescheduled. With no repeats
/// left, or no further occurrence, it is finished and fires its last callback. Removed by force,
/// it stops. Otherwise it is scheduled at the next occurrence and the run is complete: a run that
/// was asked for meanwhile starts at once, once, and without one the task waits. The outcome is
/// that of the run, as it stood before.
pub open spec fn followed_up<T, H: Host>(
    task: Task<T, H>,
    shared: TaskShared,
    run_id: usize,
    now: Timestamp,
    next: Option<Timestamp>,
    after: TaskDriver<T, H>,
    shared_after: TaskShared,
    action: Action<H::Board>,
) -> bool {
    let outcome = outcome_of(task);
    let waits = Task { status: Status::Scheduled, next_exec: next, ..task };
    if task.status == Status::ForceRemoved {
        &&& after.task == task
        &&& after.phase is Stopped
        &&& action is Stop
        &&& run_completed(task, shared, run_id, outcome, now, shared_after)
    } else if task.repeats == Some(0usize) || next is None {
        &&& after.task == Task { status: Status::Finished, ..task }
        &&& after.phase == Phase::<H::Board>::FinishHooks { run_id, outcome }
        &&& fires(action, seq![Hook::OnFinish])
        &&& shared_after == shared
    } else if !shared.pending {
        &&& after.task == waits
        &&& after.phase is Parked
        &&& action is Wait
        &&& run_completed(waits, shared, run_id, outcome, now, shared_after)
    } else {
        exists|between: TaskShared|
            {
                &&& #[trigger] run_completed(waits, shared, run_id, outcome, now, between)
                &&& run_started(
                    waits,
                    TaskShared { pending: false, ..between },
                    now,
                    next,
                    after,
                    shared_after,
                    action,
                )
            }
    }
}

/// Whether a task has just run: it is executed, failed or removed by force.
pub open spec fn has_run<T, H: Host>(task: Task<T, H>) -> bool {
    task.status == Status::Executed || task.status == Status::Failed || task.status
        == Status::ForceRemoved
}

proof fn lemma_followed_up<T, H: Host>(
    task: Task<T, H>,
    shared: TaskShared,
    run_id: usize,
    now: Timestamp,
    next: Option<Timestamp>,
    after: TaskDriver<T, H>,
    shared_after: TaskShared,
    action: Action<H::Board>,
)
    requires
        has_run(task),
        TaskDriver::rescheduled(
            task,
            shared,
            run_id,
            now,
            next,
            after,
            shared_after,
            action,
        ),
    ensures
        followed_up(task, shared, run_id, now, next, after, shared_after, action),
{
    let outcome = outcome_of(task);
    assert(task.outcome() == outcome);
    lemma_record_closed(shared.history@, run_id, now, outcome, task.last_attempts);
    let ends = task.repeats == Some(0usize) || next is None;
    if task.status != Status::ForceRemoved && !ends && shared.pending {
        let waits = task.rescheduled(next);
        let between = choose|between: TaskShared|
            {
                &&& #[trigger] crate::driver::shared_completed(
                    shared,
                    run_id,
                    now,
                    outcome,
                    waits,
                    between,
                )
                &&& TaskDriver::starts_run(
                    waits,
                    TaskShared { pending: false, ..between },
                    now,
                    waits.next_exec,
                    after,
                    shared_after,
                    action,
                )
            };
        assert(run_completed(waits, shared, run_id, outcome, now, between));
        lemma_run_started(
            waits,
            TaskShared { pending: false, ..between },
            now,
            waits.next_exec,
            after,
            shared_after,
            action,
        );
    }
}

/// After the callbacks of a run, the task is rescheduled and the run followed up.
pub proof fn law_run_is_followed_up<T, H: Host>(
    driver: &mut TaskDriver<T, H>,
    shared: &mut TaskShared,
    now: Timestamp,
    next: Option<Timestamp>,
    run_id: usize,
    action: Action<H::Board>,
)
    requires
        old(driver).phase == (Phase::<H::Board>::RunHooks { run_id }),
        has_run(old(driver).task),
        call_ensures(TaskDriver::<T, H>::on_run_fired_at, (driver, shared, now, next), action),
    ensures
        followed_up(
            old(driver).task,
            *old(shared),
            run_id,
            now,
            next,
            *final(driver),
            *final(shared),
            action,
        ),
{
    lemma_followed_up(
        old(driver).task,
        *old(shared),
        run_id,
        now,
        next,
        *final(driver),
        *final(shared),
        action,
    );
}

/// By the clock, a run is followed up at an instant that the clock read and, where repeats are
/// left, with an occurrence of the task's own schedule; after its last callback a finished task
/// stops.
pub proof fn law_run_is_followed_up_by_the_clock<T: Zone, H: Host>(
    driver: &mut TaskDriver<T, H>,
    shared: &mut TaskShared,
    action: Action<H::Board>,
)
    requires
        call_ensures(TaskDriver::<T, H>::on_fired, (driver, shared), action),
        old(driver).phase is RunHooks ==> has_run(old(driver).task),
    ensures
        old(driver).phase matches Phase::RunHooks { run_id } ==> exists|
            now: Timestamp,
            next: Option<Timestamp>,
        |
            {
                &&& clock_reads(now)
                &&& old(driver).task.status != Status::ForceRemoved && old(driver).task.repeats
                    != Some(0usize) ==> comes_next(
                    old(driver).task.timezone,
                    old(driver).task.schedule,
                    next,
                )
                &&& #[trigger] followed_up(
                    old(driver).task,
                    *old(shared),
                    run_id,
                    now,
                    next,
                    *final(driver),
                    *final(shared),
                    action,
                )
            },
        old(driver).phase matches Phase::FinishHooks { run_id, outcome } ==> {
            &&& final(driver).task == old(driver).task
            &&& final(driver).phase is Stopped
            &&& action is Stop
            &&& exists|now: Timestamp|
                clock_reads(now) && #[trigger] run_completed(
                    old(driver).task,
                    *old(shared),
                    run_id,
                    outcome,
                    now,
                    *final(shared),
                )
        },
{
    match old(driver).phase {
        Phase::RunHooks { run_id } => {
            let (now, next) = choose|now: Timestamp, next: Option<Timestamp>|
                {
                    &&& clock_reads(now)
                    &&& old(driver).task.continues() ==> upcoming(
                        old(driver).task.timezone,
                        old(driver).task.schedule,
                        next,
                    )
                    &&& #[trigger] TaskDriver::rescheduled(
                        old(driver).task,
                        *old(shared),
                        run_id,
                        now,
                        next,
                        *final(driver),
                        *final(shared),
                        action,
                    )
                };
            lemma_followed_up(
                old(driver).task,
                *old(shared),
                run_id,
                now,
                next,
                *final(driver),
                *final(shared),
                action,
            );
        },
        Phase::FinishHooks { run_id, outcome } => {
            let now = choose|now: Timestamp|
                clock_reads(now) && #[trigger] crate::driver::shared_completed(
                    *old(shared),
                    run_id,
                    now,
                    outcome,
                    old(driver).task,
                    *final(shared),
                );
            lemma_record_closed(
                old(shared).history@,
                run_id,
                now,
                outcome,
                old(driver).task.last_attempts,
            );
            assert(run_completed(
                old(driver).task,
                *old(shared),
                run_id,
                outcome,
                now,
                *final(shared),
            ));
        },
        _ => {},
    }
}

/// After the last callback of a finished task its run is complete, and the task stops for good.
pub proof fn law_finished_task_stops<T, H: Host>(
    driver: &mut TaskDriver<T, H>,
    shared: &mut TaskShared,
    now: Timestamp,
    run_id: usize,
    outcome: RunOutcome,
    action: Action<H::Board>,
)
    requires
        old(driver).phase == (Phase::<H::Board>::FinishHooks { run_id, outcome }),
        call_ensures(TaskDriver::<T, H>::on_finish_fired_at, (driver, shared, now), action),
    ensures
        final(driver).task == old(driver).task,
        final(driver).phase is Stopped,
        action is Stop,
        run_completed(old(driver).task, *old(shared), run_id, outcome, now, *final(shared)),
{
    lemma_record_closed(
        old(shared).history@,
        run_id,
        now,
        outcome,
        old(driver).task.last_attempts,
    );
}

/// Each hook leads to the callback that was set for it, and what is put there stays there.
pub proof fn law_hooks_lead_to_their_callbacks<T, H: Host>(
    driver: &mut TaskDriver<T, H>,
    hook: Hook,
    callback: &mut Option<H::Callback>,
)
    requires
        call_ensures(TaskDriver::<T, H>::callback, (driver, hook), callback),
    ensures
        hook == Hook::OnSuccess ==> *old(callback) == old(driver).task.on_success,
        hook == Hook::OnFailure ==> *old(callback) == old(driver).task.on_failure,
        hook == Hook::OnFinish ==> *old(callback) == old(driver).task.on_finish,
        hook == Hook::OnSuccess ==> final(driver).task == (Task {
            on_success: *final(callback),
            ..old(driver).task
        }),
        hook == Hook::OnFailure ==> final(driver).task == (Task {
            on_failure: *final(callback),
            ..old(driver).task
        }),
        hook == Hook::OnFinish ==> final(driver).task == (Task {
            on_finish: *final(callback),
            ..old(driver).task
        }),
        final(driver).phase == old(driver).phase,
{
}

/// A driver for a task has it as it is, not started.
pub proof fn law_new_driver_has_the_task<T, H: Host>(task: Task<T, H>, driver: TaskDriver<T, H>)
    requires
        call_ensures(TaskDriver::<T, H>::new, (task,), driver),
    ensures
        driver.task == task,
        driver.phase is Fresh,
{
}

} // verus!
