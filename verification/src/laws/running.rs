//! One run of a task: beginning it, its attempts, what they come to, and closing it.

use vstd::prelude::*;

use crate::errors::{TaskError, TaskResult};
use crate::retry::{drawn, Jitter, RetryPolicy};
use crate::run::{is_run, Run, Verdict};
use crate::task::{
    Host, Status, StepReply, StepState, StepStatus, Task, TaskContext, TaskStepStatusErr,
    TaskStepStatusOk,
};
use crate::time::Duration;

verus! {

/// How many further attempts a failing step of a task is given.
pub open spec fn retries_of<T, H: Host>(task: Task<T, H>) -> nat {
    match task.retry_policy {
        Some(policy) => policy.max_retries as nat,
        None => 0,
    }
}

/// Whether a per-step snapshot became `after` as the step at `at` came to `status`. Where that
/// closes the run, the steps that were never reached are skipped.
pub open spec fn step_came_to(
    before: Seq<StepState>,
    at: int,
    status: StepStatus,
    closes: bool,
    after: Seq<StepState>,
) -> bool {
    &&& after.len() == before.len()
    &&& forall|k: int|
        0 <= k < before.len() ==> {
            &&& (#[trigger] after[k]).index == before[k].index
            &&& after[k].description == before[k].description
            &&& after[k].status == if k == at {
                status
            } else if closes && before[k].status == StepStatus::Pending {
                StepStatus::Skipped
            } else {
                before[k].status
            }
        }
}

/// Only a scheduled task begins a run; each other status is refused by an error of its own and the
/// task is left alone. A run that begins is at the first attempt of the first step, with a store
/// made for it, and every step is pending under its own description.
pub proof fn law_run_begins_at_the_first_step<T, H: Host>(
    task: &mut Task<T, H>,
    run_id: usize,
    begun: TaskResult<Run<H::Board>>,
)
    requires
        call_ensures(Task::<T, H>::begin_run, (task, run_id), begun),
    ensures
        begun is Ok <==> old(task).status == Status::Scheduled,
        begun is Err ==> *final(task) == *old(task),
        begun matches Err(error) ==> match old(task).status {
            Status::Init => error == TaskError::NotInitialized,
            Status::Failed => error == TaskError::Failed,
            Status::Executed => error == TaskError::AlreadyExecuted,
            Status::Finished => error == TaskError::Finished,
            Status::ForceRemoved => error == TaskError::ForceRemoved,
            Status::Scheduled => false,
        },
        begun matches Ok(run) ==> {
            let states = final(task).step_states@;
            &&& run.run_id == run_id
            &&& run.index == 0
            &&& run.attempt == 0
            &&& !run.halted
            &&& call_ensures(<H::Board as Default>::default, (), run.store)
            &&& states.len() == old(task).steps@.len()
            &&& forall|k: int|
                0 <= k < states.len() ==> (#[trigger] states[k]).index == k
                    && states[k].description == old(task).steps@[k].description
                    && states[k].status == StepStatus::Pending
            &&& *final(task) == Task {
                step_states: final(task).step_states,
                last_attempts: 0,
                ..*old(task)
            }
        },
{
    assert(old(task).steps@.len() == old(task).steps.len());
}

/// An attempt is given a context that names the task, the run, the step that is up and the
/// attempt, one more than were made at that step, and that leads to the task's board and the
/// run's store.
pub proof fn law_attempt_is_told_where_it_stands<T, H: Host>(
    task: &mut Task<T, H>,
    run: &mut Run<H::Board>,
    context: TaskContext<H::Board>,
)
    requires
        call_ensures(Task::<T, H>::begin_attempt, (task, run), context),
        old(run).attempt < u32::MAX,
        old(task).last_attempts < usize::MAX,
    ensures
        context.task_id == old(task).task_id,
        context.task_name == old(task).name,
        context.run_id == old(run).run_id,
        context.step_index == old(run).index,
        context.attempt == old(run).attempt + 1,
        cloned(old(task).blackboard, context.blackboard),
        cloned(old(run).store, context.run_store),
        final(run).attempt == old(run).attempt + 1,
        final(task).last_attempts == old(task).last_attempts + 1,
        *final(run) == (Run { attempt: final(run).attempt, ..*old(run) }),
        *final(task) == (Task { last_attempts: final(task).last_attempts, ..*old(task) }),
{
}

/// What a reply comes to. A step that answers without an error is complete, and the next one is
/// up, with no attempt made at it yet. One that fails is attempted again while retries are left,
/// which changes nothing, and fails for good after that. One that asks for removal fails at once,
/// whatever retries are left.
pub proof fn law_reply_settles_the_step<T, H: Host>(
    task: &mut Task<T, H>,
    run: &mut Run<H::Board>,
    reply: StepReply,
    outcome: Verdict,
)
    requires
        call_ensures(Task::<T, H>::settle, (task, run, reply), outcome),
        old(run).index < old(task).step_states@.len(),
    ensures
        ({
            let status = match reply {
                Ok(TaskStepStatusOk::Success) => StepStatus::Succeeded,
                Ok(TaskStepStatusOk::HadErrors) => StepStatus::HadErrors,
                Err(_) => StepStatus::Failed,
            };
            let again = reply == Err::<TaskStepStatusOk, TaskStepStatusErr>(
                TaskStepStatusErr::Error,
            ) && old(run).attempt <= retries_of(*old(task));
            &&& again ==> *final(task) == *old(task) && *final(run) == *old(run) && outcome
                == Verdict::Retry
            &&& !again ==> step_came_to(
                old(task).step_states@,
                old(run).index as int,
                status,
                false,
                final(task).step_states@,
            ) && *final(task) == (Task {
                step_states: final(task).step_states,
                status: final(task).status,
                ..*old(task)
            })
            &&& reply is Ok ==> {
                &&& final(task).status == Status::Executed
                &&& outcome == Verdict::Complete(status)
                &&& final(run).index == old(run).index + 1
                &&& final(run).attempt == 0
                &&& *final(run) == Run {
                    index: final(run).index,
                    attempt: final(run).attempt,
                    ..*old(run)
                }
            }
            &&& reply is Err && !again ==> {
                &&& final(task).status == match reply {
                    Err(TaskStepStatusErr::ErrorDelete) => Status::ForceRemoved,
                    _ => Status::Failed,
                }
                &&& outcome == Verdict::Halt(final(task).status)
                &&& *final(run) == Run { halted: true, ..*old(run) }
            }
        }),
{
    assert(old(task).step_states@.len() == old(task).step_states.len());
}

/// A run that closes skips the steps it never reached, counts a task without steps as executed,
/// and uses up one repeat where a number of them is set and any are left. Nothing else changes.
pub proof fn law_closing_uses_up_one_repeat<T, H: Host>(task: &mut Task<T, H>, run: Run<H::Board>)
    requires
        call_ensures(Task::<T, H>::end_run, (task, run), ()),
    ensures
        ({
            let before = old(task).step_states@;
            let after = final(task).step_states@;
            &&& after.len() == before.len()
            &&& forall|k: int|
                0 <= k < before.len() ==> (#[trigger] after[k]).index == before[k].index
                    && after[k].description == before[k].description && after[k].status == (
                if before[k].status == StepStatus::Pending {
                    StepStatus::Skipped
                } else {
                    before[k].status
                })
        }),
        final(task).status == if old(task).steps@.len() == 0 {
            Status::Executed
        } else {
            old(task).status
        },
        match (old(task).repeats, final(task).repeats) {
            (None, None) => true,
            (Some(left), Some(still)) => still == if left > 0 {
                left - 1
            } else {
                0
            },
            _ => false,
        },
        *final(task) == (Task {
            step_states: final(task).step_states,
            status: final(task).status,
            repeats: final(task).repeats,
            ..*old(task)
        }),
{
}

/// A run has an attempt left just where no step has failed for good and a step is still up.
pub proof fn law_attempts_are_left_while_steps_are<T, H: Host>(
    task: Task<T, H>,
    run: Run<H::Board>,
    left: bool,
)
    requires
        call_ensures(Task::<T, H>::has_attempt, (&task, &run), left),
    ensures
        left <==> !run.halted && run.index < task.step_states@.len(),
{
}

/// Whether a delay is what a jitter may make of the computed one. Without jitter it stays; full
/// jitter gives a number drawn from the whole of it, and equal jitter half of it and a number
/// drawn from the rest.
pub open spec fn spread_from(jitter: Jitter, computed: nat, delay: nat) -> bool {
    match jitter {
        Jitter::Off => delay == computed,
        Jitter::Full => delay <= computed && drawn(computed, delay),
        Jitter::Equal => computed / 2 <= delay <= computed && drawn(
            (computed - computed / 2) as nat,
            (delay - computed / 2) as nat,
        ),
    }
}

pub(crate) proof fn lemma_may_wait<T, H: Host>(task: Task<T, H>, attempt: u32, delay: Duration)
    requires
        task.may_wait(attempt, delay),
    ensures
        task.retry_policy is None ==> delay@ == 0,
        task.retry_policy matches Some(policy) ==> spread_from(
            policy.jitter,
            policy.backoff.nanos((attempt - 1) as nat),
            delay@,
        ),
{
    if let Some(policy) = task.retry_policy {
        let (base, draw) = choose|base: Duration, draw: nat|
            base@ == policy.backoff.nanos((attempt - 1) as nat) && policy.jitter.draws(base, draw)
                && delay@ == #[trigger] policy.jitter.spread_delay(base, draw);
        assert(policy.jitter.draws(base, draw));
    }
}

/// The delay after so many attempts is the policy's for the retry of that number, counted from
/// zero, spread by the policy's jitter; there is none without a policy.
pub proof fn law_retry_waits_by_the_policy<T, H: Host>(
    task: Task<T, H>,
    attempt: u32,
    delay: Duration,
    computed: Duration,
)
    requires
        call_ensures(Task::<T, H>::retry_delay, (&task, attempt), delay),
        attempt >= 1,
        task.retry_policy matches Some(policy) ==> call_ensures(
            RetryPolicy::delay,
            (&policy, (attempt - 1) as u32),
            computed,
        ),
    ensures
        task.retry_policy is None ==> delay@ == 0,
        task.retry_policy matches Some(policy) ==> spread_from(policy.jitter, computed@, delay@),
{
    lemma_may_wait(task, attempt, delay);
}

/// Whether a run is at an attempt of one of the task's steps.
pub open spec fn is_at_attempt<T, H: Host>(task: Task<T, H>, run: Run<H::Board>) -> bool {
    &&& !run.halted
    &&& run.index < task.steps@.len()
    &&& task.step_states@.len() == task.steps@.len()
    &&& run.attempt >= 1
}

/// Whether a reply leads to one more attempt at the same step: it is an error, and retries are
/// left.
pub open spec fn leads_to_retry<T, H: Host>(
    task: Task<T, H>,
    run: Run<H::Board>,
    reply: StepReply,
) -> bool {
    reply == Err::<TaskStepStatusOk, TaskStepStatusErr>(TaskStepStatusErr::Error) && run.attempt
        <= retries_of(task)
}

/// Whether a reply that leads to no retry closes the run: the step failed, or no other is left.
pub open spec fn leads_to_close<T, H: Host>(
    task: Task<T, H>,
    run: Run<H::Board>,
    reply: StepReply,
) -> bool {
    reply is Err || run.index + 1 >= task.steps@.len()
}

/// Whether the attempt counters can count the attempt that a reply leads to, if it leads to one.
pub open spec fn has_room<T, H: Host>(
    task: Task<T, H>,
    run: Run<H::Board>,
    reply: StepReply,
) -> bool {
    if leads_to_retry(task, run, reply) {
        run.attempt < u32::MAX && task.last_attempts < usize::MAX
    } else {
        leads_to_close(task, run, reply) || task.last_attempts < usize::MAX
    }
}

/// A reply can be counted just where the counters have room for the attempt it leads to.
pub proof fn law_room_is_for_the_next_attempt<T, H: Host>(
    task: Task<T, H>,
    run: Run<H::Board>,
    reply: StepReply,
    room: bool,
)
    requires
        call_ensures(Task::<T, H>::can_count, (&task, &run, reply), room),
        is_at_attempt(task, run),
    ensures
        room <==> has_room(task, run, reply),
{
}

/// How many retries a failing step is given.
pub proof fn law_max_retries_is_the_policys<T, H: Host>(task: Task<T, H>, retries: usize)
    requires
        call_ensures(Task::<T, H>::max_retries, (&task,), retries),
    ensures
        retries == retries_of(task),
{
}

/// How many of the first `n` contexts are for the step `step`.
pub open spec fn tried<B>(contexts: Seq<Option<TaskContext<B>>>, n: int, step: usize) -> nat
    decreases n,
{
    if n <= 0 {
        0
    } else {
        tried(contexts, n - 1, step) + match contexts[n - 1] {
            Some(context) if context.step_index == step => 1nat,
            _ => 0,
        }
    }
}

proof fn lemma_untried<B>(contexts: Seq<Option<TaskContext<B>>>, n: int, step: usize)
    requires
        forall|i: int|
            0 <= i < n ==> (#[trigger] contexts[i] matches Some(context) ==> context.step_index
                != step),
    ensures
        tried(contexts, n, step) == 0,
    decreases n,
{
    if n > 0 {
        lemma_untried(contexts, n - 1, step);
    }
}

proof fn lemma_attempts<T, H: Host>(
    task: Task<T, H>,
    run_id: usize,
    tasks: Seq<Task<T, H>>,
    runs: Seq<Run<H::Board>>,
    contexts: Seq<Option<TaskContext<H::Board>>>,
    n: int,
)
    requires
        is_run(task, run_id, tasks, runs, contexts),
        contexts.len() < u32::MAX,
        0 <= n <= contexts.len(),
    ensures
        runs[n].attempt == tried(contexts, n, runs[n].index),
        runs[n].attempt <= n,
        runs[n].index <= n,
        forall|i: int|
            0 <= i < n ==> (#[trigger] contexts[i] matches Some(context) ==> context.step_index
                <= runs[n].index),
    decreases n,
{
    if n > 0 {
        let k = n - 1;
        lemma_attempts(task, run_id, tasks, runs, contexts, k);
        match contexts[k] {
            Some(context) => {
                assert(tasks[k].attempt_begun(runs[k], tasks[k + 1], runs[k + 1], context));
            },
            None => {
                let outcome = choose|outcome: Verdict| #[trigger]
                    tasks[k].attempt_settled(runs[k], outcome, tasks[k + 1], runs[k + 1]);
                assert(tasks[k].attempt_settled(runs[k], outcome, tasks[k + 1], runs[k + 1]));
                if runs[n].index != runs[k].index {
                    lemma_untried(contexts, n, runs[n].index);
                }
            },
        }
    }
}

/// Attempts are numbered per step. The context of an attempt carries one plus the number of
/// earlier attempts at that same step in the run: one at the first attempt at every step,
/// whatever the steps before it took, and one more with each retry. Steps are taken in order: no
/// attempt is at an earlier step than the ones before it.
pub proof fn law_attempts_are_numbered_per_step<T, H: Host>(
    task: Task<T, H>,
    run_id: usize,
    tasks: Seq<Task<T, H>>,
    runs: Seq<Run<H::Board>>,
    contexts: Seq<Option<TaskContext<H::Board>>>,
    i: int,
    j: int,
)
    requires
        is_run(task, run_id, tasks, runs, contexts),
        contexts.len() < u32::MAX,
        0 <= i < contexts.len(),
    ensures
        contexts[i] matches Some(context) ==> {
            &&& context.attempt == 1 + tried(contexts, i, context.step_index)
            &&& context.run_id == run_id
            &&& 0 <= j < i ==> (contexts[j] matches Some(earlier) ==> earlier.step_index
                <= context.step_index && (earlier.step_index == context.step_index
                ==> earlier.attempt < context.attempt))
        },
{
    lemma_attempts(task, run_id, tasks, runs, contexts, i);
    if let Some(context) = contexts[i] {
        assert(tasks[i].attempt_begun(runs[i], tasks[i + 1], runs[i + 1], context));
        lemma_run_id(task, run_id, tasks, runs, contexts, i);
        if 0 <= j < i {
            if let Some(earlier) = contexts[j] {
                lemma_attempts(task, run_id, tasks, runs, contexts, j);
                assert(tasks[j].attempt_begun(runs[j], tasks[j + 1], runs[j + 1], earlier));
                if earlier.step_index == context.step_index {
                    lemma_tried_grows(contexts, j, i, context.step_index);
                }
            }
        }
    }
}

proof fn lemma_run_id<T, H: Host>(
    task: Task<T, H>,
    run_id: usize,
    tasks: Seq<Task<T, H>>,
    runs: Seq<Run<H::Board>>,
    contexts: Seq<Option<TaskContext<H::Board>>>,
    n: int,
)
    requires
        is_run(task, run_id, tasks, runs, contexts),
        0 <= n <= contexts.len(),
    ensures
        runs[n].run_id == run_id,
    decreases n,
{
    if n > 0 {
        let k = n - 1;
        lemma_run_id(task, run_id, tasks, runs, contexts, k);
        match contexts[k] {
            Some(context) => {
                assert(tasks[k].attempt_begun(runs[k], tasks[k + 1], runs[k + 1], context));
            },
            None => {
                let outcome = choose|outcome: Verdict| #[trigger]
                    tasks[k].attempt_settled(runs[k], outcome, tasks[k + 1], runs[k + 1]);
                assert(tasks[k].attempt_settled(runs[k], outcome, tasks[k + 1], runs[k + 1]));
            },
        }
    }
}

proof fn lemma_tried_grows<B>(
    contexts: Seq<Option<TaskContext<B>>>,
    j: int,
    i: int,
    step: usize,
)
    requires
        0 <= j < i,
        contexts[j] matches Some(context) && context.step_index == step,
    ensures
        tried(contexts, j, step) < tried(contexts, i, step),
    decreases i,
{
    if i > j + 1 {
        lemma_tried_grows(contexts, j, i - 1, step);
    }
}

} // verus!
