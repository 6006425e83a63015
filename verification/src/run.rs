//! One run of a task: its steps in order, each attempted until it completes or gives up.
//!
//! A run is a state machine. [`Task::begin_run`] starts it, [`Task::begin_attempt`] hands out
//! the context of the next attempt, [`Task::settle`] takes in what the attempt came to, and
//! [`Task::end_run`] closes the run. Invoking the step, bounding it by the timeout and waiting
//! between attempts is left to the runtime.

use vstd::prelude::*;

use crate::errors::{TaskError, TaskResult};
use crate::task::{
    pending_states, Host, Status, StepReply, StepState, StepStatus, Task, TaskContext,
    TaskStepStatusErr, TaskStepStatusOk,
};
use crate::time::{Duration, Timestamp};

verus! {

/// A run in progress.
pub struct Run<B> {
    /// The id of the run.
    pub run_id: usize,
    /// The step the run is at.
    pub index: usize,
    /// How many attempts have been made at that step.
    pub attempt: u32,
    /// Whether a step failed for good, so that no further step runs.
    pub halted: bool,
    /// The store of this run.
    pub store: B,
}

/// What follows from an attempt at a step.
#[derive(Debug, Clone, Copy, PartialEq, Eq, Structural)]
pub enum Verdict {
    /// The step is complete, with this status; the next step is up.
    Complete(StepStatus),
    /// The step is to be attempted again.
    Retry,
    /// The step failed for good and ends the run, leaving the task in this status.
    Halt(Status),
}

/// What follows from a reply to attempt number `attempt`, with `retries` further attempts
/// allowed after the first. Only [`TaskStepStatusErr::Error`] is retried.
pub open spec fn verdict(reply: StepReply, attempt: nat, retries: nat) -> Verdict {
    match reply {
        Ok(TaskStepStatusOk::Success) => Verdict::Complete(StepStatus::Succeeded),
        Ok(TaskStepStatusOk::HadErrors) => Verdict::Complete(StepStatus::HadErrors),
        Err(TaskStepStatusErr::ErrorDelete) => Verdict::Halt(Status::ForceRemoved),
        Err(TaskStepStatusErr::Error) => if attempt <= retries {
            Verdict::Retry
        } else {
            Verdict::Halt(Status::Failed)
        },
    }
}

/// A run as a value: the status of each step, the task's status, and how far the run has come.
#[verifier::ext_equal]
pub struct RunModel {
    pub statuses: Seq<StepStatus>,
    pub status: Status,
    pub index: nat,
    pub attempt: nat,
    pub attempts: nat,
    pub halted: bool,
}

/// The statuses of a per-step snapshot.
pub open spec fn statuses(states: Seq<StepState>) -> Seq<StepStatus> {
    states.map_values(|state: StepState| state.status)
}

/// A per-step snapshot with the steps that were never reached marked as skipped.
pub open spec fn skipped(states: Seq<StepState>) -> Seq<StepState> {
    states.map_values(
        |state: StepState|
            if state.status is Pending {
                StepState { status: StepStatus::Skipped, ..state }
            } else {
                state
            },
    )
}

/// The repeats left after one more run.
pub open spec fn one_less(repeats: Option<usize>) -> Option<usize> {
    match repeats {
        Some(left) if left > 0 => Some((left - 1) as usize),
        other => other,
    }
}

impl RunModel {
    /// A run of `n` steps that has just begun.
    pub open spec fn start(n: nat) -> RunModel {
        RunModel {
            statuses: Seq::new(n, |i: int| StepStatus::Pending),
            status: Status::Scheduled,
            index: 0,
            attempt: 0,
            attempts: 0,
            halted: false,
        }
    }

    /// Whether the run has no step left to attempt.
    pub open spec fn over(self) -> bool {
        self.halted || self.index >= self.statuses.len()
    }

    /// Whether the attempt counters, as machine integers, have room for the attempt that follows,
    /// if one does.
    pub open spec fn countable(self) -> bool {
        !self.over() ==> self.attempt < u32::MAX && self.attempts < usize::MAX
    }

    /// The run with one more attempt under way.
    pub open spec fn attempting(self) -> RunModel {
        RunModel { attempt: self.attempt + 1, attempts: self.attempts + 1, ..self }
    }

    /// The run after the attempt under way came to `reply`.
    pub open spec fn settled(self, reply: StepReply, retries: nat) -> RunModel {
        match verdict(reply, self.attempt, retries) {
            Verdict::Complete(status) => RunModel {
                statuses: self.statuses.update(self.index as int, status),
                status: Status::Executed,
                index: self.index + 1,
                attempt: 0,
                ..self
            },
            Verdict::Retry => self,
            Verdict::Halt(status) => RunModel {
                statuses: self.statuses.update(self.index as int, StepStatus::Failed),
                status,
                halted: true,
                ..self
            },
        }
    }

    /// What holds of every run: the steps before the current one are complete, those after it
    /// are pending, and a step that failed for good is the current one.
    pub open spec fn wf(self, retries: nat) -> bool {
        &&& self.index <= self.statuses.len()
        &&& self.attempt <= retries + 1
        &&& self.index == self.statuses.len() ==> self.attempt == 0
        &&& forall|i: int|
            0 <= i < self.index ==> (#[trigger] self.statuses[i] is Succeeded
                || self.statuses[i] is HadErrors)
        &&& forall|i: int|
            self.index < i < self.statuses.len() ==> (#[trigger] self.statuses[i]) is Pending
        &&& self.halted ==> self.index < self.statuses.len()
            && self.statuses[self.index as int] is Failed && (self.status is Failed
            || self.status is ForceRemoved)
        &&& !self.halted ==> (self.index < self.statuses.len()
            ==> self.statuses[self.index as int] is Pending) && self.status == if self.index == 0 {
            Status::Scheduled
        } else {
            Status::Executed
        }
    }
}

impl<T, H: Host> Task<T, H> {
    /// How many further attempts a failing step is given.
    pub open spec fn retries(self) -> nat {
        match self.retry_policy {
            Some(policy) => policy.max_retries as nat,
            None => 0,
        }
    }

    /// The task and its run as a value.
    pub open spec fn model(self, run: Run<H::Board>) -> RunModel {
        RunModel {
            statuses: statuses(self.step_states@),
            status: self.status,
            index: run.index as nat,
            attempt: run.attempt as nat,
            attempts: self.last_attempts as nat,
            halted: run.halted,
        }
    }

    /// Whether the snapshot lists the task's steps, in order and by their descriptions.
    pub open spec fn labelled(self) -> bool {
        &&& self.step_states@.len() == self.steps@.len()
        &&& forall|i: int|
            0 <= i < self.steps@.len() ==> (#[trigger] self.step_states@[i]).index == i
                && self.step_states@[i].description == self.steps@[i].description
    }

    /// What holds of a task and its run.
    pub open spec fn run_wf(self, run: Run<H::Board>) -> bool {
        self.labelled() && self.model(run).wf(self.retries())
    }

    /// The context that attempt number `attempt` at the current step is given.
    pub open spec fn context_for(
        self,
        run: Run<H::Board>,
        attempt: u32,
        context: TaskContext<H::Board>,
    ) -> bool {
        &&& context.task_id == self.task_id
        &&& context.task_name == self.name
        &&& context.run_id == run.run_id
        &&& context.step_index == run.index
        &&& context.attempt == attempt
        &&& cloned(self.blackboard, context.blackboard)
        &&& cloned(run.store, context.run_store)
    }

    /// The next attempt at the current step has begun: both counters are one up, and `context` is
    /// the one for it.
    pub open spec fn attempt_begun(
        self,
        run: Run<H::Board>,
        after: Task<T, H>,
        run_after: Run<H::Board>,
        context: TaskContext<H::Board>,
    ) -> bool {
        &&& self.context_for(run, run_after.attempt, context)
        &&& run_after == Run { attempt: (run.attempt + 1) as u32, ..run }
        &&& after == Task { last_attempts: (self.last_attempts + 1) as usize, ..self }
    }

    /// The attempt under way was settled: a complete step is marked and the next one is up, a
    /// step to be retried changes nothing, and a step that failed for good is marked and ends
    /// the run.
    pub open spec fn attempt_settled(
        self,
        run: Run<H::Board>,
        outcome: Verdict,
        after: Task<T, H>,
        run_after: Run<H::Board>,
    ) -> bool {
        let i = run.index as int;
        match outcome {
            Verdict::Complete(status) => {
                &&& after.step_states@ == self.step_states@.update(
                    i,
                    StepState { status, ..self.step_states@[i] },
                )
                &&& after == Task {
                    step_states: after.step_states,
                    status: Status::Executed,
                    ..self
                }
                &&& run_after == Run { index: (run.index + 1) as usize, attempt: 0, ..run }
            },
            Verdict::Retry => after == self && run_after == run,
            Verdict::Halt(status) => {
                &&& after.step_states@ == self.step_states@.update(
                    i,
                    StepState { status: StepStatus::Failed, ..self.step_states@[i] },
                )
                &&& after == Task { step_states: after.step_states, status, ..self }
                &&& run_after == Run { halted: true, ..run }
            },
        }
    }

    /// A run with the given id that has just begun on the task, which became `after`.
    pub open spec fn run_begun(
        self,
        run_id: usize,
        after: Task<T, H>,
        run: Run<H::Board>,
    ) -> bool {
        &&& run == Run { run_id, index: 0, attempt: 0, halted: false, store: run.store }
        &&& call_ensures(<H::Board as Default>::default, (), run.store)
        &&& after.step_states@ == pending_states(self.steps@)
        &&& after == Task { step_states: after.step_states, last_attempts: 0, ..self }
    }

    /// The task that is left of this one when its run closes.
    pub open spec fn run_ended(self, after: Task<T, H>) -> bool {
        &&& after.step_states@ == skipped(self.step_states@)
        &&& after == Task {
            step_states: after.step_states,
            status: if self.steps@.len() == 0 {
                Status::Executed
            } else {
                self.status
            },
            repeats: one_less(self.repeats),
            ..self
        }
    }

    /// How many further attempts a failing step is given.
    pub fn max_retries(&self) -> (retries: usize)
        ensures
            retries == self.retries(),
    {
        match &self.retry_policy {
            Some(policy) => policy.max_retries,
            None => 0,
        }
    }

    /// Begin a run. Only a scheduled task can run; in any other status the task is left as it
    /// is and the error says why.
    pub fn begin_run(&mut self, run_id: usize) -> (begun: TaskResult<Run<H::Board>>)
        ensures
            match old(self).status.refusal() {
                Some(error) => begun == Err::<Run<H::Board>, TaskError>(error) && *final(self)
                    == *old(self),
                None => begun matches Ok(run) && old(self).run_begun(run_id, *final(self), run)
                    && final(self).run_wf(run) && final(self).model(run) == RunModel::start(
                    old(self).steps@.len(),
                ),
            },
    {
        match self.status {
            Status::Init => Err(TaskError::NotInitialized),
            Status::Failed => Err(TaskError::Failed),
            Status::Executed => Err(TaskError::AlreadyExecuted),
            Status::Finished => Err(TaskError::Finished),
            Status::ForceRemoved => Err(TaskError::ForceRemoved),
            Status::Scheduled => {
                self.reset_step_states();
                self.last_attempts = 0;
                let run = Run {
                    run_id,
                    index: 0,
                    attempt: 0,
                    halted: false,
                    store: H::Board::default(),
                };
                proof {
                    let n = self.steps@.len();
                    assert(statuses(self.step_states@) =~= RunModel::start(n).statuses);
                    assert(self.model(run) =~= RunModel::start(n));
                    assert forall|i: int| 0 <= i < n implies (
                    #[trigger] self.step_states@[i]).index == i by {
                        assert(self.steps@.len() == self.steps.len());
                    }
                }
                Ok(run)
            },
        }
    }

    /// Whether the run has a step left to attempt.
    pub fn has_attempt(&self, run: &Run<H::Board>) -> (left: bool)
        requires
            self.run_wf(*run),
        ensures
            left == !self.model(*run).over(),
    {
        !run.halted && run.index < self.steps.len()
    }

    /// Begin the next attempt at the current step, and hand out its context.
    ///
    /// The attempt counters are machine integers; they must not be at their end.
    pub fn begin_attempt(&mut self, run: &mut Run<H::Board>) -> (context: TaskContext<H::Board>)
        requires
            old(self).run_wf(*old(run)),
            !old(self).model(*old(run)).over(),
            old(run).attempt <= old(self).retries(),
            old(run).attempt < u32::MAX,
            old(self).last_attempts < usize::MAX,
        ensures
            old(self).attempt_begun(*old(run), *final(self), *final(run), context),
            final(self).run_wf(*final(run)),
            final(self).model(*final(run)) == old(self).model(*old(run)).attempting(),
    {
        run.attempt += 1;
        self.last_attempts += 1;
        TaskContext {
            task_id: self.task_id,
            task_name: self.name.clone(),
            run_id: run.run_id,
            step_index: run.index,
            attempt: run.attempt,
            blackboard: self.blackboard.clone(),
            run_store: run.store.clone(),
        }
    }

    /// What follows from a reply to the attempt under way.
    fn judge(&self, run: &Run<H::Board>, reply: StepReply) -> (outcome: Verdict)
        ensures
            outcome == verdict(reply, run.attempt as nat, self.retries()),
    {
        match reply {
            Ok(TaskStepStatusOk::Success) => Verdict::Complete(StepStatus::Succeeded),
            Ok(TaskStepStatusOk::HadErrors) => Verdict::Complete(StepStatus::HadErrors),
            Err(TaskStepStatusErr::ErrorDelete) => Verdict::Halt(Status::ForceRemoved),
            Err(TaskStepStatusErr::Error) => {
                if run.attempt as u64 <= self.max_retries() as u64 {
                    Verdict::Retry
                } else {
                    Verdict::Halt(Status::Failed)
                }
            },
        }
    }

    /// Whether the attempt counters, as machine integers, have room for the attempt that follows
    /// from a reply, if one does.
    pub fn can_count(&self, run: &Run<H::Board>, reply: StepReply) -> (room: bool)
        requires
            self.run_wf(*run),
            !self.model(*run).over(),
        ensures
            room == self.model(*run).settled(reply, self.retries()).countable(),
    {
        match self.judge(run, reply) {
            Verdict::Complete(_) => {
                assert(self.step_states@.len() == self.step_states.len());
                run.index + 1 >= self.step_states.len() || self.last_attempts < usize::MAX
            },
            Verdict::Retry => run.attempt < u32::MAX && self.last_attempts < usize::MAX,
            Verdict::Halt(_) => true,
        }
    }

    /// Take in what the attempt under way came to.
    pub fn settle(&mut self, run: &mut Run<H::Board>, reply: StepReply) -> (outcome: Verdict)
        requires
            old(self).run_wf(*old(run)),
            !old(self).model(*old(run)).over(),
            old(run).attempt >= 1,
        ensures
            outcome == verdict(reply, old(run).attempt as nat, old(self).retries()),
            old(self).attempt_settled(*old(run), outcome, *final(self), *final(run)),
            final(self).run_wf(*final(run)),
            final(self).model(*final(run)) == old(self).model(*old(run)).settled(
                reply,
                old(self).retries(),
            ),
    {
        let ghost before = *self;
        let ghost run_before = *run;
        let outcome = self.judge(run, reply);
        match outcome {
            Verdict::Complete(status) => {
                assert(self.step_states@.len() == self.step_states.len());
                self.mark(run.index, status);
                self.status = Status::Executed;
                run.index += 1;
                run.attempt = 0;
            },
            Verdict::Retry => {},
            Verdict::Halt(status) => {
                self.mark(run.index, StepStatus::Failed);
                self.status = status;
                run.halted = true;
            },
        }
        assert(self.model(*run) =~= before.model(run_before).settled(reply, before.retries()));
        outcome
    }

    /// Set the status of one step in the snapshot.
    fn mark(&mut self, index: usize, status: StepStatus)
        requires
            index < old(self).step_states@.len(),
        ensures
            final(self).step_states@ == old(self).step_states@.update(
                index as int,
                StepState { status, ..old(self).step_states@[index as int] },
            ),
            *final(self) == (Task { step_states: final(self).step_states, ..*old(self) }),
            statuses(final(self).step_states@) == statuses(old(self).step_states@).update(
                index as int,
                status,
            ),
    {
        let ghost before = *self;
        self.step_states[index].status = status;
        assert(statuses(self.step_states@) =~= statuses(before.step_states@).update(
            index as int,
            status,
        ));
    }

    /// Which delays may come before the step is attempted again, after `attempt` attempts: the
    /// policy's backoff, spread by its jitter.
    pub open spec fn may_wait(self, attempt: u32, delay: Duration) -> bool {
        match self.retry_policy {
            Some(policy) => {
                let n = (attempt - 1) as nat;
                &&& exists|base: Duration, draw: nat|
                    base@ == policy.backoff.nanos(n) && policy.jitter.draws(base, draw) && delay@
                        == #[trigger] policy.jitter.spread_delay(base, draw)
                &&& policy.jitter is Off ==> delay@ == policy.backoff.nanos(n)
                &&& policy.jitter is Equal ==> policy.backoff.nanos(n) / 2 <= delay@
                &&& delay@ <= policy.backoff.nanos(n)
            },
            None => delay@ == 0,
        }
    }

    /// The delay to wait before the step is attempted again, after `attempt` attempts.
    pub fn retry_delay(&self, attempt: u32) -> (delay: Duration)
        requires
            attempt >= 1,
        ensures
            self.may_wait(attempt, delay),
    {
        match &self.retry_policy {
            Some(policy) => policy.jittered_delay(attempt - 1),
            None => Duration::from_nanos(0),
        }
    }

    /// Close the run: steps that were never reached are skipped, a task without steps counts as
    /// executed, and one repeat is used up (never below zero).
    pub fn end_run(&mut self, run: Run<H::Board>)
        requires
            old(self).run_wf(run),
            old(self).model(run).over(),
        ensures
            old(self).run_ended(*final(self)),
            final(self).labelled(),
            final(self).status is Executed || final(self).status is Failed
                || final(self).status is ForceRemoved,
    {
        let ghost before = *self;
        let mut i: usize = 0;
        while i < self.step_states.len()
            invariant
                i <= self.step_states@.len(),
                self.step_states@.len() == before.step_states@.len(),
                self.step_states@ == skipped(before.step_states@).take(i as int)
                    + before.step_states@.skip(i as int),
                *self == (Task { step_states: self.step_states, ..before }),
            decreases self.step_states@.len() - i,
        {
            assert(self.step_states@[i as int] == before.step_states@[i as int]);
            if self.step_states[i].status == StepStatus::Pending {
                self.mark(i, StepStatus::Skipped);
            }
            assert(self.step_states@ =~= skipped(before.step_states@).take(i + 1)
                + before.step_states@.skip(i + 1));
            i += 1;
        }
        assert(self.step_states@ =~= skipped(before.step_states@));
        if self.steps.len() == 0 {
            self.status = Status::Executed;
        }
        self.repeats = match self.repeats {
            Some(left) => Some(left.saturating_sub(1)),
            None => None,
        };
    }
}

/// What every attempt would come to: the reply of step `i` to its attempt number `a`.
pub type Script = spec_fn(nat, nat) -> StepReply;

/// How many attempts step `i` is given, counting from attempt number `a` on: attempts are made
/// until one is not a plain error, or none is left.
pub open spec fn tries_from(script: Script, i: nat, retries: nat, a: nat) -> nat
    decreases retries + 1 - a,
{
    if a > retries || script(i, a) != Err::<TaskStepStatusOk, TaskStepStatusErr>(
        TaskStepStatusErr::Error,
    ) {
        a
    } else {
        tries_from(script, i, retries, a + 1)
    }
}

/// How many attempts step `i` is given.
pub open spec fn tries(script: Script, i: nat, retries: nat) -> nat {
    tries_from(script, i, retries, 1)
}

/// What step `i` comes to in the end: its reply to the last attempt made.
pub open spec fn answer(script: Script, i: nat, retries: nat) -> StepReply {
    script(i, tries(script, i, retries))
}

/// How many attempts the first `k` steps are given together.
pub open spec fn total_tries(script: Script, k: nat, retries: nat) -> nat
    decreases k,
{
    if k == 0 {
        0
    } else {
        total_tries(script, (k - 1) as nat, retries) + tries(script, (k - 1) as nat, retries)
    }
}

/// A run played to its end against a script.
pub open spec fn play(model: RunModel, script: Script, retries: nat) -> RunModel
    decreases
            if model.over() {
                0
            } else {
                model.statuses.len() - model.index
            },
            retries + 1 - model.attempt,
{
    if model.over() || model.attempt > retries {
        model
    } else {
        play(
            model.attempting().settled(script(model.index, model.attempt + 1), retries),
            script,
            retries,
        )
    }
}

/// What a run has come to so far, told by the script alone.
spec fn on_script(model: RunModel, script: Script, retries: nat) -> bool {
    &&& model.wf(retries)
    &&& forall|i: int|
        0 <= i < model.index ==> (answer(script, i as nat, retries) matches Ok(reply)
            && #[trigger] model.statuses[i] == match reply {
            TaskStepStatusOk::Success => StepStatus::Succeeded,
            TaskStepStatusOk::HadErrors => StepStatus::HadErrors,
        })
    &&& if model.halted {
        &&& answer(script, model.index, retries) matches Err(reply)
        &&& model.status == match reply {
            TaskStepStatusErr::Error => Status::Failed,
            TaskStepStatusErr::ErrorDelete => Status::ForceRemoved,
        }
        &&& model.attempts == total_tries(script, model.index + 1, retries)
    } else {
        &&& model.attempt <= retries
        &&& tries(script, model.index, retries) == tries_from(
            script,
            model.index,
            retries,
            model.attempt + 1,
        )
        &&& model.attempts == total_tries(script, model.index, retries) + model.attempt
    }
}

proof fn lemma_play(model: RunModel, script: Script, retries: nat)
    requires
        on_script(model, script, retries),
    ensures
        on_script(play(model, script, retries), script, retries),
        play(model, script, retries).over(),
        play(model, script, retries).statuses.len() == model.statuses.len(),
    decreases
            if model.over() {
                0
            } else {
                model.statuses.len() - model.index
            },
            retries + 1 - model.attempt,
{
    if !model.over() {
        let i = model.index;
        let a = model.attempt + 1;
        let reply = script(i, a);
        let next = model.attempting().settled(reply, retries);
        reveal_with_fuel(tries_from, 2);
        reveal_with_fuel(total_tries, 2);
        match verdict(reply, a, retries) {
            Verdict::Complete(status) => {
                assert(tries(script, i, retries) == a);
                assert forall|j: int| 0 <= j < next.index implies (answer(
                    script,
                    j as nat,
                    retries,
                ) matches Ok(done) && #[trigger] next.statuses[j] == match done {
                    TaskStepStatusOk::Success => StepStatus::Succeeded,
                    TaskStepStatusOk::HadErrors => StepStatus::HadErrors,
                }) by {
                    if j < i {
                        assert(model.statuses[j] == next.statuses[j]);
                    }
                }
                assert(next.wf(retries));
            },
            Verdict::Retry => {
                assert(next.wf(retries));
            },
            Verdict::Halt(status) => {
                assert(tries(script, i, retries) == a);
                assert forall|j: int| 0 <= j < next.index implies (answer(
                    script,
                    j as nat,
                    retries,
                ) matches Ok(done) && #[trigger] next.statuses[j] == match done {
                    TaskStepStatusOk::Success => StepStatus::Succeeded,
                    TaskStepStatusOk::HadErrors => StepStatus::HadErrors,
                }) by {
                    assert(model.statuses[j] == next.statuses[j]);
                }
                assert(next.wf(retries));
            },
        }
        lemma_play(next, script, retries);
    }
}

/// What a run comes to is told by its steps' replies alone. The steps run in order, each given
/// attempts until one is not a plain error or none is left. The run stops at the first step
/// that gives up: that step has failed, the steps before it are complete, the steps after it
/// were never reached, and the task is force-removed where the step asked for it and failed
/// otherwise. Where no step gives up, every step is complete and the task has executed. The
/// attempts counted are those of the steps that were reached.
pub proof fn law_run_follows_replies(n: nat, script: Script, retries: nat)
    ensures
        ({
            let end = play(RunModel::start(n), script, retries);
            let k = end.index;
            &&& end.statuses.len() == n
            &&& k <= n
            &&& forall|i: int|
                0 <= i < k ==> (answer(script, i as nat, retries) matches Ok(reply)
                    && #[trigger] end.statuses[i] == match reply {
                    TaskStepStatusOk::Success => StepStatus::Succeeded,
                    TaskStepStatusOk::HadErrors => StepStatus::HadErrors,
                })
            &&& forall|i: int| k < i < n ==> (#[trigger] end.statuses[i]) is Pending
            &&& k < n ==> {
                &&& end.halted
                &&& end.statuses[k as int] is Failed
                &&& answer(script, k, retries) matches Err(reply)
                &&& end.status == match reply {
                    TaskStepStatusErr::Error => Status::Failed,
                    TaskStepStatusErr::ErrorDelete => Status::ForceRemoved,
                }
                &&& end.attempts == total_tries(script, k + 1, retries)
            }
            &&& k == n ==> {
                &&& !end.halted
                &&& end.status == if n == 0 {
                    Status::Scheduled
                } else {
                    Status::Executed
                }
                &&& end.attempts == total_tries(script, n, retries)
            }
        }),
{
    let start = RunModel::start(n);
    assert(total_tries(script, 0, retries) == 0);
    lemma_play(start, script, retries);
}

proof fn lemma_tries(script: Script, i: nat, retries: nat, a: nat)
    requires
        a <= retries + 1,
    ensures
        a <= tries_from(script, i, retries, a) <= retries + 1,
        forall|b: nat|
            a <= b < tries_from(script, i, retries, a) ==> #[trigger] script(i, b) == Err::<
                TaskStepStatusOk,
                TaskStepStatusErr,
            >(TaskStepStatusErr::Error),
    decreases retries + 1 - a,
{
    if !(a > retries || script(i, a) != Err::<TaskStepStatusOk, TaskStepStatusErr>(
        TaskStepStatusErr::Error,
    )) {
        lemma_tries(script, i, retries, a + 1);
    }
}

/// A step is attempted at least once and at most once more than its retries. Every attempt but
/// the last was a plain error; only the last may be anything else.
pub proof fn law_attempts_per_step(script: Script, i: nat, retries: nat)
    ensures
        1 <= tries(script, i, retries) <= retries + 1,
        forall|a: nat|
            1 <= a < tries(script, i, retries) ==> #[trigger] script(i, a) == Err::<
                TaskStepStatusOk,
                TaskStepStatusErr,
            >(TaskStepStatusErr::Error),
{
    lemma_tries(script, i, retries, 1);
}

/// Without retries every step is attempted exactly once.
pub proof fn law_no_retries_no_second_attempt(script: Script, i: nat)
    ensures
        tries(script, i, 0) == 1,
{
}

/// A request for removal is never retried: it is a step's last attempt, whatever retries are
/// left.
pub proof fn law_removal_bypasses_retries(script: Script, i: nat, retries: nat, a: nat)
    requires
        1 <= a <= tries(script, i, retries),
        script(i, a) == Err::<TaskStepStatusOk, TaskStepStatusErr>(TaskStepStatusErr::ErrorDelete),
    ensures
        tries(script, i, retries) == a,
{
    law_attempts_per_step(script, i, retries);
}

/// The attempts made in a run of `k` steps lie between `k` and `k` times the attempts a step is
/// given.
pub proof fn law_attempts_are_bounded(script: Script, k: nat, retries: nat)
    ensures
        k <= total_tries(script, k, retries) <= k * (retries + 1),
    decreases k,
{
    if k > 0 {
        law_attempts_are_bounded(script, (k - 1) as nat, retries);
        law_attempts_per_step(script, (k - 1) as nat, retries);
        assert(k * (retries + 1) == (k - 1) * (retries + 1) + (retries + 1)) by (nonlinear_arith);
    }
}

/// When a run has closed no step is pending. The steps up to some point are complete. Either
/// that is all of them and the task has executed, or the next step has failed, the ones after
/// it were skipped, and the task has failed or is force-removed.
pub proof fn law_closed_run_shape<T, H: Host>(
    task: Task<T, H>,
    run: Run<H::Board>,
    after: Task<T, H>,
)
    requires
        task.run_wf(run),
        task.model(run).over(),
        task.run_ended(after),
    ensures
        ({
            let states = after.step_states@;
            let k = run.index as int;
            &&& states.len() == after.steps@.len()
            &&& forall|i: int| 0 <= i < states.len() ==> !((#[trigger] states[i]).status is Pending)
            &&& forall|i: int|
                0 <= i < k ==> ((#[trigger] states[i]).status is Succeeded
                    || states[i].status is HadErrors)
            &&& k == states.len() ==> after.status is Executed
            &&& k < states.len() ==> {
                &&& states[k].status is Failed
                &&& forall|i: int| k < i < states.len() ==> (#[trigger] states[i]).status is Skipped
                &&& after.status is Failed || after.status is ForceRemoved
            }
        }),
{
    let before = task.step_states@;
    let m = task.model(run);
    assert forall|i: int| 0 <= i < before.len() implies #[trigger] m.statuses[i]
        == before[i].status by {}
    assert forall|i: int| 0 <= i < before.len() implies #[trigger] after.step_states@[i] == (
    if before[i].status is Pending {
        StepState { status: StepStatus::Skipped, ..before[i] }
    } else {
        before[i]
    }) by {}
    assert forall|i: int| 0 <= i < run.index implies ((
    #[trigger] after.step_states@[i]).status is Succeeded
        || after.step_states@[i].status is HadErrors) by {
        assert(m.statuses[i] == before[i].status);
    }
    if run.index < before.len() {
        assert(m.statuses[run.index as int] == before[run.index as int].status);
        assert forall|i: int| run.index < i < before.len() implies (
        #[trigger] after.step_states@[i]).status is Skipped by {
            assert(m.statuses[i] == before[i].status);
        }
    }
    assert forall|i: int| 0 <= i < before.len() implies !((
    #[trigger] after.step_states@[i]).status is Pending) by {}
}

/// One whole cycle of a task: a run that was not cut short by a removal, and rescheduling to a
/// next occurrence.
pub open spec fn cycle<T, H: Host>(before: Task<T, H>, after: Task<T, H>) -> bool {
    &&& before.status is Scheduled
    &&& exists|mid: Task<T, H>, next: Timestamp|
        {
            &&& mid.status is Executed || mid.status is Failed
            &&& mid.repeats == one_less(before.repeats)
            &&& after == #[trigger] mid.rescheduled(Some(next))
        }
}

/// A run of a scheduled task, from its beginning to its close without a removal, and rescheduling
/// to a next occurrence make up one cycle.
pub proof fn law_run_makes_a_cycle<T, H: Host>(
    task: Task<T, H>,
    run_id: usize,
    tasks: Seq<Task<T, H>>,
    runs: Seq<Run<H::Board>>,
    contexts: Seq<Option<TaskContext<H::Board>>>,
    closed: Task<T, H>,
    next: Timestamp,
)
    requires
        task.status is Scheduled,
        is_run(task, run_id, tasks, runs, contexts),
        tasks.last().run_wf(runs.last()),
        tasks.last().model(runs.last()).over(),
        tasks.last().run_ended(closed),
        !(closed.status is ForceRemoved),
    ensures
        cycle(task, closed.rescheduled(Some(next))),
{
    lemma_run_keeps_its_store(task, run_id, tasks, runs, contexts, contexts.len() as int);
    law_closed_run_shape(tasks.last(), runs.last(), closed);
    assert(closed.repeats == one_less(task.repeats));
    assert(closed.status is Executed || closed.status is Failed);
}

/// A task that is to be repeated `n` times, `n` at least one, runs exactly `n` times: after
/// each earlier cycle it is scheduled again with one repeat less, and after the last one it is
/// finished.
pub proof fn law_repeats_count_runs<T, H: Host>(trace: Seq<Task<T, H>>, n: usize)
    requires
        n >= 1,
        trace.len() >= 1,
        trace[0].repeats == Some(n),
        trace[0].status is Scheduled,
        forall|i: int| 0 <= i < trace.len() - 1 ==> cycle(#[trigger] trace[i], trace[i + 1]),
    ensures
        trace.len() <= n + 1,
        trace.last().repeats == Some((n - (trace.len() - 1)) as usize),
        trace.last().status is Finished <==> trace.len() == n + 1,
        trace.last().status is Scheduled <==> trace.len() <= n,
    decreases trace.len(),
{
    if trace.len() > 1 {
        let front = trace.drop_last();
        assert(forall|i: int| 0 <= i < front.len() ==> front[i] == trace[i]);
        assert forall|i: int| 0 <= i < front.len() - 1 implies cycle(
            #[trigger] front[i],
            front[i + 1],
        ) by {
            assert(cycle(trace[i], trace[i + 1]));
        }
        law_repeats_count_runs(front, n);
        let k = trace.len() - 2;
        assert(cycle(trace[k], trace[k + 1]));
    }
}

/// A task without a number of repeats never finishes by running: every cycle leaves it
/// scheduled.
pub proof fn law_unlimited_task_keeps_running<T, H: Host>(before: Task<T, H>, after: Task<T, H>)
    requires
        before.repeats is None,
        cycle(before, after),
    ensures
        after.repeats is None,
        after.status is Scheduled,
{
}

/// A task that was to be repeated zero times still runs once and then finishes; its repeats
/// stay at zero.
pub proof fn law_zero_repeats_finish_after_one_run<T, H: Host>(
    before: Task<T, H>,
    after: Task<T, H>,
)
    requires
        before.repeats == Some(0usize),
        cycle(before, after),
    ensures
        after.repeats == Some(0usize),
        after.status is Finished,
{
}

/// Whether two tasks agree in all that a user sets: steps, schedule, names, zone, limits, policies,
/// callbacks and board. Only where the task stands in its life may differ.
pub open spec fn same_settings<T, H: Host>(a: Task<T, H>, b: Task<T, H>) -> bool {
    a == Task {
        repeats: a.repeats,
        step_states: a.step_states,
        last_attempts: a.last_attempts,
        next_exec: a.next_exec,
        status: a.status,
        ..b
    }
}

/// No part of a run changes what was set on the task; in particular every run of a task is given
/// the same board.
pub proof fn law_runs_keep_settings<T, H: Host>(
    task: Task<T, H>,
    run: Run<H::Board>,
    outcome: Verdict,
    next: Option<Timestamp>,
    after: Task<T, H>,
    run_after: Run<H::Board>,
    context: TaskContext<H::Board>,
)
    ensures
        task.inited(next, after) ==> same_settings(after, task),
        task.run_begun(run.run_id, after, run_after) ==> same_settings(after, task),
        task.attempt_begun(run, after, run_after, context) ==> same_settings(after, task),
        task.attempt_settled(run, outcome, after, run_after) ==> same_settings(after, task),
        task.run_ended(after) ==> same_settings(after, task),
        same_settings(task.rescheduled(next), task),
{
}

/// Whether `tasks` and `runs` are the states of one run from its beginning on, and `contexts` what
/// was handed out on the way: each step of it begins an attempt with its context, or settles the
/// attempt under way.
pub open spec fn is_run<T, H: Host>(
    task: Task<T, H>,
    run_id: usize,
    tasks: Seq<Task<T, H>>,
    runs: Seq<Run<H::Board>>,
    contexts: Seq<Option<TaskContext<H::Board>>>,
) -> bool {
    &&& tasks.len() == contexts.len() + 1
    &&& runs.len() == contexts.len() + 1
    &&& task.run_begun(run_id, tasks[0], runs[0])
    &&& forall|i: int|
        0 <= i < contexts.len() ==> match #[trigger] contexts[i] {
            Some(context) => tasks[i].attempt_begun(runs[i], tasks[i + 1], runs[i + 1], context),
            None => exists|outcome: Verdict| #[trigger]
                tasks[i].attempt_settled(runs[i], outcome, tasks[i + 1], runs[i + 1]),
        }
}

proof fn lemma_run_keeps_its_store<T, H: Host>(
    task: Task<T, H>,
    run_id: usize,
    tasks: Seq<Task<T, H>>,
    runs: Seq<Run<H::Board>>,
    contexts: Seq<Option<TaskContext<H::Board>>>,
    n: int,
)
    requires
        is_run(task, run_id, tasks, runs, contexts),
        0 <= n <= contexts.len(),
    ensures
        runs[n].run_id == run_id,
        runs[n].store == runs[0].store,
        tasks[n].blackboard == task.blackboard,
        tasks[n].task_id == task.task_id,
        tasks[n].name == task.name,
        tasks[n].repeats == task.repeats,
    decreases n,
{
    if n > 0 {
        lemma_run_keeps_its_store(task, run_id, tasks, runs, contexts, n - 1);
        let k = n - 1;
        match contexts[k] {
            Some(context) => {
                assert(tasks[k].attempt_begun(runs[k], tasks[k + 1], runs[k + 1], context));
            },
            None => {
                let outcome = choose|outcome: Verdict| #[trigger]
                    tasks[k].attempt_settled(runs[k], outcome, tasks[k + 1], runs[k + 1]);
                assert(tasks[k].attempt_settled(runs[k], outcome, tasks[k + 1], runs[k + 1]));
            },
        }
    }
}

/// All steps and attempts of a run are given one and the same store, which was made for this run
/// as it began, and the task's own board. Every context of the run names the task and the run, and
/// its stores are clones of those two. So whatever clones of one handle have in common, such as the
/// storage they lead to, the stores of any two attempts have in common: a value that one step
/// leaves there is where the later ones look for it.
///
/// `place` stands for anything that clones have in common.
pub proof fn law_run_shares_one_store<T, H: Host>(
    task: Task<T, H>,
    run_id: usize,
    tasks: Seq<Task<T, H>>,
    runs: Seq<Run<H::Board>>,
    contexts: Seq<Option<TaskContext<H::Board>>>,
    place: spec_fn(H::Board) -> int,
)
    requires
        is_run(task, run_id, tasks, runs, contexts),
        forall|a: H::Board, b: H::Board| #[trigger] cloned(a, b) ==> place(a) == place(b),
    ensures
        call_ensures(<H::Board as Default>::default, (), runs[0].store),
        forall|i: int|
            0 <= i < contexts.len() ==> (#[trigger] contexts[i] matches Some(context) ==> {
                &&& context.task_id == task.task_id
                &&& context.task_name == task.name
                &&& context.run_id == run_id
                &&& cloned(runs[0].store, context.run_store)
                &&& cloned(task.blackboard, context.blackboard)
                &&& place(context.run_store) == place(runs[0].store)
                &&& place(context.blackboard) == place(task.blackboard)
            }),
{
    assert forall|i: int| 0 <= i < contexts.len() implies (
    #[trigger] contexts[i] matches Some(context) ==> {
        &&& context.task_id == task.task_id
        &&& context.task_name == task.name
        &&& context.run_id == run_id
        &&& cloned(runs[0].store, context.run_store)
        &&& cloned(task.blackboard, context.blackboard)
        &&& place(context.run_store) == place(runs[0].store)
        &&& place(context.blackboard) == place(task.blackboard)
    }) by {
        lemma_run_keeps_its_store(task, run_id, tasks, runs, contexts, i);
        if let Some(context) = contexts[i] {
            assert(tasks[i].attempt_begun(runs[i], tasks[i + 1], runs[i + 1], context));
        }
    }
}

/// What the places that board handles lead to hold, by place.
pub type Storage<V> = Map<int, Map<Seq<char>, V>>;

/// Whether a board that is made where `storage` is in use leads to a place of its own, which holds
/// nothing yet: `after` is what is in use then.
pub open spec fn made_fresh<B, V>(
    storage: Storage<V>,
    place: spec_fn(B) -> int,
    board: B,
    after: Storage<V>,
) -> bool {
    &&& !storage.contains_key(place(board))
    &&& after == storage.insert(place(board), Map::empty())
}

/// A run begins with an empty store, apart from every other one. Where a new board leads to a place
/// of its own and clones lead to where their original does, the first attempt of a run sees a store
/// that holds nothing, and the store that any attempt of the run sees is neither the task's board
/// nor any other store that was in use as the run began.
///
/// `storage` is what is in use as the run begins, and `after` what is once its store was made.
pub proof fn law_run_begins_with_empty_store<T, H: Host, V>(
    task: Task<T, H>,
    run_id: usize,
    tasks: Seq<Task<T, H>>,
    runs: Seq<Run<H::Board>>,
    contexts: Seq<Option<TaskContext<H::Board>>>,
    place: spec_fn(H::Board) -> int,
    storage: Storage<V>,
    after: Storage<V>,
    other: H::Board,
)
    requires
        is_run(task, run_id, tasks, runs, contexts),
        forall|a: H::Board, b: H::Board| #[trigger] cloned(a, b) ==> place(a) == place(b),
        made_fresh(storage, place, runs[0].store, after),
        storage.contains_key(place(task.blackboard)),
        storage.contains_key(place(other)),
    ensures
        contexts.len() > 0 ==> (contexts[0] matches Some(context) ==> after[place(
            context.run_store,
        )] == Map::<Seq<char>, V>::empty()),
        forall|i: int|
            0 <= i < contexts.len() ==> (#[trigger] contexts[i] matches Some(context) ==> {
                &&& place(context.run_store) != place(context.blackboard)
                &&& place(context.run_store) != place(other)
            }),
        forall|p: int| #[trigger]
            storage.contains_key(p) ==> after.contains_key(p) && after[p] == storage[p],
{
    law_run_shares_one_store(task, run_id, tasks, runs, contexts, place);
}

/// Nothing that is left in the store of one run is found in the store of a later one: wherever new
/// boards lead to places of their own and no place is given out twice, no attempt of either run
/// sees the other's store, though both see the same board of the task, and the later run begins
/// with an empty one.
///
/// `storage` and `after` are as in [`law_run_begins_with_empty_store`]; `later` and `later_after`
/// are the same for the later run.
pub proof fn law_runs_have_stores_of_their_own<T, H: Host, V>(
    task: Task<T, H>,
    run_id: usize,
    tasks: Seq<Task<T, H>>,
    runs: Seq<Run<H::Board>>,
    contexts: Seq<Option<TaskContext<H::Board>>>,
    task_later: Task<T, H>,
    run_id_later: usize,
    tasks_later: Seq<Task<T, H>>,
    runs_later: Seq<Run<H::Board>>,
    contexts_later: Seq<Option<TaskContext<H::Board>>>,
    place: spec_fn(H::Board) -> int,
    storage: Storage<V>,
    after: Storage<V>,
    later: Storage<V>,
    later_after: Storage<V>,
)
    requires
        is_run(task, run_id, tasks, runs, contexts),
        is_run(task_later, run_id_later, tasks_later, runs_later, contexts_later),
        same_settings(task_later, task),
        forall|a: H::Board, b: H::Board| #[trigger] cloned(a, b) ==> place(a) == place(b),
        storage.contains_key(place(task.blackboard)),
        made_fresh(storage, place, runs[0].store, after),
        after.dom().subset_of(later.dom()),
        made_fresh(later, place, runs_later[0].store, later_after),
    ensures
        forall|i: int, j: int|
            0 <= i < contexts.len() && 0 <= j < contexts_later.len() ==> (
            #[trigger] contexts[i] matches Some(one) ==> (
            #[trigger] contexts_later[j] matches Some(two) ==> {
                &&& place(one.run_store) != place(two.run_store)
                &&& place(one.blackboard) == place(two.blackboard)
                &&& place(two.run_store) != place(two.blackboard)
            })),
        contexts_later.len() > 0 ==> (contexts_later[0] matches Some(context)
            ==> later_after[place(context.run_store)] == Map::<Seq<char>, V>::empty()),
{
    assert(after.dom().contains(place(runs[0].store)));
    assert(after.dom().contains(place(task.blackboard)));
    law_run_shares_one_store(task, run_id, tasks, runs, contexts, place);
    law_run_begins_with_empty_store(
        task_later,
        run_id_later,
        tasks_later,
        runs_later,
        contexts_later,
        place,
        later,
        later_after,
        runs[0].store,
    );
    law_run_shares_one_store(
        task_later,
        run_id_later,
        tasks_later,
        runs_later,
        contexts_later,
        place,
    );
}

} // verus!
