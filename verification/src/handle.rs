//! Observing and controlling the tasks of a scheduler.

use vstd::prelude::*;

use crate::shared::{
    copy_states, law_book_of_a_life, newest_outcome, newest_records, start_times, RunBook, RunEvent,
    TaskShared,
};
use crate::task::{OverlapPolicy, RunOutcome, RunRecord, Status, StepState};
use crate::time::Timestamp;

verus! {

/// A registered task, as the scheduler sees it.
///
/// It holds what the task publishes and what is asked of it; the task itself runs elsewhere.
#[derive(Debug)]
pub struct TaskHandle {
    pub id: usize,
    pub name: Option<String>,
    pub shared: TaskShared,
    pub overlap: OverlapPolicy,
}

/// A snapshot of a single task's state, as reported by [`SchedulerHandle`].
#[derive(Debug)]
pub struct TaskState {
    /// The task's id, as assigned by the scheduler.
    pub id: usize,
    /// The task's unique name, if one was set.
    pub name: Option<String>,
    /// The task's lifecycle status as of its last transition.
    pub status: Status,
    /// The task's next execution time, in UTC (`None` if not scheduled).
    pub next_exec: Option<Timestamp>,
    /// Whether a run of the task is currently in progress.
    pub running: bool,
    /// Whether the task is currently paused (its schedule is not dispatched).
    pub paused: bool,
    /// The outcome of the most recent completed run, if any.
    pub last_outcome: Option<RunOutcome>,
    /// The total number of runs started over the task's lifetime.
    pub run_count: usize,
}

impl Clone for TaskState {
    fn clone(&self) -> (copy: TaskState)
        ensures
            copy == *self,
    {
        TaskState {
            id: self.id,
            name: self.name.clone(),
            status: self.status,
            next_exec: self.next_exec,
            running: self.running,
            paused: self.paused,
            last_outcome: self.last_outcome,
            run_count: self.run_count,
        }
    }
}

impl TaskHandle {
    /// The task's state, told by what it publishes.
    pub open spec fn state(self) -> TaskState {
        TaskState {
            id: self.id,
            name: self.name,
            status: self.shared.state.status,
            next_exec: self.shared.state.next_exec,
            running: self.shared.running,
            paused: self.shared.paused,
            last_outcome: self.shared.last_outcome,
            run_count: self.shared.runs,
        }
    }

    /// Whether the task is to be reaped: it is finished, or its removal was requested.
    pub open spec fn done(self) -> bool {
        self.shared.finished || self.shared.remove_requested
    }

    /// Whether the task's next execution time has come.
    pub open spec fn due(self, now: Timestamp) -> bool {
        self.shared.state.next_exec matches Some(next) && next.at_or_before(now)
    }

    /// The task with its schedule held back, or let go again.
    pub open spec fn with_paused(self, paused: bool) -> TaskHandle {
        TaskHandle { shared: TaskShared { paused, ..self.shared }, ..self }
    }

    /// The task with its removal requested.
    pub open spec fn with_removal(self) -> TaskHandle {
        TaskHandle { shared: TaskShared { remove_requested: true, ..self.shared }, ..self }
    }

    /// The task with a run asked for: at once where it is idle, and after the current run where
    /// it is running. There is room for one of each.
    pub open spec fn with_run(self) -> TaskHandle {
        if self.shared.running {
            TaskHandle { shared: TaskShared { pending: true, ..self.shared }, ..self }
        } else {
            TaskHandle { shared: TaskShared { queued: true, ..self.shared }, ..self }
        }
    }

    /// The task after a scheduling round at `now`: a run is asked for where the task is due and
    /// not paused, except that a running task with [`OverlapPolicy::Skip`] drops the occurrence.
    pub open spec fn dispatched(self, now: Timestamp) -> TaskHandle {
        if self.shared.paused || !self.due(now) || (self.shared.running
            && self.overlap is Skip) {
            self
        } else {
            self.with_run()
        }
    }

    /// Compute a point-in-time [`TaskState`] snapshot.
    pub fn to_state(&self) -> (state: TaskState)
        ensures
            state == self.state(),
    {
        TaskState {
            id: self.id,
            name: self.name.clone(),
            status: self.shared.state.status,
            next_exec: self.shared.state.next_exec,
            running: self.shared.running,
            paused: self.shared.paused,
            last_outcome: self.shared.last_outcome,
            run_count: self.shared.runs,
        }
    }

    /// Whether the task is to be reaped.
    pub fn is_done(&self) -> (done: bool)
        ensures
            done == self.done(),
    {
        self.shared.finished || self.shared.remove_requested
    }

    /// Ask for a run, regardless of the schedule.
    pub fn request_run(&mut self)
        ensures
            *final(self) == old(self).with_run(),
    {
        if self.shared.running {
            self.shared.pending = true;
        } else {
            self.shared.queued = true;
        }
    }

    /// Dispatch the task if it is due at `now`.
    pub fn dispatch(&mut self, now: Timestamp)
        ensures
            *final(self) == old(self).dispatched(now),
    {
        if self.shared.paused {
            return ;
        }
        let due = match &self.shared.state.next_exec {
            Some(next) => next.is_at_or_before(&now),
            None => false,
        };
        if !due {
            return ;
        }
        if self.shared.running {
            // A previous run is still in progress: apply the overlap policy.
            match self.overlap {
                OverlapPolicy::Skip => {},
                OverlapPolicy::Queue => {
                    self.shared.pending = true;
                },
            }
        } else {
            self.shared.queued = true;
        }
    }
}

/// Whether position `i` is the first one whose task has the given id.
pub open spec fn first_with_id(registry: Seq<TaskHandle>, id: usize, i: int) -> bool {
    &&& 0 <= i < registry.len()
    &&& registry[i].id == id
    &&& forall|j: int| 0 <= j < i ==> (#[trigger] registry[j]).id != id
}

/// Whether a task is registered under the given id.
pub open spec fn has_id(registry: Seq<TaskHandle>, id: usize) -> bool {
    exists|i: int| 0 <= i < registry.len() && (#[trigger] registry[i]).id == id
}

/// Whether a task bears the given name.
pub open spec fn bears(handle: TaskHandle, name: Seq<char>) -> bool {
    handle.name matches Some(text) && text@ == name
}

/// Whether position `i` is the first one whose task bears the given name.
pub open spec fn first_with_name(registry: Seq<TaskHandle>, name: Seq<char>, i: int) -> bool {
    &&& 0 <= i < registry.len()
    &&& bears(registry[i], name)
    &&& forall|j: int| 0 <= j < i ==> !bears(#[trigger] registry[j], name)
}

/// Whether a task is registered under the given name.
pub open spec fn has_name(registry: Seq<TaskHandle>, name: Seq<char>) -> bool {
    exists|i: int| 0 <= i < registry.len() && bears(#[trigger] registry[i], name)
}

/// What holds of a registry: ids are unique, in the order of registration, and below the next
/// one to assign, and no name occurs twice.
pub open spec fn registry_wf(registry: Seq<TaskHandle>, next_id: usize) -> bool {
    &&& forall|i: int, j: int|
        0 <= i < j < registry.len() ==> (#[trigger] registry[i]).id < (#[trigger] registry[j]).id
    &&& forall|i: int| 0 <= i < registry.len() ==> (#[trigger] registry[i]).id < next_id
    &&& forall|i: int, j: int, name: Seq<char>|
        0 <= i < registry.len() && 0 <= j < registry.len() && #[trigger] bears(registry[i], name)
            && #[trigger] bears(registry[j], name) ==> i == j
}

/// Whether a registry differs from another in one task only, which became `changed`.
pub open spec fn replaced(
    before: Seq<TaskHandle>,
    id: usize,
    changed: spec_fn(TaskHandle) -> TaskHandle,
    after: Seq<TaskHandle>,
) -> bool {
    exists|i: int|
        #[trigger] first_with_id(before, id, i) && after == before.update(i, changed(before[i]))
}

/// A handle used to control and observe the tasks of a scheduler.
#[derive(Debug)]
pub struct SchedulerHandle {
    /// The live tasks, in the order they were added.
    pub registry: Vec<TaskHandle>,
    /// Whether a shutdown has been requested and not yet acted upon.
    pub shutdown: bool,
}

impl SchedulerHandle {
    /// A handle with no tasks registered.
    pub fn new() -> (handle: SchedulerHandle)
        ensures
            handle.registry@ == Seq::<TaskHandle>::empty(),
            !handle.shutdown,
    {
        SchedulerHandle { registry: Vec::new(), shutdown: false }
    }

    /// Request a graceful shutdown of the associated scheduler.
    ///
    /// Calling this before the scheduler starts is fine: the request is remembered, and the loop
    /// exits on its first idle window. Requests do not add up.
    pub fn shutdown(&mut self)
        ensures
            *final(self) == (SchedulerHandle { shutdown: true, ..*old(self) }),
    {
        self.shutdown = true;
    }

    /// Act upon a requested shutdown: report whether there was one, and forget it.
    pub fn take_shutdown(&mut self) -> (requested: bool)
        ensures
            requested == old(self).shutdown,
            *final(self) == (SchedulerHandle { shutdown: false, ..*old(self) }),
    {
        let requested = self.shutdown;
        self.shutdown = false;
        requested
    }

    /// The number of tasks currently registered with the scheduler.
    pub fn task_count(&self) -> (count: usize)
        ensures
            count == self.registry@.len(),
    {
        self.registry.len()
    }

    /// The position of the first task with the given id.
    pub fn find(&self, id: usize) -> (found: Option<usize>)
        ensures
            match found {
                Some(i) => first_with_id(self.registry@, id, i as int),
                None => !has_id(self.registry@, id),
            },
    {
        let mut i: usize = 0;
        while i < self.registry.len()
            invariant
                i <= self.registry@.len(),
                forall|j: int| 0 <= j < i ==> (#[trigger] self.registry@[j]).id != id,
            decreases self.registry@.len() - i,
        {
            if self.registry[i].id == id {
                return Some(i);
            }
            i += 1;
        }
        None
    }

    /// The position of the first task with the given name.
    pub fn find_name(&self, name: &str) -> (found: Option<usize>)
        ensures
            match found {
                Some(i) => first_with_name(self.registry@, name@, i as int),
                None => !has_name(self.registry@, name@),
            },
    {
        let wanted = name.to_string();
        let mut i: usize = 0;
        while i < self.registry.len()
            invariant
                wanted@ == name@,
                i <= self.registry@.len(),
                forall|j: int| 0 <= j < i ==> !bears(#[trigger] self.registry@[j], name@),
            decreases self.registry@.len() - i,
        {
            if let Some(held) = &self.registry[i].name {
                if *held == wanted {
                    return Some(i);
                }
            }
            i += 1;
        }
        None
    }

    /// A snapshot of every live task's [`TaskState`], in the order the tasks were added.
    pub fn statuses(&self) -> (states: Vec<TaskState>)
        ensures
            states@ == self.registry@.map_values(|handle: TaskHandle| handle.state()),
    {
        let ghost wanted = self.registry@.map_values(|handle: TaskHandle| handle.state());
        let mut states: Vec<TaskState> = Vec::new();
        let mut i: usize = 0;
        while i < self.registry.len()
            invariant
                i <= self.registry@.len(),
                wanted == self.registry@.map_values(|handle: TaskHandle| handle.state()),
                states@ == wanted.take(i as int),
            decreases self.registry@.len() - i,
        {
            states.push(self.registry[i].to_state());
            assert(wanted.take(i as int).push(wanted[i as int]) =~= wanted.take(i + 1));
            i += 1;
        }
        assert(wanted.take(i as int) =~= wanted);
        states
    }

    /// The full [`TaskState`] of the task with the given id, if it is still registered.
    pub fn state_of(&self, id: usize) -> (state: Option<TaskState>)
        ensures
            match state {
                Some(state) => exists|i: int|
                    #[trigger] first_with_id(self.registry@, id, i) && state
                        == self.registry@[i].state(),
                None => !has_id(self.registry@, id),
            },
    {
        match self.find(id) {
            Some(i) => Some(self.registry[i].to_state()),
            None => None,
        }
    }

    /// The [`Status`] of the task with the given id, if it is still registered.
    pub fn status_of(&self, id: usize) -> (status: Option<Status>)
        ensures
            match status {
                Some(status) => exists|i: int|
                    #[trigger] first_with_id(self.registry@, id, i) && status
                        == self.registry@[i].shared.state.status,
                None => !has_id(self.registry@, id),
            },
    {
        match self.find(id) {
            Some(i) => Some(self.registry[i].shared.state.status),
            None => None,
        }
    }

    /// The id of the task registered under the given name, if any.
    pub fn id_of_name(&self, name: &str) -> (id: Option<usize>)
        ensures
            match id {
                Some(id) => exists|i: int|
                    #[trigger] first_with_name(self.registry@, name@, i) && id
                        == self.registry@[i].id,
                None => !has_name(self.registry@, name@),
            },
    {
        match self.find_name(name) {
            Some(i) => Some(self.registry[i].id),
            None => None,
        }
    }

    /// The [`Status`] of the task registered under the given name, if any.
    pub fn status_of_name(&self, name: &str) -> (status: Option<Status>)
        ensures
            match status {
                Some(status) => exists|k: int, i: int|
                    #[trigger] first_with_name(self.registry@, name@, k) && #[trigger] first_with_id(
                        self.registry@,
                        self.registry@[k].id,
                        i,
                    ) && status == self.registry@[i].shared.state.status,
                None => !has_name(self.registry@, name@),
            },
    {
        match self.id_of_name(name) {
            Some(id) => self.status_of(id),
            None => None,
        }
    }

    /// The recent [`RunRecord`] history of the task with the given id, oldest first.
    ///
    /// Returns an empty vector if the task is unknown or has no retained history.
    pub fn history(&self, id: usize) -> (history: Vec<RunRecord>)
        ensures
            has_id(self.registry@, id) ==> exists|i: int|
                #[trigger] first_with_id(self.registry@, id, i) && history@
                    == self.registry@[i].shared.history@,
            !has_id(self.registry@, id) ==> history@ == Seq::<RunRecord>::empty(),
    {
        let mut history: Vec<RunRecord> = Vec::new();
        if let Some(at) = self.find(id) {
            let kept = &self.registry[at].shared.history;
            let mut i: usize = 0;
            while i < kept.len()
                invariant
                    i <= kept@.len(),
                    history@ == kept@.take(i as int),
                decreases kept@.len() - i,
            {
                history.push(kept[i]);
                assert(kept@.take(i as int).push(kept@[i as int]) =~= kept@.take(i + 1));
                i += 1;
            }
            assert(kept@.take(i as int) =~= kept@);
        }
        history
    }

    /// The per-step state of the task with the given id, as of its last transition.
    ///
    /// Returns an empty vector if the task is unknown.
    pub fn step_states(&self, id: usize) -> (states: Vec<StepState>)
        ensures
            has_id(self.registry@, id) ==> exists|i: int|
                #[trigger] first_with_id(self.registry@, id, i) && states@
                    == self.registry@[i].shared.steps@,
            !has_id(self.registry@, id) ==> states@ == Seq::<StepState>::empty(),
    {
        match self.find(id) {
            Some(i) => copy_states(&self.registry[i].shared.steps),
            None => Vec::new(),
        }
    }

    /// Pause the task with the given id: its schedule stops being dispatched until
    /// [`resume`](Self::resume) is called. A run already in progress is not interrupted.
    ///
    /// Returns `true` if the task was found.
    pub fn pause(&mut self, id: usize) -> (found: bool)
        ensures
            found == has_id(old(self).registry@, id),
            found ==> replaced(
                old(self).registry@,
                id,
                |handle: TaskHandle| handle.with_paused(true),
                final(self).registry@,
            ),
            !found ==> final(self).registry@ == old(self).registry@,
            final(self).shutdown == old(self).shutdown,
    {
        self.set_paused(id, true)
    }

    /// Resume a paused task so its schedule is dispatched again. Returns `true` if the task was
    /// found.
    pub fn resume(&mut self, id: usize) -> (found: bool)
        ensures
            found == has_id(old(self).registry@, id),
            found ==> replaced(
                old(self).registry@,
                id,
                |handle: TaskHandle| handle.with_paused(false),
                final(self).registry@,
            ),
            !found ==> final(self).registry@ == old(self).registry@,
            final(self).shutdown == old(self).shutdown,
    {
        self.set_paused(id, false)
    }

    /// Hold back the schedule of the task with the given id, or let it go again.
    fn set_paused(&mut self, id: usize, paused: bool) -> (found: bool)
        ensures
            found == has_id(old(self).registry@, id),
            found ==> replaced(
                old(self).registry@,
                id,
                |handle: TaskHandle| handle.with_paused(paused),
                final(self).registry@,
            ),
            !found ==> final(self).registry@ == old(self).registry@,
            final(self).shutdown == old(self).shutdown,
    {
        match self.find(id) {
            Some(i) => {
                assert(first_with_id(self.registry@, id, i as int));
                self.registry[i].shared.paused = paused;
                true
            },
            None => false,
        }
    }

    /// Trigger an immediate run of the task with the given id, regardless of its schedule. If a
    /// run is already in progress, the trigger is queued to run once the current run finishes
    /// (at most one queued). Returns `true` if the task was found.
    pub fn trigger(&mut self, id: usize) -> (found: bool)
        ensures
            found == has_id(old(self).registry@, id),
            found ==> replaced(
                old(self).registry@,
                id,
                |handle: TaskHandle| handle.with_run(),
                final(self).registry@,
            ),
            !found ==> final(self).registry@ == old(self).registry@,
            final(self).shutdown == old(self).shutdown,
    {
        match self.find(id) {
            Some(i) => {
                assert(first_with_id(self.registry@, id, i as int));
                self.registry[i].request_run();
                true
            },
            None => false,
        }
    }

    /// Request removal of the task with the given id. The scheduler reaps it on its next round.
    /// Returns `true` if the task was found.
    pub fn remove(&mut self, id: usize) -> (found: bool)
        ensures
            found == has_id(old(self).registry@, id),
            found ==> replaced(
                old(self).registry@,
                id,
                |handle: TaskHandle| handle.with_removal(),
                final(self).registry@,
            ),
            !found ==> final(self).registry@ == old(self).registry@,
            final(self).shutdown == old(self).shutdown,
    {
        match self.find(id) {
            Some(i) => {
                assert(first_with_id(self.registry@, id, i as int));
                self.registry[i].shared.remove_requested = true;
                true
            },
            None => false,
        }
    }

    /// Pause the task registered under the given name. Returns `true` if found.
    pub fn pause_name(&mut self, name: &str) -> (found: bool)
        ensures
            found == has_name(old(self).registry@, name@),
            found ==> replaced_by_name(
                old(self).registry@,
                name@,
                |handle: TaskHandle| handle.with_paused(true),
                final(self).registry@,
            ),
            !found ==> final(self).registry@ == old(self).registry@,
            final(self).shutdown == old(self).shutdown,
    {
        match self.id_of_name(name) {
            Some(id) => self.pause(id),
            None => false,
        }
    }

    /// Resume the task registered under the given name. Returns `true` if found.
    pub fn resume_name(&mut self, name: &str) -> (found: bool)
        ensures
            found == has_name(old(self).registry@, name@),
            found ==> replaced_by_name(
                old(self).registry@,
                name@,
                |handle: TaskHandle| handle.with_paused(false),
                final(self).registry@,
            ),
            !found ==> final(self).registry@ == old(self).registry@,
            final(self).shutdown == old(self).shutdown,
    {
        match self.id_of_name(name) {
            Some(id) => self.resume(id),
            None => false,
        }
    }

    /// Trigger the task registered under the given name. Returns `true` if found.
    pub fn trigger_name(&mut self, name: &str) -> (found: bool)
        ensures
            found == has_name(old(self).registry@, name@),
            found ==> replaced_by_name(
                old(self).registry@,
                name@,
                |handle: TaskHandle| handle.with_run(),
                final(self).registry@,
            ),
            !found ==> final(self).registry@ == old(self).registry@,
            final(self).shutdown == old(self).shutdown,
    {
        match self.id_of_name(name) {
            Some(id) => self.trigger(id),
            None => false,
        }
    }

    /// Request removal of the task registered under the given name. Returns `true` if found.
    pub fn remove_name(&mut self, name: &str) -> (found: bool)
        ensures
            found == has_name(old(self).registry@, name@),
            found ==> replaced_by_name(
                old(self).registry@,
                name@,
                |handle: TaskHandle| handle.with_removal(),
                final(self).registry@,
            ),
            !found ==> final(self).registry@ == old(self).registry@,
            final(self).shutdown == old(self).shutdown,
    {
        match self.id_of_name(name) {
            Some(id) => self.remove(id),
            None => false,
        }
    }
}

/// Whether a registry differs from another in one task only: the one with the id that the name
/// leads to, which became `changed`.
pub open spec fn replaced_by_name(
    before: Seq<TaskHandle>,
    name: Seq<char>,
    changed: spec_fn(TaskHandle) -> TaskHandle,
    after: Seq<TaskHandle>,
) -> bool {
    exists|k: int|
        #[trigger] first_with_name(before, name, k) && replaced(
            before,
            before[k].id,
            changed,
            after,
        )
}

/// What an observer is told of a task's runs over its life: how many have started, and the outcome
/// of the one that completed last, also while a newer one is in progress and whatever the history
/// still holds.
pub proof fn law_state_tells_of_runs(handle: TaskHandle, limit: usize, events: Seq<RunEvent>)
    requires
        start_times(events).len() <= usize::MAX,
        handle.shared.book() == RunBook::fresh(limit).after(events),
    ensures
        handle.state().run_count == start_times(events).len(),
        handle.state().last_outcome == newest_outcome(events),
        handle.shared.history@ == newest_records(events, limit as nat),
{
    law_book_of_a_life(limit, events);
}

/// What a round asks of a task, by its state: nothing where it is paused or not due; a run at
/// once where it is idle; nothing where it is running and skips what it misses; and a run after
/// the current one where it is running and queues it.
pub proof fn law_dispatch_by_state(handle: TaskHandle, now: Timestamp)
    ensures
        handle.shared.paused ==> handle.dispatched(now) == handle,
        !handle.due(now) ==> handle.dispatched(now) == handle,
        !handle.shared.paused && handle.due(now) && !handle.shared.running ==> handle.dispatched(
            now,
        ).shared == (TaskShared { queued: true, ..handle.shared }),
        handle.shared.running && handle.overlap is Skip ==> handle.dispatched(now) == handle,
        !handle.shared.paused && handle.due(now) && handle.shared.running
            && handle.overlap is Queue ==> handle.dispatched(now).shared == (TaskShared {
            pending: true,
            ..handle.shared
        }),
{
}

/// At most one run is queued: dispatching or triggering a task again adds nothing.
pub proof fn law_at_most_one_run_is_queued(handle: TaskHandle, now: Timestamp)
    ensures
        handle.dispatched(now).dispatched(now) == handle.dispatched(now),
        handle.with_run().with_run() == handle.with_run(),
{
}

/// Resuming undoes pausing, and neither touches a run in progress or one that is queued.
pub proof fn law_resume_undoes_pause(handle: TaskHandle)
    requires
        !handle.shared.paused,
    ensures
        handle.with_paused(true).with_paused(false) == handle,
        handle.with_paused(true).shared.running == handle.shared.running,
        handle.with_paused(true).shared.pending == handle.shared.pending,
        handle.with_paused(true).shared.queued == handle.shared.queued,
{
}

/// A task is dispatched after it was resumed just as if it had never been paused, and not at all
/// while it is paused.
pub proof fn law_paused_task_waits(handle: TaskHandle, now: Timestamp)
    requires
        !handle.shared.paused,
    ensures
        handle.with_paused(true).dispatched(now) == handle.with_paused(true),
        handle.with_paused(true).with_paused(false).dispatched(now) == handle.dispatched(now),
{
}

/// Triggering a task asks for a run whatever its schedule says and though it is paused.
pub proof fn law_trigger_ignores_schedule(handle: TaskHandle)
    ensures
        handle.shared.running ==> handle.with_run().shared.pending,
        !handle.shared.running ==> handle.with_run().shared.queued,
{
}

/// Controlling a task by id touches that task alone and keeps ids and names unique.
pub proof fn law_control_touches_one_task(
    before: Seq<TaskHandle>,
    next_id: usize,
    id: usize,
    changed: spec_fn(TaskHandle) -> TaskHandle,
    after: Seq<TaskHandle>,
)
    requires
        registry_wf(before, next_id),
        replaced(before, id, changed, after),
        forall|handle: TaskHandle|
            (#[trigger] changed(handle)).id == handle.id && changed(handle).name == handle.name,
    ensures
        registry_wf(after, next_id),
        after.len() == before.len(),
        forall|i: int|
            0 <= i < before.len() ==> #[trigger] after[i] == if before[i].id == id {
                changed(before[i])
            } else {
                before[i]
            },
{
    let at = choose|at: int|
        #[trigger] first_with_id(before, id, at) && after == before.update(at, changed(before[at]));
    assert forall|i: int| 0 <= i < before.len() implies #[trigger] after[i] == if before[i].id
        == id {
        changed(before[i])
    } else {
        before[i]
    } by {
        if i < at {
            assert(before[i].id < before[at].id);
        } else if at < i {
            assert(before[at].id < before[i].id);
        }
    }
    assert(forall|i: int|
        0 <= i < before.len() ==> (#[trigger] after[i]).id == before[i].id && after[i].name
            == before[i].name);
    assert forall|i: int, j: int| 0 <= i < j < after.len() implies (#[trigger] after[i]).id < (
    #[trigger] after[j]).id by {
        assert(before[i].id < before[j].id);
    }
    assert forall|i: int, j: int, name: Seq<char>|
        0 <= i < after.len() && 0 <= j < after.len() && #[trigger] bears(after[i], name)
            && #[trigger] bears(after[j], name) implies i == j by {
        assert(bears(before[i], name) && bears(before[j], name));
    }
}

/// A name leads to one task, the same as its id does.
pub proof fn law_name_leads_to_one_task(
    registry: Seq<TaskHandle>,
    next_id: usize,
    name: Seq<char>,
    k: int,
    i: int,
)
    requires
        registry_wf(registry, next_id),
        first_with_name(registry, name, k),
        first_with_id(registry, registry[k].id, i),
    ensures
        i == k,
        forall|j: int| 0 <= j < registry.len() && bears(#[trigger] registry[j], name) ==> j == k,
{
    assert forall|j: int| 0 <= j < registry.len() && bears(
        #[trigger] registry[j],
        name,
    ) implies j == k by {
        assert(bears(registry[k], name));
    }
}

} // verus!
