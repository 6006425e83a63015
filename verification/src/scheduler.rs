//! The scheduler: which tasks there are, when each is dispatched, and when it goes.
//!
//! The scheduler decides and keeps the books. Running the tasks it hands out, waking it up and
//! stopping the tasks it reports as gone is left to the runtime.

use std::collections::VecDeque;

use vstd::prelude::*;

use crate::errors::{TaskError, TaskResult};
use crate::generator::TaskGenerator;
use crate::handle::{bears, has_id, has_name, registry_wf, SchedulerHandle, TaskHandle};
use crate::schedule::Zone;
use crate::shared::{SharedState, TaskShared};
use crate::task::{upcoming, Host, RunRecord, Status, StepState, Task};
use crate::time::{clock_reads, present, Timestamp};

verus! {

/// A request to add a task to a running scheduler.
pub struct SpawnRequest<T, H: Host> {
    pub task: Task<T, H>,
    /// Where to answer with the assigned id (or the rejection error), if anyone waits for it.
    pub reply: Option<H::Reply>,
}

/// The way to add tasks to a *running* scheduler.
///
/// Spawned tasks are picked up on the next scheduler round, in the order they were queued.
pub struct TaskSpawner<T, H: Host> {
    /// The requests not picked up yet, oldest first.
    pub queue: VecDeque<SpawnRequest<T, H>>,
    /// Whether requests are accepted: the scheduler has not been stopped.
    pub open: bool,
}

impl<T, H: Host> TaskSpawner<T, H> {
    /// A spawner with nothing queued.
    pub fn new() -> (spawner: TaskSpawner<T, H>)
        ensures
            spawner.queue@ == Seq::<SpawnRequest<T, H>>::empty(),
            spawner.open,
    {
        TaskSpawner { queue: VecDeque::new(), open: true }
    }

    /// Queue a task, with or without a place to answer.
    fn request(&mut self, task: TaskResult<Task<T, H>>, reply: Option<H::Reply>) -> (done:
        TaskResult<()>)
        ensures
            match task {
                Err(error) => done == Err::<(), TaskError>(error) && *final(self) == *old(self),
                Ok(task) => if old(self).open {
                    &&& done is Ok
                    &&& final(self).queue@ == old(self).queue@.push(SpawnRequest { task, reply })
                    &&& final(self).open
                } else {
                    &&& done matches Err(TaskError::ExecutionError(text)) && text@
                        == "scheduler is no longer running"@
                    &&& *final(self) == *old(self)
                },
            },
    {
        match task {
            Err(error) => Err(error),
            Ok(task) => {
                if self.open {
                    self.queue.push_back(SpawnRequest { task, reply });
                    Ok(())
                } else {
                    Err(TaskError::ExecutionError("scheduler is no longer running".to_string()))
                }
            },
        }
    }

    /// Queue a task to be added on the scheduler's next round.
    ///
    /// A build error in `task` is returned immediately. The task is otherwise queued
    /// fire-and-forget; if it carries a name that collides with an existing task it is rejected
    /// on the scheduler side. Returns [`TaskError::ExecutionError`] if the scheduler has already
    /// stopped.
    pub fn spawn(&mut self, task: TaskResult<Task<T, H>>) -> (done: TaskResult<()>)
        ensures
            match task {
                Err(error) => done == Err::<(), TaskError>(error) && *final(self) == *old(self),
                Ok(task) => if old(self).open {
                    &&& done is Ok
                    &&& final(self).queue@ == old(self).queue@.push(
                        SpawnRequest { task, reply: None },
                    )
                    &&& final(self).open
                } else {
                    &&& done matches Err(TaskError::ExecutionError(text)) && text@
                        == "scheduler is no longer running"@
                    &&& *final(self) == *old(self)
                },
            },
    {
        self.request(task, None)
    }

    /// Stop accepting requests and drop those not picked up, as the scheduler goes away: whoever
    /// waits for an answer to one is left without.
    pub fn close(&mut self)
        ensures
            !final(self).open,
            final(self).queue@ == Seq::<SpawnRequest<T, H>>::empty(),
    {
        self.open = false;
        self.queue = VecDeque::new();
    }

    /// Queue a task, to be answered with the id the scheduler assigns it.
    ///
    /// The answer comes once the scheduler processes the request on its next round. A build
    /// error is returned immediately, and so is a stopped scheduler.
    pub fn spawn_get_id(&mut self, task: TaskResult<Task<T, H>>, reply: H::Reply) -> (done:
        TaskResult<()>)
        ensures
            match task {
                Err(error) => done == Err::<(), TaskError>(error) && *final(self) == *old(self),
                Ok(task) => if old(self).open {
                    &&& done is Ok
                    &&& final(self).queue@ == old(self).queue@.push(
                        SpawnRequest { task, reply: Some(reply) },
                    )
                    &&& final(self).open
                } else {
                    &&& done matches Err(TaskError::ExecutionError(text)) && text@
                        == "scheduler is no longer running"@
                    &&& *final(self) == *old(self)
                },
            },
    {
        self.request(task, Some(reply))
    }
}

/// What a caller who waits for an answer to a spawn request is told; `None` stands for an
/// answer that will never come.
pub fn spawn_answer(answer: Option<TaskResult<usize>>) -> (told: TaskResult<usize>)
    ensures
        match answer {
            Some(result) => told == result,
            None => told matches Err(TaskError::ExecutionError(text)) && text@
                == "scheduler dropped the spawn request"@,
        },
{
    match answer {
        Some(result) => result,
        None => Err(TaskError::ExecutionError("scheduler dropped the spawn request".to_string())),
    }
}

/// A task that left the scheduler.
#[derive(Debug, Clone, Copy, PartialEq, Eq, Structural)]
pub struct Reaped {
    /// The task's id.
    pub id: usize,
    /// Whether its removal was requested; otherwise it had finished.
    pub requested: bool,
}

/// An answer to a spawn request.
pub struct SpawnAnswer<H: Host> {
    pub reply: H::Reply,
    pub result: TaskResult<usize>,
}

/// What came of one iteration of the scheduler flow.
pub struct TickReport<H: Host> {
    /// The answers to the spawn requests that were processed.
    pub answers: Vec<SpawnAnswer<H>>,
    /// The tasks that were reaped.
    pub reaped: Vec<Reaped>,
}

/// Why the scheduler's loop woke up.
#[derive(Debug, Clone, Copy, PartialEq, Eq, Structural)]
pub enum Wake {
    /// A shutdown was requested.
    Shutdown,
    /// It is time for the next round.
    Tick,
}

/// What the scheduler's loop is to do.
pub enum Progress<H: Host> {
    /// Start the tasks in the outbox, deliver the report, and wait for the next wake-up.
    Continue(TickReport<H>),
    /// Stop these tasks and leave the loop.
    Stopped(Vec<usize>),
}

/// Task scheduler.
pub struct TaskScheduler<T, H: Host, G> {
    /// The registered tasks and the shutdown request, as a handle observes and controls them.
    pub handle: SchedulerHandle,
    /// The (optional) task generation function.
    pub task_gen: Option<TaskGenerator<T, G>>,
    /// The time between rounds in ms.
    pub sleep: usize,
    /// The id that should be assigned to the next appended task.
    pub next_id: usize,
    /// The main timezone used for the scheduler.
    pub timezone: T,
    /// The tasks asked for at runtime.
    pub spawner: TaskSpawner<T, H>,
    /// The tasks registered since the runtime last looked, for it to start.
    pub outbox: Vec<Task<T, H>>,
}

/// What a task publishes before it has started.
pub open spec fn unstarted(shared: TaskShared, history_limit: usize) -> bool {
    &&& !shared.running
    &&& !shared.pending
    &&& !shared.finished
    &&& !shared.paused
    &&& !shared.remove_requested
    &&& !shared.queued
    &&& shared.runs == 0
    &&& shared.run_seq == 0
    &&& shared.history_limit == history_limit
    &&& shared.state == SharedState { status: Status::Init, next_exec: None }
    &&& shared.steps@ == Seq::<StepState>::empty()
    &&& shared.history@ == Seq::<RunRecord>::empty()
    &&& shared.last_outcome is None
}

/// The tasks that stay in a round.
pub open spec fn staying(registry: Seq<TaskHandle>) -> Seq<TaskHandle> {
    registry.filter(|handle: TaskHandle| !handle.done())
}

/// The tasks that leave in a round.
pub open spec fn leaving(registry: Seq<TaskHandle>) -> Seq<Reaped> {
    registry.filter(|handle: TaskHandle| handle.done()).map_values(
        |handle: TaskHandle|
            Reaped { id: handle.id, requested: handle.shared.remove_requested },
    )
}

/// A registry after a round at `now`: tasks that are done have left, and each other one was
/// dispatched by its own state.
pub open spec fn after_round(registry: Seq<TaskHandle>, now: Timestamp) -> Seq<TaskHandle> {
    staying(registry).map_values(|handle: TaskHandle| handle.dispatched(now))
}

impl<T, H: Host, G> TaskScheduler<T, H, G> {
    /// What holds of every scheduler: ids and names are unique, and ids are assigned in
    /// increasing order.
    pub open spec fn wf(self) -> bool {
        registry_wf(self.handle.registry@, self.next_id)
    }

    /// The scheduler with a task added under the next id.
    pub open spec fn adds(self, task: Task<T, H>, after: TaskScheduler<T, H, G>) -> bool {
        let registry = after.handle.registry@;
        &&& registry.len() == self.handle.registry@.len() + 1
        &&& registry.drop_last() == self.handle.registry@
        &&& registry.last().id == self.next_id
        &&& registry.last().name == task.name
        &&& registry.last().overlap == task.overlap
        &&& unstarted(registry.last().shared, task.history_limit)
        &&& after.outbox@ == self.outbox@.push(Task { task_id: self.next_id, ..task })
        &&& after.handle.shutdown == self.handle.shutdown
        &&& after == TaskScheduler {
            handle: after.handle,
            outbox: after.outbox,
            next_id: (self.next_id + 1) as usize,
            ..self
        }
    }

    /// Whether a task bears a name that is taken.
    pub open spec fn name_taken(self, task: Task<T, H>) -> bool {
        task.name matches Some(name) && has_name(self.handle.registry@, name@)
    }

    /// What comes of adding a task: it is rejected where its name is taken, and added otherwise.
    pub open spec fn added(
        self,
        task: Task<T, H>,
        after: TaskScheduler<T, H, G>,
        result: TaskResult<usize>,
    ) -> bool {
        if self.name_taken(task) {
            &&& after == self
            &&& result matches Err(TaskError::DuplicateTaskName(name)) && Some(name) == task.name
        } else {
            self.adds(task, after) && result == Ok::<usize, TaskError>(self.next_id)
        }
    }

    /// Create a new scheduler with the default time between rounds and no tasks to execute.
    pub fn default(timezone: T) -> (scheduler: TaskScheduler<T, H, G>)
        ensures
            scheduler.handle.registry@ == Seq::<TaskHandle>::empty(),
            !scheduler.handle.shutdown,
            scheduler.task_gen is None,
            scheduler.sleep == 1000,
            scheduler.next_id == 0,
            scheduler.timezone == timezone,
            scheduler.spawner.queue@ == Seq::<SpawnRequest<T, H>>::empty(),
            scheduler.spawner.open,
            scheduler.outbox@ == Seq::<Task<T, H>>::empty(),
            scheduler.wf(),
    {
        TaskScheduler {
            handle: SchedulerHandle::new(),
            task_gen: None,
            sleep: 1000,
            next_id: 0,
            timezone,
            spawner: TaskSpawner::new(),
            outbox: Vec::new(),
        }
    }

    /// Create a new scheduler with no tasks to execute.
    ///
    /// # Arguments
    ///
    /// * sleep     - The execution frequency (in ms).
    /// * timezone  - The scheduler's timezone.
    pub fn new(sleep: usize, timezone: T) -> (scheduler: TaskScheduler<T, H, G>)
        ensures
            scheduler.handle.registry@ == Seq::<TaskHandle>::empty(),
            !scheduler.handle.shutdown,
            scheduler.task_gen is None,
            scheduler.sleep == sleep,
            scheduler.next_id == 0,
            scheduler.timezone == timezone,
            scheduler.spawner.queue@ == Seq::<SpawnRequest<T, H>>::empty(),
            scheduler.spawner.open,
            scheduler.outbox@ == Seq::<Task<T, H>>::empty(),
            scheduler.wf(),
    {
        let mut scheduler = TaskScheduler::default(timezone);
        scheduler.sleep = sleep;
        scheduler
    }

    /// The handle that observes the scheduler's tasks.
    pub fn handle(&self) -> (handle: &SchedulerHandle)
        ensures
            *handle == self.handle,
    {
        &self.handle
    }

    /// The handle that controls the scheduler's tasks.
    pub fn handle_mut(&mut self) -> (handle: &mut SchedulerHandle)
        ensures
            *handle == old(self).handle,
            *final(self) == (TaskScheduler { handle: *final(handle), ..*old(self) }),
    {
        &mut self.handle
    }

    /// The spawner that adds tasks to this scheduler while it is running.
    pub fn spawner(&mut self) -> (spawner: &mut TaskSpawner<T, H>)
        ensures
            *spawner == old(self).spawner,
            *final(self) == (TaskScheduler { spawner: *final(spawner), ..*old(self) }),
    {
        &mut self.spawner
    }

    /// Set a `TaskGenerator` instance for the scheduler.
    pub fn set_task_gen(&mut self, task_gen: TaskGenerator<T, G>) -> (this: &mut TaskScheduler<
        T,
        H,
        G,
    >)
        ensures
            *this == (TaskScheduler { task_gen: Some(task_gen), ..*old(self) }),
            *final(self) == *final(this),
    {
        self.task_gen = Some(task_gen);
        self
    }

    /// Add a new task and return the id the scheduler assigned to it.
    ///
    /// If the task has a name, it must be unique within the scheduler; a duplicate is rejected
    /// with [`TaskError::DuplicateTaskName`]. Ids are machine integers and must not run out.
    pub fn add_task_get_id(&mut self, task: TaskResult<Task<T, H>>) -> (result: TaskResult<usize>)
        requires
            old(self).wf(),
            old(self).next_id < usize::MAX,
        ensures
            match task {
                Err(error) => result == Err::<usize, TaskError>(error) && *final(self)
                    == *old(self),
                Ok(task) => old(self).added(task, *final(self), result),
            },
            final(self).wf(),
    {
        let mut task = match task {
            Ok(task) => task,
            Err(error) => {
                return Err(error);
            },
        };
        // Enforce name uniqueness so a name is a stable, addressable identity.
        if let Some(name) = &task.name {
            if self.handle.find_name(name.as_str()).is_some() {
                return Err(TaskError::DuplicateTaskName(name.clone()));
            }
        }
        let ghost before = self.handle.registry@;
        let id: usize = self.next_id;
        task.set_id(id);
        let overlap = task.overlap;
        let name = task.name.clone();
        let shared = TaskShared::new(task.history_limit);
        self.handle.registry.push(TaskHandle { id, name, shared, overlap });
        self.outbox.push(task);
        self.next_id += 1;
        proof {
            let after = self.handle.registry@;
            assert(after.drop_last() =~= before);
            lemma_wf_push(before, after, id);
        }
        Ok(id)
    }

    /// Add a new task in the execution queue.
    pub fn add_task(&mut self, task: TaskResult<Task<T, H>>) -> (result: Result<
        &mut TaskScheduler<T, H, G>,
        TaskError,
    >)
        requires
            old(self).wf(),
            old(self).next_id < usize::MAX,
        ensures
            match result {
                Ok(this) => {
                    &&& task matches Ok(given) && old(self).adds(given, *this)
                        && !old(self).name_taken(given)
                    &&& this.wf()
                    &&& *final(self) == *final(this)
                },
                Err(error) => {
                    &&& *final(self) == *old(self)
                    &&& match task {
                        Err(given) => error == given,
                        Ok(given) => old(self).name_taken(given) && (
                        error matches TaskError::DuplicateTaskName(name) && Some(name)
                            == given.name),
                    }
                },
            },
    {
        match self.add_task_get_id(task) {
            Ok(_) => Ok(self),
            Err(error) => Err(error),
        }
    }
}

impl<T, H: Host, G> TaskScheduler<T, H, G> {
    /// What comes of adding the tasks of a queue in order: each is added or rejected in turn,
    /// and whoever waits for an answer gets one.
    pub open spec fn drains(
        before: TaskScheduler<T, H, G>,
        queue: Seq<SpawnRequest<T, H>>,
        after: TaskScheduler<T, H, G>,
        answers: Seq<SpawnAnswer<H>>,
    ) -> bool
        decreases queue.len(),
    {
        if queue.len() == 0 {
            after == before && answers.len() == 0
        } else {
            let request = queue.last();
            let earlier = if request.reply is Some {
                answers.drop_last()
            } else {
                answers
            };
            exists|mid: TaskScheduler<T, H, G>, result: TaskResult<usize>|
                {
                    &&& #[trigger] mid.added(request.task, after, result)
                    &&& TaskScheduler::drains(before, queue.drop_last(), mid, earlier)
                    &&& request.reply matches Some(reply) ==> answers.len() > 0 && answers.last()
                        == SpawnAnswer::<H> { reply, result }
                }
        }
    }

    /// The scheduler with its spawn queue taken.
    pub open spec fn queue_taken(self, after: TaskScheduler<T, H, G>) -> bool {
        &&& after.spawner.queue@ == Seq::<SpawnRequest<T, H>>::empty()
        &&& after.spawner.open == self.spawner.open
        &&& after == TaskScheduler { spawner: after.spawner, ..self }
    }

    /// What comes of picking up every queued spawn request.
    pub open spec fn drained(
        self,
        after: TaskScheduler<T, H, G>,
        answers: Seq<SpawnAnswer<H>>,
    ) -> bool {
        exists|mid: TaskScheduler<T, H, G>|
            #[trigger] self.queue_taken(mid) && TaskScheduler::drains(
                mid,
                self.spawner.queue@,
                after,
                answers,
            )
    }

    /// Add every task queued by a [`TaskSpawner`] since the last round, answering with the
    /// assigned id (or the rejection error) to any caller awaiting one.
    pub fn drain_spawns(&mut self) -> (answers: Vec<SpawnAnswer<H>>)
        requires
            old(self).wf(),
            old(self).next_id + old(self).spawner.queue@.len() <= usize::MAX,
        ensures
            old(self).drained(*final(self), answers@),
            final(self).wf(),
            final(self).next_id <= old(self).next_id + old(self).spawner.queue@.len(),
    {
        let ghost before = *self;
        let ghost all = self.spawner.queue@;
        let mut queue: VecDeque<SpawnRequest<T, H>> = VecDeque::new();
        std::mem::swap(&mut queue, &mut self.spawner.queue);
        let ghost start = *self;
        assert(before.queue_taken(start));
        let mut answers: Vec<SpawnAnswer<H>> = Vec::new();
        assert(all.take(0) =~= Seq::empty());
        assert(queue@ =~= all.skip(0));
        while queue.len() > 0
            invariant
                self.wf(),
                queue@.len() <= all.len(),
                queue@ == all.skip(all.len() - queue@.len()),
                TaskScheduler::drains(
                    start,
                    all.take(all.len() - queue@.len()),
                    *self,
                    answers@,
                ),
                self.next_id + queue@.len() <= before.next_id + all.len(),
                before.next_id + all.len() <= usize::MAX,
            decreases queue@.len(),
        {
            let ghost k = all.len() - queue@.len();
            let ghost mid = *self;
            let ghost earlier = answers@;
            match queue.pop_front() {
                Some(request) => {
                    assert(request == all[k as int]);
                    let ghost asked = request;
                    let result = self.add_task_get_id(Ok(request.task));
                    let ghost told = result;
                    if let Some(reply) = request.reply {
                        answers.push(SpawnAnswer { reply, result });
                    }
                    proof {
                        let done = all.take(k + 1);
                        assert(done.drop_last() =~= all.take(k as int));
                        assert(done.last() == asked);
                        assert(mid.added(asked.task, *self, told));
                        if asked.reply is Some {
                            assert(answers@.drop_last() =~= earlier);
                        }
                        assert(TaskScheduler::drains(start, done.drop_last(), mid, earlier));
                        assert(TaskScheduler::drains(start, done, *self, answers@));
                        assert(queue@ =~= all.skip(k + 1));
                    }
                },
                None => {},
            }
        }
        assert(all.take(all.len() as int) =~= all);
        answers
    }

    /// What comes of a scheduling round at `now`.
    pub open spec fn rounds(
        self,
        now: Timestamp,
        after: TaskScheduler<T, H, G>,
        reaped: Seq<Reaped>,
    ) -> bool {
        &&& reaped == leaving(self.handle.registry@)
        &&& after.handle.registry@ == after_round(self.handle.registry@, now)
        &&& after.handle.shutdown == self.handle.shutdown
        &&& after == TaskScheduler { handle: after.handle, ..self }
    }

    /// Run a single scheduling round at `now`.
    ///
    /// Reaps any task that has reached a terminal state or whose removal was requested, then
    /// dispatches a run to every task whose next execution time is due. The overlap policy
    /// decides what to do when a task is still running at its next due time.
    pub fn dispatch_round_at(&mut self, now: Timestamp) -> (reaped: Vec<Reaped>)
        requires
            old(self).wf(),
        ensures
            old(self).rounds(now, *final(self), reaped@),
            final(self).wf(),
    {
        let ghost before = self.handle.registry@;
        let mut reaped: Vec<Reaped> = Vec::new();
        let mut i: usize = 0;
        let ghost mut k: int = 0;
        assert(before.take(0) =~= Seq::empty());
        proof {
            reveal(Seq::filter);
            assert(self.handle.registry@ =~= staying(before.take(0)) + before.skip(0));
            assert(reaped@ =~= leaving(before.take(0)));
        }
        while i < self.handle.registry.len()
            invariant
                0 <= k <= before.len(),
                i == staying(before.take(k)).len(),
                self.handle.registry@ == staying(before.take(k)) + before.skip(k),
                reaped@ == leaving(before.take(k)),
                *self == (TaskScheduler { handle: self.handle, ..*old(self) }),
                self.handle.shutdown == old(self).handle.shutdown,
            decreases before.len() - k,
        {
            let ghost front = before.take(k);
            let ghost next = before.take(k + 1);
            proof {
                assert(self.handle.registry@[i as int] == before.skip(k)[0]);
                assert(next.drop_last() =~= front);
                reveal(Seq::filter);
            }
            if self.handle.registry[i].is_done() {
                let gone = self.handle.registry.remove(i);
                let ghost left = leaving(front);
                reaped.push(Reaped { id: gone.id, requested: gone.shared.remove_requested });
                proof {
                    assert(staying(next) =~= staying(front));
                    assert(leaving(next) =~= left.push(
                        Reaped { id: gone.id, requested: gone.shared.remove_requested },
                    ));
                    assert(self.handle.registry@ =~= staying(next) + before.skip(k + 1));
                }
            } else {
                proof {
                    assert(staying(next) =~= staying(front).push(before[k]));
                    assert(leaving(next) =~= leaving(front));
                    assert(self.handle.registry@ =~= staying(next) + before.skip(k + 1));
                }
                i += 1;
            }
            proof {
                k = k + 1;
            }
        }
        proof {
            assert(before.take(k) =~= before) by {
                assert(self.handle.registry@.len() == staying(before.take(k)).len());
            }
            assert(self.handle.registry@ =~= staying(before));
            lemma_staying_wf(before, old(self).next_id);
        }
        let ghost kept = self.handle.registry@;
        let ghost wanted = after_round(before, now);
        let mut j: usize = 0;
        while j < self.handle.registry.len()
            invariant
                j <= kept.len(),
                kept == staying(before),
                wanted == after_round(before, now),
                self.handle.registry@ == wanted.take(j as int) + kept.skip(j as int),
                *self == (TaskScheduler { handle: self.handle, ..*old(self) }),
                self.handle.shutdown == old(self).handle.shutdown,
            decreases kept.len() - j,
        {
            assert(self.handle.registry@[j as int] == kept[j as int]);
            self.handle.registry[j].dispatch(now);
            assert(self.handle.registry@ =~= wanted.take(j + 1) + kept.skip(j + 1));
            j += 1;
        }
        proof {
            assert(self.handle.registry@ =~= wanted);
            lemma_dispatched_wf(kept, now, old(self).next_id);
        }
        reaped
    }

    /// Run a single scheduling round.
    pub fn dispatch_round(&mut self) -> (reaped: Vec<Reaped>)
        requires
            old(self).wf(),
        ensures
            exists|now: Timestamp|
                clock_reads(now) && #[trigger] old(self).rounds(now, *final(self), reaped@),
            final(self).wf(),
    {
        let now = present();
        self.dispatch_round_at(now)
    }

    /// Stop accepting and running tasks: every registered task is dropped and reported, to be
    /// aborted.
    pub fn shutdown_tasks(&mut self) -> (stopped: Vec<usize>)
        ensures
            stopped@ == old(self).handle.registry@.map_values(|handle: TaskHandle| handle.id),
            final(self).stopped_from(*old(self)),
    {
        let ghost registry = self.handle.registry@;
        let ghost wanted = registry.map_values(|handle: TaskHandle| handle.id);
        let mut stopped: Vec<usize> = Vec::new();
        let mut i: usize = 0;
        while i < self.handle.registry.len()
            invariant
                i <= registry.len(),
                self.handle.registry@ == registry,
                wanted == registry.map_values(|handle: TaskHandle| handle.id),
                stopped@ == wanted.take(i as int),
                *self == *old(self),
            decreases registry.len() - i,
        {
            stopped.push(self.handle.registry[i].id);
            assert(wanted.take(i as int).push(wanted[i as int]) =~= wanted.take(i + 1));
            i += 1;
        }
        assert(wanted.take(i as int) =~= wanted);
        self.handle.registry.clear();
        self.outbox.clear();
        self.spawner.open = false;
        stopped
    }

    /// The scheduler that is left of `before` once it has stopped: no tasks, and closed to
    /// spawners.
    pub open spec fn stopped_from(self, before: TaskScheduler<T, H, G>) -> bool {
        &&& self.handle.registry@ == Seq::<TaskHandle>::empty()
        &&& self.handle.shutdown == before.handle.shutdown
        &&& self.outbox@ == Seq::<Task<T, H>>::empty()
        &&& !self.spawner.open
        &&& self.spawner.queue == before.spawner.queue
        &&& self == TaskScheduler {
            handle: self.handle,
            outbox: self.outbox,
            spawner: self.spawner,
            ..before
        }
    }

    /// Open the scheduler to spawners, as it starts (again).
    pub fn start(&mut self)
        ensures
            final(self).spawner.open,
            final(self).spawner.queue == old(self).spawner.queue,
            *final(self) == (TaskScheduler { spawner: final(self).spawner, ..*old(self) }),
    {
        self.spawner.open = true;
    }

    /// Hand over the tasks that are to be started.
    pub fn take_outbox(&mut self) -> (tasks: Vec<Task<T, H>>)
        ensures
            tasks == old(self).outbox,
            final(self).outbox@ == Seq::<Task<T, H>>::empty(),
            *final(self) == (TaskScheduler { outbox: final(self).outbox, ..*old(self) }),
    {
        let mut tasks: Vec<Task<T, H>> = Vec::new();
        std::mem::swap(&mut tasks, &mut self.outbox);
        tasks
    }
}

impl<T, H: Host, G> TaskScheduler<T, H, G> {
    /// What comes of a task that the generator may have found: it is added, unless it could not be
    /// built or its name is taken.
    pub open spec fn found_added(
        self,
        found: Option<TaskResult<Task<T, H>>>,
        after: TaskScheduler<T, H, G>,
    ) -> bool {
        match found {
            Some(Ok(task)) => exists|result: TaskResult<usize>| #[trigger]
                self.added(task, after, result),
            _ => after == self,
        }
    }

    /// Add a task that the generator may have found.
    fn add_found(&mut self, found: Option<TaskResult<Task<T, H>>>)
        requires
            old(self).wf(),
            old(self).next_id < usize::MAX,
        ensures
            old(self).found_added(found, *final(self)),
            final(self).wf(),
            final(self).next_id <= old(self).next_id + 1,
            final(self).spawner == old(self).spawner,
    {
        if let Some(task) = found {
            let ghost before = *self;
            let ghost given = task;
            let result = self.add_task_get_id(task);
            assert(given is Ok ==> before.added(given->Ok_0, *self, result));
        }
    }

    /// What comes of one iteration of the scheduler flow, after the generator: what it found is
    /// added first, then the spawn requests are picked up, and then the round is dispatched.
    pub open spec fn ticked_with(
        self,
        found: Option<TaskResult<Task<T, H>>>,
        after: TaskScheduler<T, H, G>,
        answers: Seq<SpawnAnswer<H>>,
        reaped: Seq<Reaped>,
    ) -> bool {
        exists|first: TaskScheduler<T, H, G>, second: TaskScheduler<T, H, G>, now: Timestamp|
            {
                &&& self.found_added(found, first)
                &&& #[trigger] first.drained(second, answers)
                &&& clock_reads(now)
                &&& #[trigger] second.rounds(now, after, reaped)
            }
    }

    /// Run one iteration of the scheduler flow, given what the generator found: add it, add the
    /// tasks asked for meanwhile and dispatch the current round.
    pub fn tick_with(&mut self, found: Option<TaskResult<Task<T, H>>>) -> (report: TickReport<H>)
        requires
            old(self).wf(),
            old(self).next_id + old(self).spawner.queue@.len() < usize::MAX,
        ensures
            old(self).ticked_with(found, *final(self), report.answers@, report.reaped@),
            final(self).wf(),
    {
        let ghost before = *self;
        self.add_found(found);
        let ghost first = *self;
        let answers = self.drain_spawns();
        let ghost second = *self;
        let reaped = self.dispatch_round();
        proof {
            let now = choose|now: Timestamp|
                clock_reads(now) && #[trigger] second.rounds(now, *self, reaped@);
            assert(before.found_added(found, first));
            assert(first.drained(second, answers@));
            assert(second.rounds(now, *self, reaped@));
        }
        TickReport { answers, reaped }
    }

    /// Decide what the scheduler's loop does when it wakes up, given what the generator found: a
    /// due round is run, and a requested shutdown drains the tasks and ends the loop.
    pub fn on_wake(&mut self, wake: Wake, found: Option<TaskResult<Task<T, H>>>) -> (progress:
        Progress<H>)
        requires
            wake is Tick ==> old(self).wf() && old(self).next_id + old(self).spawner.queue@.len()
                < usize::MAX,
        ensures
            match progress {
                Progress::Continue(report) => {
                    &&& wake is Tick
                    &&& old(self).ticked_with(
                        found,
                        *final(self),
                        report.answers@,
                        report.reaped@,
                    )
                },
                Progress::Stopped(ids) => {
                    &&& wake is Shutdown
                    &&& ids@ == old(self).handle.registry@.map_values(
                        |handle: TaskHandle| handle.id,
                    )
                    &&& final(self).stopped_from(*old(self))
                },
            },
            final(self).wf(),
    {
        match wake {
            Wake::Shutdown => Progress::Stopped(self.shutdown_tasks()),
            Wake::Tick => Progress::Continue(self.tick_with(found)),
        }
    }

    /// The scheduler with its generator run and rescheduled.
    pub open spec fn generator_moved(
        self,
        next_exec: Option<Timestamp>,
        after: TaskScheduler<T, H, G>,
    ) -> bool {
        &&& self.task_gen matches Some(task_gen)
        &&& after.task_gen matches Some(moved)
        &&& moved == TaskGenerator {
            discovery_function: moved.discovery_function,
            next_exec,
            ..task_gen
        }
        &&& after == TaskScheduler { task_gen: after.task_gen, ..self }
    }
}

impl<T: Zone, H: Host, G: FnMut() -> Option<TaskResult<Task<T, H>>>> TaskScheduler<T, H, G> {
    /// Whether the generator, if there is one, can be run.
    pub open spec fn can_generate(self) -> bool {
        self.task_gen matches Some(task_gen) ==> call_requires(task_gen.discovery_function, ())
    }

    /// What comes of running the generator at `now`, given the next occurrence of its schedule:
    /// nothing where there is no generator or it is not due. Otherwise it is run and
    /// rescheduled, also for the last time.
    pub open spec fn discovered(
        self,
        now: Timestamp,
        next: Option<Timestamp>,
        after: TaskScheduler<T, H, G>,
        found: Option<TaskResult<Task<T, H>>>,
    ) -> bool {
        match self.task_gen {
            Some(task_gen) if task_gen.due(now) => {
                &&& call_ensures(task_gen.discovery_function, (), found)
                &&& self.generator_moved(next, after)
            },
            _ => found is None && after == self,
        }
    }

    /// Execute the `TaskGenerator` instance (if set and due at `now`), given the next occurrence
    /// of its schedule, and hand out what it found.
    pub fn discover_at(&mut self, now: Timestamp, next: Option<Timestamp>) -> (found: Option<
        TaskResult<Task<T, H>>,
    >)
        requires
            old(self).can_generate(),
        ensures
            old(self).discovered(now, next, *final(self), found),
            final(self).handle == old(self).handle,
            final(self).next_id == old(self).next_id,
            final(self).spawner == old(self).spawner,
    {
        match self.task_gen.take() {
            Some(mut task_gen) => {
                let found = if task_gen.is_due(now) {
                    task_gen.run_at(next)
                } else {
                    None
                };
                self.task_gen = Some(task_gen);
                found
            },
            None => None,
        }
    }

    /// What comes of running the generator at the present instant, as the clock gives it: the
    /// next occurrence is the one of its schedule.
    pub open spec fn discovers(
        self,
        after: TaskScheduler<T, H, G>,
        found: Option<TaskResult<Task<T, H>>>,
    ) -> bool {
        exists|now: Timestamp, next: Option<Timestamp>|
            {
                &&& clock_reads(now)
                &&& #[trigger] self.discovered(now, next, after, found)
                &&& match self.task_gen {
                    Some(task_gen) => task_gen.due(now) ==> upcoming(
                        task_gen.timezone,
                        task_gen.schedule,
                        next,
                    ),
                    None => true,
                }
            }
    }

    /// Execute the `TaskGenerator` instance (if set and due), and hand out what it found.
    pub fn discover(&mut self) -> (found: Option<TaskResult<Task<T, H>>>)
        requires
            old(self).can_generate(),
        ensures
            old(self).discovers(*final(self), found),
            final(self).handle == old(self).handle,
            final(self).next_id == old(self).next_id,
            final(self).spawner == old(self).spawner,
    {
        let now = present();
        let next = match &self.task_gen {
            Some(task_gen) => {
                if task_gen.is_due(now) {
                    task_gen.upcoming()
                } else {
                    None
                }
            },
            None => None,
        };
        self.discover_at(now, next)
    }

    /// Execute the `TaskGenerator` instance (if set and due), and add the task it found. Returns
    /// whether it found one, be it added or rejected.
    pub fn run_task_gen(&mut self) -> (ran: bool)
        requires
            old(self).wf(),
            old(self).can_generate(),
            old(self).next_id < usize::MAX,
        ensures
            exists|mid: TaskScheduler<T, H, G>, found: Option<TaskResult<Task<T, H>>>|
                {
                    &&& #[trigger] old(self).discovers(mid, found)
                    &&& mid.found_added(found, *final(self))
                    &&& ran == (found is Some)
                },
            final(self).wf(),
    {
        let found = self.discover();
        let ran = found.is_some();
        self.add_found(found);
        ran
    }

    /// What comes of one iteration of the scheduler flow: the generator runs first.
    pub open spec fn ticked(
        self,
        after: TaskScheduler<T, H, G>,
        answers: Seq<SpawnAnswer<H>>,
        reaped: Seq<Reaped>,
    ) -> bool {
        exists|mid: TaskScheduler<T, H, G>, found: Option<TaskResult<Task<T, H>>>|
            #[trigger] self.discovers(mid, found) && mid.ticked_with(
                found,
                after,
                answers,
                reaped,
            )
    }

    /// Run one iteration of the scheduler flow: run the generator (if due), add the tasks asked
    /// for meanwhile and dispatch the current round.
    pub fn tick(&mut self) -> (report: TickReport<H>)
        requires
            old(self).wf(),
            old(self).can_generate(),
            old(self).next_id + old(self).spawner.queue@.len() < usize::MAX,
        ensures
            old(self).ticked(*final(self), report.answers@, report.reaped@),
            final(self).wf(),
    {
        let found = self.discover();
        self.tick_with(found)
    }
}

proof fn lemma_staying_wf(registry: Seq<TaskHandle>, next_id: usize)
    requires
        registry_wf(registry, next_id),
    ensures
        registry_wf(staying(registry), next_id),
        forall|i: int|
            0 <= i < staying(registry).len() ==> registry.contains(#[trigger] staying(registry)[i]),
    decreases registry.len(),
{
    reveal(Seq::filter);
    if registry.len() > 0 {
        let front = registry.drop_last();
        let last = registry.last();
        let n = registry.len() - 1;
        assert(forall|i: int| 0 <= i < front.len() ==> front[i] == registry[i]);
        assert(registry_wf(front, next_id)) by {
            assert forall|i: int, j: int, name: Seq<char>|
                0 <= i < front.len() && 0 <= j < front.len() && #[trigger] bears(front[i], name)
                    && #[trigger] bears(front[j], name) implies i == j by {
                assert(bears(registry[i], name) && bears(registry[j], name));
            }
        }
        lemma_staying_wf(front, next_id);
        let kept = staying(front);
        let after = staying(registry);
        assert forall|i: int| 0 <= i < kept.len() implies registry.contains(#[trigger] kept[i])
            && kept[i].id < last.id && forall|name: Seq<char>|
            #[trigger] bears(kept[i], name) ==> !bears(last, name) by {
            assert(front.contains(kept[i]));
            let k = choose|k: int| 0 <= k < front.len() && front[k] == kept[i];
            assert(registry[k] == kept[i]);
            assert(registry[k].id < registry[n].id);
            assert forall|name: Seq<char>| #[trigger] bears(kept[i], name) implies !bears(
                last,
                name,
            ) by {
                if bears(last, name) {
                    assert(bears(registry[k], name) && bears(registry[n], name));
                }
            }
        }
        if !last.done() {
            assert(after =~= kept.push(last));
            assert(registry[n] == last);
            assert(registry.contains(last));
            assert forall|i: int, j: int, name: Seq<char>|
                0 <= i < after.len() && 0 <= j < after.len() && #[trigger] bears(after[i], name)
                    && #[trigger] bears(after[j], name) implies i == j by {
                if i < kept.len() && j < kept.len() {
                    assert(bears(kept[i], name) && bears(kept[j], name));
                } else if i < kept.len() {
                    assert(bears(kept[i], name));
                } else if j < kept.len() {
                    assert(bears(kept[j], name));
                }
            }
        } else {
            assert(after =~= kept);
        }
    }
}

proof fn lemma_dispatched_wf(registry: Seq<TaskHandle>, now: Timestamp, next_id: usize)
    requires
        registry_wf(registry, next_id),
    ensures
        registry_wf(
            registry.map_values(|handle: TaskHandle| handle.dispatched(now)),
            next_id,
        ),
{
    let after = registry.map_values(|handle: TaskHandle| handle.dispatched(now));
    assert(forall|i: int|
        0 <= i < registry.len() ==> (#[trigger] after[i]).id == registry[i].id && after[i].name
            == registry[i].name);
    assert forall|i: int, j: int| 0 <= i < j < after.len() implies (#[trigger] after[i]).id < (
    #[trigger] after[j]).id by {
        assert(registry[i].id < registry[j].id);
    }
    assert forall|i: int, j: int, name: Seq<char>|
        0 <= i < after.len() && 0 <= j < after.len() && #[trigger] bears(after[i], name)
            && #[trigger] bears(after[j], name) implies i == j by {
        assert(bears(registry[i], name) && bears(registry[j], name));
    }
}

proof fn lemma_wf_push(before: Seq<TaskHandle>, after: Seq<TaskHandle>, id: usize)
    requires
        registry_wf(before, id),
        id < usize::MAX,
        after.len() == before.len() + 1,
        after.drop_last() == before,
        after.last().id == id,
        after.last().name matches Some(name) ==> !has_name(before, name@),
    ensures
        registry_wf(after, (id + 1) as usize),
{
    assert(forall|i: int| 0 <= i < before.len() ==> after[i] == before[i]);
    assert forall|i: int, j: int, name: Seq<char>|
        0 <= i < after.len() && 0 <= j < after.len() && #[trigger] bears(after[i], name)
            && #[trigger] bears(after[j], name) implies i == j by {
        let n = before.len();
        if i < n && j < n {
            assert(bears(before[i], name) && bears(before[j], name));
        } else if i < n {
            assert(bears(before[i], name));
            assert(has_name(before, name));
        } else if j < n {
            assert(bears(before[j], name));
            assert(has_name(before, name));
        }
    }
}

/// A new task gets an id that no registered task has, and it is the newest entry; every task
/// registered before keeps its place and its state.
pub proof fn law_new_task_is_appended<T, H: Host, G>(
    before: TaskScheduler<T, H, G>,
    task: Task<T, H>,
    after: TaskScheduler<T, H, G>,
)
    requires
        before.wf(),
        before.next_id < usize::MAX,
        before.adds(task, after),
        !before.name_taken(task),
    ensures
        !has_id(before.handle.registry@, before.next_id),
        has_id(after.handle.registry@, before.next_id),
        forall|i: int|
            0 <= i < before.handle.registry@.len() ==> #[trigger] after.handle.registry@[i]
                == before.handle.registry@[i],
        after.wf(),
{
    let registry = after.handle.registry@;
    assert(registry[registry.len() - 1] == registry.last());
    assert forall|i: int| 0 <= i < before.handle.registry@.len() implies #[trigger] registry[i]
        == before.handle.registry@[i] by {
        assert(registry.drop_last()[i] == registry[i]);
    }
    lemma_wf_push(before.handle.registry@, registry, before.next_id);
}

/// How many of the results of a scheduler's life are tasks that were added.
pub open spec fn adds_among(results: Seq<Option<TaskResult<usize>>>) -> nat
    decreases results.len(),
{
    if results.len() == 0 {
        0
    } else {
        adds_among(results.drop_last()) + if results.last() matches Some(Ok(_)) {
            1nat
        } else {
            0
        }
    }
}

impl<T, H: Host, G> TaskScheduler<T, H, G> {
    /// Whether one step of a scheduler's life leads from this state to `after`: an attempt to add a
    /// task, with its result, or anything else, which leaves the next id alone.
    pub open spec fn leads_to(
        self,
        result: Option<TaskResult<usize>>,
        after: TaskScheduler<T, H, G>,
    ) -> bool {
        match result {
            Some(result) => {
                ||| exists|task: Task<T, H>| #[trigger] self.added(task, after, result)
                ||| result is Err && after == self
            },
            None => after.next_id == self.next_id,
        }
    }
}

/// Whether `life` are the states of a scheduler, from a new one on, and `results` what came of the
/// attempts to add a task on the way.
pub open spec fn is_life<T, H: Host, G>(
    life: Seq<TaskScheduler<T, H, G>>,
    results: Seq<Option<TaskResult<usize>>>,
) -> bool {
    &&& life.len() == results.len() + 1
    &&& life[0].next_id == 0
    &&& forall|i: int|
        0 <= i < results.len() ==> life[i].leads_to(#[trigger] results[i], life[i + 1])
}

proof fn lemma_adds_among_grows(results: Seq<Option<TaskResult<usize>>>, i: int)
    requires
        0 <= i <= results.len(),
    ensures
        adds_among(results.take(i)) <= adds_among(results),
        i < results.len() ==> (results[i] matches Some(Ok(_)) ==> adds_among(results.take(i))
            < adds_among(results)),
    decreases results.len(),
{
    if i < results.len() {
        let front = results.drop_last();
        assert(results.take(i) =~= front.take(i));
        lemma_adds_among_grows(front, i);
        if i == front.len() {
            assert(front.take(i) =~= front);
        }
    } else {
        assert(results.take(i) =~= results);
    }
}

/// Whether a step from one next id to another assigns an id just where its result says so.
spec fn assigns(from: usize, result: Option<TaskResult<usize>>, to: usize) -> bool {
    match result {
        Some(Ok(id)) => id == from && to == (from + 1) as usize,
        _ => to == from,
    }
}

proof fn lemma_leads_to_assigns<T, H: Host, G>(
    before: TaskScheduler<T, H, G>,
    result: Option<TaskResult<usize>>,
    after: TaskScheduler<T, H, G>,
)
    requires
        before.leads_to(result, after),
    ensures
        assigns(before.next_id, result, after.next_id),
{
}

proof fn lemma_ids_count(ids: Seq<usize>, results: Seq<Option<TaskResult<usize>>>, n: int)
    requires
        0 <= n <= results.len(),
        ids.len() == results.len() + 1,
        ids[0] == 0,
        adds_among(results) <= usize::MAX,
        forall|i: int| 0 <= i < results.len() ==> assigns(ids[i], #[trigger] results[i], ids[i + 1]),
    ensures
        ids[n] == adds_among(results.take(n)),
    decreases n,
{
    if n > 0 {
        lemma_ids_count(ids, results, n - 1);
        lemma_adds_among_grows(results, n);
        assert(results.take(n).drop_last() =~= results.take(n - 1));
        assert(results.take(n).last() == results[n - 1]);
        assert(assigns(ids[n - 1], results[n - 1], ids[n - 1 + 1]));
    }
}

/// Over a scheduler's whole life, the id assigned to a task is the number of tasks that were added
/// before it. Rejected tasks use up no id, and no id is used twice, whatever became of its task.
pub proof fn law_ids_count_added_tasks<T, H: Host, G>(
    life: Seq<TaskScheduler<T, H, G>>,
    results: Seq<Option<TaskResult<usize>>>,
)
    requires
        is_life(life, results),
        adds_among(results) <= usize::MAX,
    ensures
        life.last().next_id == adds_among(results),
        forall|i: int|
            0 <= i < results.len() ==> (#[trigger] results[i] matches Some(Ok(id)) ==> id
                == adds_among(results.take(i))),
        forall|i: int, j: int|
            0 <= i < j < results.len() ==> (#[trigger] results[i] matches Some(Ok(id)) ==> (
            #[trigger] results[j] matches Some(Ok(later)) ==> id < later)),
{
    let ids = life.map_values(|state: TaskScheduler<T, H, G>| state.next_id);
    assert forall|i: int| 0 <= i < results.len() implies assigns(
        ids[i],
        #[trigger] results[i],
        ids[i + 1],
    ) by {
        lemma_leads_to_assigns(life[i], results[i], life[i + 1]);
    }
    let n = results.len() as int;
    lemma_ids_count(ids, results, n);
    assert(results.take(n) =~= results);
    assert forall|i: int| 0 <= i < results.len() implies (
    #[trigger] results[i] matches Some(Ok(id)) ==> id == adds_among(results.take(i))) by {
        assert(assigns(ids[i], results[i], ids[i + 1]));
        lemma_ids_count(ids, results, i);
    }
    assert forall|i: int, j: int| 0 <= i < j < results.len() implies (
    #[trigger] results[i] matches Some(Ok(id)) ==> (
    #[trigger] results[j] matches Some(Ok(later)) ==> id < later)) by {
        let front = results.take(j);
        assert(front[i] == results[i]);
        assert(front.take(i) =~= results.take(i));
        lemma_adds_among_grows(front, i);
    }
}

/// Everything a scheduler does is a step of its life. Only adding a task uses up an id: neither a
/// round, nor a discovery, nor taking the spawn queue, nor stopping does, and a rejected task does
/// not either.
pub proof fn law_only_adding_uses_ids<
    T: Zone,
    H: Host,
    G: FnMut() -> Option<TaskResult<Task<T, H>>>,
>(
    before: TaskScheduler<T, H, G>,
    task: Task<T, H>,
    result: TaskResult<usize>,
    now: Timestamp,
    next: Option<Timestamp>,
    found: Option<TaskResult<Task<T, H>>>,
    reaped: Seq<Reaped>,
    after: TaskScheduler<T, H, G>,
)
    ensures
        before.added(task, after, result) ==> before.leads_to(Some(result), after),
        before.added(task, after, result) && result is Err ==> after == before,
        before.rounds(now, after, reaped) ==> before.leads_to(None, after),
        before.discovered(now, next, after, found) ==> before.leads_to(None, after),
        before.queue_taken(after) ==> before.leads_to(None, after),
        after.stopped_from(before) ==> before.leads_to(None, after),
{
}

/// Whether the tasks of a queue were added in turn: `life` are the states on the way, and
/// `results` what came of each.
pub open spec fn added_in_turn<T, H: Host, G>(
    queue: Seq<SpawnRequest<T, H>>,
    life: Seq<TaskScheduler<T, H, G>>,
    results: Seq<TaskResult<usize>>,
) -> bool {
    &&& life.len() == queue.len() + 1
    &&& results.len() == queue.len()
    &&& forall|i: int|
        0 <= i < queue.len() ==> life[i].added(
            (#[trigger] queue[i]).task,
            life[i + 1],
            results[i],
        )
}

/// Picking up the spawn queue adds its tasks one by one, each of which is a step of the scheduler's
/// life.
pub proof fn law_queue_is_added_in_turn<T, H: Host, G>(
    before: TaskScheduler<T, H, G>,
    queue: Seq<SpawnRequest<T, H>>,
    after: TaskScheduler<T, H, G>,
    answers: Seq<SpawnAnswer<H>>,
)
    requires
        TaskScheduler::drains(before, queue, after, answers),
    ensures
        exists|life: Seq<TaskScheduler<T, H, G>>, results: Seq<TaskResult<usize>>|
            {
                &&& #[trigger] added_in_turn(queue, life, results)
                &&& life[0] == before
                &&& life.last() == after
            },
    decreases queue.len(),
{
    if queue.len() == 0 {
        let life = seq![before];
        let results = Seq::<TaskResult<usize>>::empty();
        assert(added_in_turn(queue, life, results));
    } else {
        let request = queue.last();
        let front = queue.drop_last();
        let n = front.len() as int;
        let earlier = if request.reply is Some {
            answers.drop_last()
        } else {
            answers
        };
        let (mid, result) = choose|mid: TaskScheduler<T, H, G>, result: TaskResult<usize>|
            {
                &&& #[trigger] mid.added(request.task, after, result)
                &&& TaskScheduler::drains(before, front, mid, earlier)
            };
        law_queue_is_added_in_turn(before, front, mid, earlier);
        let (states, told) = choose|
            states: Seq<TaskScheduler<T, H, G>>,
            told: Seq<TaskResult<usize>>,
        |
            {
                &&& #[trigger] added_in_turn(front, states, told)
                &&& states[0] == before
                &&& states.last() == mid
            };
        let life = states.push(after);
        let results = told.push(result);
        assert forall|i: int| 0 <= i < queue.len() implies life[i].added(
            (#[trigger] queue[i]).task,
            life[i + 1],
            results[i],
        ) by {
            if i < n {
                assert(front[i] == queue[i]);
                assert(states[i].added(front[i].task, states[i + 1], told[i]));
            } else {
                assert(states[n] == mid);
            }
        }
        assert(added_in_turn(queue, life, results));
    }
}

/// A round reaps exactly the tasks that are done: each of them is reported once, no other is,
/// and none of them is left.
pub proof fn law_round_reaps_what_is_done(registry: Seq<TaskHandle>, now: Timestamp)
    ensures
        leaving(registry).len() + after_round(registry, now).len() == registry.len(),
        forall|i: int|
            0 <= i < registry.len() && (#[trigger] registry[i]).done() ==> leaving(
                registry,
            ).contains(
                Reaped { id: registry[i].id, requested: registry[i].shared.remove_requested },
            ),
        forall|i: int|
            0 <= i < registry.len() && !(#[trigger] registry[i]).done() ==> after_round(
                registry,
                now,
            ).contains(registry[i].dispatched(now)),
        forall|i: int|
            0 <= i < after_round(registry, now).len() ==> !(#[trigger] after_round(
                registry,
                now,
            )[i]).done(),
    decreases registry.len(),
{
    reveal(Seq::filter);
    if registry.len() > 0 {
        let front = registry.drop_last();
        let last = registry.last();
        law_round_reaps_what_is_done(front, now);
        let told = Reaped { id: last.id, requested: last.shared.remove_requested };
        if last.done() {
            assert(leaving(registry) =~= leaving(front).push(told));
            assert(after_round(registry, now) =~= after_round(front, now));
            assert(leaving(registry)[leaving(front).len() as int] == told);
        } else {
            assert(leaving(registry) =~= leaving(front));
            assert(after_round(registry, now) =~= after_round(front, now).push(
                last.dispatched(now),
            ));
            assert(after_round(registry, now)[after_round(front, now).len() as int]
                == last.dispatched(now));
        }
        assert forall|i: int| 0 <= i < registry.len() && (
        #[trigger] registry[i]).done() implies leaving(registry).contains(
            Reaped { id: registry[i].id, requested: registry[i].shared.remove_requested },
        ) by {
            if i < front.len() {
                let other = Reaped {
                    id: registry[i].id,
                    requested: registry[i].shared.remove_requested,
                };
                assert(front[i] == registry[i]);
                assert(leaving(front).contains(other));
                let k = choose|k: int| 0 <= k < leaving(front).len() && leaving(front)[k] == other;
                assert(leaving(registry)[k] == other);
            }
        }
        assert forall|i: int| 0 <= i < registry.len() && !(
        #[trigger] registry[i]).done() implies after_round(registry, now).contains(
            registry[i].dispatched(now),
        ) by {
            if i < front.len() {
                let other = registry[i].dispatched(now);
                assert(front[i] == registry[i]);
                assert(after_round(front, now).contains(other));
                let k = choose|k: int|
                    0 <= k < after_round(front, now).len() && after_round(front, now)[k] == other;
                assert(after_round(registry, now)[k] == other);
            }
        }
        assert forall|i: int| 0 <= i < after_round(registry, now).len() implies !(
        #[trigger] after_round(registry, now)[i]).done() by {
            if i < after_round(front, now).len() {
                assert(after_round(front, now)[i] == after_round(registry, now)[i]);
            }
        }
    }
}

/// No task is held up by another: what a round does to some tasks does not depend on which
/// other tasks there are.
pub proof fn law_tasks_are_dispatched_independently(
    some: Seq<TaskHandle>,
    others: Seq<TaskHandle>,
    now: Timestamp,
)
    ensures
        after_round(some + others, now) == after_round(some, now) + after_round(others, now),
{
    Seq::filter_distributes_over_add(some, others, |handle: TaskHandle| !handle.done());
    assert(after_round(some + others, now) =~= after_round(some, now) + after_round(others, now));
}

proof fn lemma_drains_keeps<T, H: Host, G>(
    before: TaskScheduler<T, H, G>,
    queue: Seq<SpawnRequest<T, H>>,
    after: TaskScheduler<T, H, G>,
    answers: Seq<SpawnAnswer<H>>,
)
    requires
        TaskScheduler::drains(before, queue, after, answers),
    ensures
        after.handle.shutdown == before.handle.shutdown,
    decreases queue.len(),
{
    if queue.len() > 0 {
        let request = queue.last();
        let earlier = if request.reply is Some {
            answers.drop_last()
        } else {
            answers
        };
        let (mid, result) = choose|mid: TaskScheduler<T, H, G>, result: TaskResult<usize>|
            {
                &&& #[trigger] mid.added(request.task, after, result)
                &&& TaskScheduler::drains(before, queue.drop_last(), mid, earlier)
            };
        lemma_drains_keeps(before, queue.drop_last(), mid, earlier);
    }
}

/// A requested shutdown is remembered until the scheduler acts upon it: no iteration of its flow
/// forgets the request or makes one up.
pub proof fn law_shutdown_request_is_remembered<T, H: Host, G>(
    before: TaskScheduler<T, H, G>,
    found: Option<TaskResult<Task<T, H>>>,
    after: TaskScheduler<T, H, G>,
    answers: Seq<SpawnAnswer<H>>,
    reaped: Seq<Reaped>,
)
    requires
        before.ticked_with(found, after, answers, reaped),
    ensures
        after.handle.shutdown == before.handle.shutdown,
{
    let (first, second, now) = choose|
        first: TaskScheduler<T, H, G>,
        second: TaskScheduler<T, H, G>,
        now: Timestamp,
    |
        {
            &&& before.found_added(found, first)
            &&& #[trigger] first.drained(second, answers)
            &&& #[trigger] second.rounds(now, after, reaped)
        };
    let mid = choose|mid: TaskScheduler<T, H, G>|
        #[trigger] first.queue_taken(mid) && TaskScheduler::drains(
            mid,
            first.spawner.queue@,
            second,
            answers,
        );
    lemma_drains_keeps(mid, first.spawner.queue@, second, answers);
}

/// Tasks without names that are asked for at runtime are all added, in the order they were asked
/// for: each gets the next id and is handed over to be started.
pub proof fn law_spawned_tasks_get_ids_in_order<T, H: Host, G>(
    before: TaskScheduler<T, H, G>,
    queue: Seq<SpawnRequest<T, H>>,
    after: TaskScheduler<T, H, G>,
    answers: Seq<SpawnAnswer<H>>,
)
    requires
        TaskScheduler::drains(before, queue, after, answers),
        forall|i: int| 0 <= i < queue.len() ==> (#[trigger] queue[i]).task.name is None,
        before.next_id + queue.len() <= usize::MAX,
    ensures
        after.next_id == before.next_id + queue.len(),
        after.outbox@.len() == before.outbox@.len() + queue.len(),
        forall|i: int|
            0 <= i < queue.len() ==> #[trigger] after.outbox@[before.outbox@.len() + i] == (Task {
                task_id: (before.next_id + i) as usize,
                ..queue[i].task
            }),
    decreases queue.len(),
{
    if queue.len() > 0 {
        let request = queue.last();
        let front = queue.drop_last();
        let earlier = if request.reply is Some {
            answers.drop_last()
        } else {
            answers
        };
        let (mid, result) = choose|mid: TaskScheduler<T, H, G>, result: TaskResult<usize>|
            {
                &&& #[trigger] mid.added(request.task, after, result)
                &&& TaskScheduler::drains(before, front, mid, earlier)
            };
        assert(forall|i: int| 0 <= i < front.len() ==> front[i] == queue[i]);
        law_spawned_tasks_get_ids_in_order(before, front, mid, earlier);
        assert(queue[queue.len() - 1] == request);
        assert forall|i: int| 0 <= i < queue.len() implies #[trigger] after.outbox@[
            before.outbox@.len() + i
        ] == (Task { task_id: (before.next_id + i) as usize, ..queue[i].task }) by {
            if i < front.len() {
                assert(mid.outbox@[before.outbox@.len() + i] == after.outbox@[
                    before.outbox@.len() + i
                ]);
            }
        }
    }
}

} // verus!
