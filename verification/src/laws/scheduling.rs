//! Adding tasks, picking up spawned ones, rounds, and the scheduler's flow.

use vstd::prelude::*;

use crate::errors::{TaskError, TaskResult};
use crate::generator::TaskGenerator;
use crate::handle::{bears, has_name, SchedulerHandle, TaskHandle};
use crate::laws::{has_come, is_called, knows_name};
use crate::schedule::Zone;
use crate::scheduler::{
    after_round, leaving, spawn_answer, staying, Progress, Reaped, SpawnAnswer, SpawnRequest,
    TaskScheduler, TaskSpawner, TickReport, Wake,
};
use crate::shared::{
    law_book_of_a_life, newest_records, start_times, RunBook, RunEvent, SharedState,
};
use crate::task::{upcoming, Host, OverlapPolicy, Status, Task};
use crate::time::{clock_reads, Timestamp};

verus! {

/// Whether an entry is that of a task which was just registered under `id`: under its own name,
/// overlap policy and history limit, with nothing run, asked for or published yet.
pub open spec fn is_entry_of<T, H: Host>(entry: TaskHandle, task: Task<T, H>, id: int) -> bool {
    &&& entry.id == id
    &&& entry.name == task.name
    &&& entry.overlap == task.overlap
    &&& entry.shared.history_limit == task.history_limit
    &&& !entry.shared.running
    &&& !entry.shared.pending
    &&& !entry.shared.finished
    &&& !entry.shared.paused
    &&& !entry.shared.remove_requested
    &&& !entry.shared.queued
    &&& entry.shared.runs == 0
    &&& entry.shared.run_seq == 0
    &&& entry.shared.state == SharedState { status: Status::Init, next_exec: None }
    &&& entry.shared.steps@.len() == 0
    &&& entry.shared.history@.len() == 0
    &&& entry.shared.last_outcome is None
}

/// The names of the registered tasks.
pub open spec fn names_of(registry: Seq<TaskHandle>) -> Set<Seq<char>> {
    Set::new(|name: Seq<char>| knows_name(registry, name))
}

/// Whether a task has no name, or one that is not taken.
pub open spec fn is_free<T, H: Host>(names: Set<Seq<char>>, task: Task<T, H>) -> bool {
    match task.name {
        Some(name) => !names.contains(name@),
        None => true,
    }
}

/// The names that are taken once a task was added or rejected.
pub open spec fn names_with<T, H: Host>(names: Set<Seq<char>>, task: Task<T, H>) -> Set<Seq<char>> {
    match task.name {
        Some(name) => names.insert(name@),
        None => names,
    }
}

/// Whether adding a task gave `result` and left `after`. A task whose name is taken is rejected
/// by that name, and nothing changes. Any other is registered last, under the next id, and handed
/// over to be started with that id.
pub open spec fn task_added<T, H: Host, G>(
    before: TaskScheduler<T, H, G>,
    task: Task<T, H>,
    after: TaskScheduler<T, H, G>,
    result: TaskResult<usize>,
) -> bool {
    let old_registry = before.handle.registry@;
    let registry = after.handle.registry@;
    if is_free(names_of(old_registry), task) {
        &&& result == Ok::<usize, TaskError>(before.next_id)
        &&& after.next_id == before.next_id + 1
        &&& registry.len() == old_registry.len() + 1
        &&& forall|i: int| 0 <= i < old_registry.len() ==> #[trigger] registry[i] == old_registry[i]
        &&& is_entry_of(registry[old_registry.len() as int], task, before.next_id as int)
        &&& after.outbox@ == before.outbox@.push(Task { task_id: before.next_id, ..task })
        &&& after.handle.shutdown == before.handle.shutdown
        &&& after == TaskScheduler {
            handle: after.handle,
            outbox: after.outbox,
            next_id: after.next_id,
            ..before
        }
    } else {
        &&& result matches Err(TaskError::DuplicateTaskName(name)) && Some(name) == task.name
        &&& after == before
    }
}

proof fn lemma_added<T, H: Host, G>(
    before: TaskScheduler<T, H, G>,
    task: Task<T, H>,
    after: TaskScheduler<T, H, G>,
    result: TaskResult<usize>,
)
    requires
        before.added(task, after, result),
        before.next_id < usize::MAX,
    ensures
        task_added(before, task, after, result),
        names_of(after.handle.registry@) == names_with(names_of(before.handle.registry@), task),
{
    let old_registry = before.handle.registry@;
    let registry = after.handle.registry@;
    assert forall|handle: TaskHandle, name: Seq<char>| bears(handle, name) == is_called(
        handle,
        name,
    ) by {}
    if let Some(name) = task.name {
        assert(has_name(old_registry, name@) == knows_name(old_registry, name@)) by {
            if has_name(old_registry, name@) {
                let i = choose|i: int|
                    0 <= i < old_registry.len() && bears(#[trigger] old_registry[i], name@);
                assert(is_called(old_registry[i], name@));
            }
            if knows_name(old_registry, name@) {
                let i = choose|i: int|
                    0 <= i < old_registry.len() && is_called(#[trigger] old_registry[i], name@);
                assert(bears(old_registry[i], name@));
            }
        }
    }
    if is_free(names_of(old_registry), task) {
        let n = old_registry.len() as int;
        assert forall|i: int| 0 <= i < n implies #[trigger] registry[i] == old_registry[i] by {
            assert(registry.drop_last()[i] == registry[i]);
        }
        assert(registry[n] == registry.last());
        assert forall|name: Seq<char>| knows_name(registry, name) <==> knows_name(
            old_registry,
            name,
        ) || is_called(registry[n], name) by {
            if knows_name(registry, name) {
                let i = choose|i: int|
                    0 <= i < registry.len() && is_called(#[trigger] registry[i], name);
                if i < n {
                    assert(is_called(old_registry[i], name));
                }
            }
            if knows_name(old_registry, name) {
                let i = choose|i: int|
                    0 <= i < old_registry.len() && is_called(#[trigger] old_registry[i], name);
                assert(is_called(registry[i], name));
            }
        }
        assert(names_of(registry) =~= names_with(names_of(old_registry), task));
    } else {
        assert(names_of(registry) =~= names_with(names_of(old_registry), task));
    }
}

/// A task that could not be built is rejected with its own error, and one whose name is taken
/// with that name; neither leaves a trace. Any other gets the next id and is registered with what
/// was set on it.
pub proof fn law_adding_registers_the_task<T, H: Host, G>(
    scheduler: &mut TaskScheduler<T, H, G>,
    task: TaskResult<Task<T, H>>,
    result: TaskResult<usize>,
)
    requires
        call_ensures(TaskScheduler::<T, H, G>::add_task_get_id, (scheduler, task), result),
        old(scheduler).next_id < usize::MAX,
    ensures
        task matches Err(error) ==> result == Err::<usize, TaskError>(error) && *final(scheduler)
            == *old(scheduler),
        task matches Ok(given) ==> task_added(*old(scheduler), given, *final(scheduler), result),
{
    if let Ok(given) = task {
        lemma_added(*old(scheduler), given, *final(scheduler), result);
    }
}

/// Adding a task for chaining adds it just as asking for its id does, and fails on the same tasks
/// with the same errors.
pub proof fn law_adding_for_chaining_adds_alike<T, H: Host, G>(
    scheduler: &mut TaskScheduler<T, H, G>,
    task: TaskResult<Task<T, H>>,
    result: Result<&mut TaskScheduler<T, H, G>, TaskError>,
)
    requires
        call_ensures(TaskScheduler::<T, H, G>::add_task, (scheduler, task), result),
        old(scheduler).next_id < usize::MAX,
    ensures
        match (task, result) {
            (Err(error), Err(told)) => told == error && *final(scheduler) == *old(scheduler),
            (Ok(given), Ok(this)) => task_added(
                *old(scheduler),
                given,
                *this,
                Ok(old(scheduler).next_id),
            ) && *final(scheduler) == *final(this),
            (Ok(given), Err(told)) => task_added(
                *old(scheduler),
                given,
                *final(scheduler),
                Err(told),
            ) && *final(scheduler) == *old(scheduler),
            (Err(_), Ok(_)) => false,
        },
{
    if let Ok(given) = task {
        match result {
            Ok(this) => {
                lemma_added(*old(scheduler), given, *this, Ok(old(scheduler).next_id));
            },
            Err(told) => {
                lemma_added(*old(scheduler), given, *final(scheduler), Err(told));
            },
        }
    }
}

/// A task is registered with the history limit that was set on it: whatever runs of it start and
/// finish, it publishes exactly the records of its newest runs, as many as that limit at most,
/// with ids that follow one another up to the newest.
pub proof fn law_registered_task_keeps_its_history_limit<T, H: Host, G>(
    scheduler: &mut TaskScheduler<T, H, G>,
    task: Task<T, H>,
    id: usize,
    events: Seq<RunEvent>,
)
    requires
        call_ensures(
            TaskScheduler::<T, H, G>::add_task_get_id,
            (scheduler, Ok(task)),
            Ok::<usize, TaskError>(id),
        ),
        old(scheduler).next_id < usize::MAX,
        start_times(events).len() <= usize::MAX,
    ensures
        ({
            let entry = final(scheduler).handle.registry@.last();
            let kept = entry.shared.book().after(events).history;
            let n = start_times(events).len();
            &&& entry.id == id
            &&& kept.len() == if n <= task.history_limit {
                n
            } else {
                task.history_limit as nat
            }
            &&& forall|k: int|
                0 <= k < kept.len() ==> (#[trigger] kept[k]).run_id == n - kept.len() + k
        }),
{
    lemma_added(*old(scheduler), task, *final(scheduler), Ok(id));
    let entry = final(scheduler).handle.registry@.last();
    assert(entry.shared.book() =~= RunBook::fresh(task.history_limit));
    law_book_of_a_life(task.history_limit, events);
    assert(newest_records(events, task.history_limit as nat).len() == if start_times(events).len()
        <= task.history_limit {
        start_times(events).len()
    } else {
        task.history_limit as nat
    });
}

/// The names that are taken once the tasks of a queue were added or rejected.
pub open spec fn names_after<T, H: Host>(
    names: Set<Seq<char>>,
    queue: Seq<SpawnRequest<T, H>>,
) -> Set<Seq<char>>
    decreases queue.len(),
{
    if queue.len() == 0 {
        names
    } else {
        names_with(names_after(names, queue.drop_last()), queue.last().task)
    }
}

/// Whether the request at `i` is accepted: its task has a name that neither a registered task nor
/// an earlier request has, or none.
pub open spec fn is_accepted<T, H: Host>(
    names: Set<Seq<char>>,
    queue: Seq<SpawnRequest<T, H>>,
    i: int,
) -> bool {
    is_free(names_after(names, queue.take(i)), queue[i].task)
}

/// How many requests of a queue are accepted.
pub open spec fn accepted<T, H: Host>(
    names: Set<Seq<char>>,
    queue: Seq<SpawnRequest<T, H>>,
) -> nat
    decreases queue.len(),
{
    if queue.len() == 0 {
        0
    } else {
        accepted(names, queue.drop_last()) + if is_free(
            names_after(names, queue.drop_last()),
            queue.last().task,
        ) {
            1nat
        } else {
            0
        }
    }
}

/// How many requests of a queue are to be answered.
pub open spec fn to_answer<T, H: Host>(queue: Seq<SpawnRequest<T, H>>) -> nat
    decreases queue.len(),
{
    if queue.len() == 0 {
        0
    } else {
        to_answer(queue.drop_last()) + if queue.last().reply is Some {
            1nat
        } else {
            0
        }
    }
}

/// Whether the tasks of a queue were added, oldest first. Each that is accepted gets the next id,
/// is registered behind those before it and handed over to be started; every other is rejected by
/// its name. Whoever waits for an answer gets the id or the rejection, in the order of the queue.
pub open spec fn queue_added<T, H: Host, G>(
    before: TaskScheduler<T, H, G>,
    queue: Seq<SpawnRequest<T, H>>,
    after: TaskScheduler<T, H, G>,
    answers: Seq<SpawnAnswer<H>>,
) -> bool {
    let names = names_of(before.handle.registry@);
    let old_registry = before.handle.registry@;
    let registry = after.handle.registry@;
    &&& after.next_id == before.next_id + accepted(names, queue)
    &&& registry.len() == old_registry.len() + accepted(names, queue)
    &&& after.outbox@.len() == before.outbox@.len() + accepted(names, queue)
    &&& answers.len() == to_answer(queue)
    &&& forall|i: int| 0 <= i < old_registry.len() ==> #[trigger] registry[i] == old_registry[i]
    &&& forall|i: int|
        0 <= i < before.outbox@.len() ==> #[trigger] after.outbox@[i] == before.outbox@[i]
    &&& forall|i: int|
        #![trigger queue[i]]
        0 <= i < queue.len() && is_accepted(names, queue, i) ==> {
            let k = accepted(names, queue.take(i)) as int;
            &&& is_entry_of(registry[old_registry.len() + k], queue[i].task, before.next_id + k)
            &&& after.outbox@[before.outbox@.len() + k] == Task {
                task_id: (before.next_id + k) as usize,
                ..queue[i].task
            }
        }
    &&& forall|i: int|
        #![trigger queue[i]]
        0 <= i < queue.len() ==> (queue[i].reply matches Some(reply) ==> {
            let answer = answers[to_answer(queue.take(i)) as int];
            &&& answer.reply == reply
            &&& if is_accepted(names, queue, i) {
                answer.result == Ok::<usize, TaskError>(
                    (before.next_id + accepted(names, queue.take(i))) as usize,
                )
            } else {
                answer.result matches Err(TaskError::DuplicateTaskName(name)) && Some(name)
                    == queue[i].task.name
            }
        })
    &&& after.handle.shutdown == before.handle.shutdown
    &&& after == TaskScheduler {
        handle: after.handle,
        outbox: after.outbox,
        next_id: after.next_id,
        ..before
    }
}

proof fn lemma_counts_grow<T, H: Host>(
    names: Set<Seq<char>>,
    queue: Seq<SpawnRequest<T, H>>,
    i: int,
)
    requires
        0 <= i <= queue.len(),
    ensures
        accepted(names, queue.take(i)) <= accepted(names, queue),
        to_answer(queue.take(i)) <= to_answer(queue),
        i < queue.len() && is_accepted(names, queue, i) ==> accepted(names, queue.take(i))
            < accepted(names, queue),
        i < queue.len() && queue[i].reply is Some ==> to_answer(queue.take(i)) < to_answer(queue),
    decreases queue.len(),
{
    if i < queue.len() {
        let front = queue.drop_last();
        assert(queue.take(i) =~= front.take(i));
        lemma_counts_grow(names, front, i);
        if i == front.len() {
            assert(front.take(i) =~= front);
        } else {
            assert(front[i] == queue[i]);
        }
    } else {
        assert(queue.take(i) =~= queue);
    }
}

proof fn lemma_registry_grows<T, H: Host, G>(
    before: TaskScheduler<T, H, G>,
    queue: Seq<SpawnRequest<T, H>>,
    mid: TaskScheduler<T, H, G>,
    earlier: Seq<SpawnAnswer<H>>,
    after: TaskScheduler<T, H, G>,
    result: TaskResult<usize>,
    i: int,
)
    requires
        queue.len() > 0,
        queue_added(before, queue.drop_last(), mid, earlier),
        names_of(mid.handle.registry@) == names_after(
            names_of(before.handle.registry@),
            queue.drop_last(),
        ),
        task_added(mid, queue.last().task, after, result),
        before.next_id + queue.len() <= usize::MAX,
        0 <= i < queue.len(),
        is_accepted(names_of(before.handle.registry@), queue, i),
    ensures
        ({
            let k = accepted(names_of(before.handle.registry@), queue.take(i)) as int;
            &&& is_entry_of(
                after.handle.registry@[before.handle.registry@.len() + k],
                queue[i].task,
                before.next_id + k,
            )
            &&& after.outbox@[before.outbox@.len() + k] == Task {
                task_id: (before.next_id + k) as usize,
                ..queue[i].task
            }
        }),
{
    let names = names_of(before.handle.registry@);
    let front = queue.drop_last();
    let k = accepted(names, queue.take(i)) as int;
    if i < front.len() {
        assert(front[i] == queue[i]);
        assert(front.take(i) =~= queue.take(i));
        assert(is_accepted(names, front, i));
        lemma_counts_grow(names, front, i);
        assert(mid.handle.registry@[before.handle.registry@.len() + k]
            == after.handle.registry@[before.handle.registry@.len() + k]);
        assert(mid.outbox@[before.outbox@.len() + k] == after.outbox@[before.outbox@.len() + k]);
    } else {
        assert(queue.take(i) =~= front);
    }
}

proof fn lemma_answers_grow<T, H: Host, G>(
    before: TaskScheduler<T, H, G>,
    queue: Seq<SpawnRequest<T, H>>,
    mid: TaskScheduler<T, H, G>,
    after: TaskScheduler<T, H, G>,
    result: TaskResult<usize>,
    answers: Seq<SpawnAnswer<H>>,
    i: int,
    reply: H::Reply,
)
    requires
        queue.len() > 0,
        queue_added(
            before,
            queue.drop_last(),
            mid,
            if queue.last().reply is Some {
                answers.drop_last()
            } else {
                answers
            },
        ),
        names_of(mid.handle.registry@) == names_after(
            names_of(before.handle.registry@),
            queue.drop_last(),
        ),
        task_added(mid, queue.last().task, after, result),
        queue.last().reply matches Some(last) ==> answers.len() > 0 && answers.last()
            == (SpawnAnswer::<H> { reply: last, result }),
        0 <= i < queue.len(),
        queue[i].reply == Some(reply),
    ensures
        ({
            let names = names_of(before.handle.registry@);
            let answer = answers[to_answer(queue.take(i)) as int];
            &&& answer.reply == reply
            &&& if is_accepted(names, queue, i) {
                answer.result == Ok::<usize, TaskError>(
                    (before.next_id + accepted(names, queue.take(i))) as usize,
                )
            } else {
                answer.result matches Err(TaskError::DuplicateTaskName(name)) && Some(name)
                    == queue[i].task.name
            }
        }),
{
    let names = names_of(before.handle.registry@);
    let front = queue.drop_last();
    let earlier = if queue.last().reply is Some {
        answers.drop_last()
    } else {
        answers
    };
    if i < front.len() {
        assert(front[i] == queue[i]);
        assert(front.take(i) =~= queue.take(i));
        assert(is_accepted(names, front, i) == is_accepted(names, queue, i));
        lemma_counts_grow(names, front, i);
        let k = to_answer(queue.take(i)) as int;
        assert(earlier[k] == answers[k]);
    } else {
        assert(queue.take(i) =~= front);
        assert(answers[earlier.len() as int] == answers.last());
    }
}

proof fn lemma_queue_grows<T, H: Host, G>(
    before: TaskScheduler<T, H, G>,
    queue: Seq<SpawnRequest<T, H>>,
    mid: TaskScheduler<T, H, G>,
    after: TaskScheduler<T, H, G>,
    result: TaskResult<usize>,
    answers: Seq<SpawnAnswer<H>>,
)
    requires
        queue.len() > 0,
        queue_added(
            before,
            queue.drop_last(),
            mid,
            if queue.last().reply is Some {
                answers.drop_last()
            } else {
                answers
            },
        ),
        names_of(mid.handle.registry@) == names_after(
            names_of(before.handle.registry@),
            queue.drop_last(),
        ),
        task_added(mid, queue.last().task, after, result),
        queue.last().reply matches Some(last) ==> answers.len() > 0 && answers.last()
            == (SpawnAnswer::<H> { reply: last, result }),
        before.next_id + queue.len() <= usize::MAX,
    ensures
        queue_added(before, queue, after, answers),
{
    let names = names_of(before.handle.registry@);
    let old_registry = before.handle.registry@;
    let registry = after.handle.registry@;
    let earlier = if queue.last().reply is Some {
        answers.drop_last()
    } else {
        answers
    };
    assert forall|i: int| #![trigger queue[i]]
        0 <= i < queue.len() && is_accepted(names, queue, i) implies ({
        let k = accepted(names, queue.take(i)) as int;
        &&& is_entry_of(registry[old_registry.len() + k], queue[i].task, before.next_id + k)
        &&& after.outbox@[before.outbox@.len() + k] == Task {
            task_id: (before.next_id + k) as usize,
            ..queue[i].task
        }
    }) by {
        lemma_registry_grows(before, queue, mid, earlier, after, result, i);
    }
    assert forall|i: int| #![trigger queue[i]] 0 <= i < queue.len() implies (
    queue[i].reply matches Some(reply) ==> {
        let answer = answers[to_answer(queue.take(i)) as int];
        &&& answer.reply == reply
        &&& if is_accepted(names, queue, i) {
            answer.result == Ok::<usize, TaskError>(
                (before.next_id + accepted(names, queue.take(i))) as usize,
            )
        } else {
            answer.result matches Err(TaskError::DuplicateTaskName(name)) && Some(name)
                == queue[i].task.name
        }
    }) by {
        if let Some(reply) = queue[i].reply {
            lemma_answers_grow(before, queue, mid, after, result, answers, i, reply);
        }
    }
    assert(forall|i: int|
        0 <= i < old_registry.len() ==> #[trigger] registry[i] == mid.handle.registry@[i]);
    assert(forall|i: int|
        0 <= i < before.outbox@.len() ==> #[trigger] after.outbox@[i] == mid.outbox@[i]);
}

proof fn lemma_drains<T, H: Host, G>(
    before: TaskScheduler<T, H, G>,
    queue: Seq<SpawnRequest<T, H>>,
    after: TaskScheduler<T, H, G>,
    answers: Seq<SpawnAnswer<H>>,
)
    requires
        TaskScheduler::drains(before, queue, after, answers),
        before.next_id + queue.len() <= usize::MAX,
    ensures
        queue_added(before, queue, after, answers),
        names_of(after.handle.registry@) == names_after(names_of(before.handle.registry@), queue),
        accepted(names_of(before.handle.registry@), queue) <= queue.len(),
    decreases queue.len(),
{
    if queue.len() > 0 {
        let request = queue.last();
        let front = queue.drop_last();
        let earlier = if request.reply is Some {
            answers.drop_last()
        } else {
            answers
        };
        let (mid, result) = choose|mid: TaskScheduler<T, H, G>, result: TaskResult<usize>|
            {
                &&& #[trigger] mid.added(request.task, after, result)
                &&& TaskScheduler::drains(before, front, mid, earlier)
                &&& request.reply matches Some(reply) ==> answers.len() > 0 && answers.last()
                    == SpawnAnswer::<H> { reply, result }
            };
        lemma_drains(before, front, mid, earlier);
        lemma_added(mid, request.task, after, result);
        lemma_queue_grows(before, queue, mid, after, result, answers);
    }
}

/// Picking up the spawn queue adds its tasks in the order they were asked for, and empties it.
pub proof fn law_spawned_tasks_are_added_in_order<T, H: Host, G>(
    scheduler: &mut TaskScheduler<T, H, G>,
    answers: Vec<SpawnAnswer<H>>,
)
    requires
        call_ensures(TaskScheduler::<T, H, G>::drain_spawns, (scheduler,), answers),
        old(scheduler).next_id + old(scheduler).spawner.queue@.len() <= usize::MAX,
    ensures
        final(scheduler).spawner.queue@.len() == 0,
        final(scheduler).spawner.open == old(scheduler).spawner.open,
        queue_added(
            TaskScheduler { spawner: final(scheduler).spawner, ..*old(scheduler) },
            old(scheduler).spawner.queue@,
            *final(scheduler),
            answers@,
        ),
{
    lemma_drained(*old(scheduler), *final(scheduler), answers@);
}

proof fn lemma_drained<T, H: Host, G>(
    before: TaskScheduler<T, H, G>,
    after: TaskScheduler<T, H, G>,
    answers: Seq<SpawnAnswer<H>>,
)
    requires
        before.drained(after, answers),
        before.next_id + before.spawner.queue@.len() <= usize::MAX,
    ensures
        after.spawner.queue@.len() == 0,
        after.spawner.open == before.spawner.open,
        queue_added(
            TaskScheduler { spawner: after.spawner, ..before },
            before.spawner.queue@,
            after,
            answers,
        ),
{
    let queue = before.spawner.queue@;
    let mid = choose|mid: TaskScheduler<T, H, G>|
        #[trigger] before.queue_taken(mid) && TaskScheduler::drains(mid, queue, after, answers);
    lemma_drains(mid, queue, after, answers);
    assert(after.spawner == mid.spawner);
    assert(mid == TaskScheduler { spawner: after.spawner, ..before });
}

/// Whether a task leaves in a round: it has finished, or its removal was requested.
pub open spec fn is_gone(handle: TaskHandle) -> bool {
    handle.shared.finished || handle.shared.remove_requested
}

/// How many tasks stay in a round.
pub open spec fn kept(registry: Seq<TaskHandle>) -> nat
    decreases registry.len(),
{
    if registry.len() == 0 {
        0
    } else {
        kept(registry.drop_last()) + if is_gone(registry.last()) {
            0nat
        } else {
            1
        }
    }
}

/// A task as a round at `now` leaves it: a run is asked for where its published time has come and
/// it is not paused, at once where it is idle, and after the current one where it is running and
/// queues what it misses.
pub open spec fn asked(handle: TaskHandle, now: Timestamp) -> TaskHandle {
    let due = !handle.shared.paused && match handle.shared.state.next_exec {
        Some(at) => has_come(at, now),
        None => false,
    };
    TaskHandle {
        shared: crate::shared::TaskShared {
            queued: handle.shared.queued || (due && !handle.shared.running),
            pending: handle.shared.pending || (due && handle.shared.running && handle.overlap
                == OverlapPolicy::Queue),
            ..handle.shared
        },
        ..handle
    }
}

/// Whether a round at `now` was run on a registry: what is gone was reported, in order, and what
/// stays is there, in order, each asked for a run by its own state.
pub open spec fn round_run(
    before: Seq<TaskHandle>,
    now: Timestamp,
    after: Seq<TaskHandle>,
    reaped: Seq<Reaped>,
) -> bool {
    &&& after.len() == kept(before)
    &&& reaped.len() == before.len() - kept(before)
    &&& forall|i: int|
        0 <= i < before.len() ==> if is_gone(#[trigger] before[i]) {
            reaped[i - kept(before.take(i))] == Reaped {
                id: before[i].id,
                requested: before[i].shared.remove_requested,
            }
        } else {
            after[kept(before.take(i)) as int] == asked(before[i], now)
        }
}

proof fn lemma_kept(registry: Seq<TaskHandle>, i: int)
    requires
        0 <= i <= registry.len(),
    ensures
        kept(registry.take(i)) <= kept(registry),
        i - kept(registry.take(i)) <= registry.len() - kept(registry),
        kept(registry.take(i)) <= i,
        i < registry.len() && !is_gone(registry[i]) ==> kept(registry.take(i)) < kept(registry),
        i < registry.len() && is_gone(registry[i]) ==> i - kept(registry.take(i)) < registry.len()
            - kept(registry),
    decreases registry.len(),
{
    if i < registry.len() {
        let front = registry.drop_last();
        assert(registry.take(i) =~= front.take(i));
        lemma_kept(front, i);
        if i == front.len() {
            assert(front.take(i) =~= front);
        } else {
            assert(front[i] == registry[i]);
        }
    } else {
        assert(registry.take(i) =~= registry);
        if registry.len() > 0 {
            let front = registry.drop_last();
            lemma_kept(front, front.len() as int);
            assert(front.take(front.len() as int) =~= front);
        }
    }
}

proof fn lemma_round(registry: Seq<TaskHandle>, now: Timestamp)
    ensures
        round_run(registry, now, after_round(registry, now), leaving(registry)),
    decreases registry.len(),
{
    reveal(Seq::filter);
    if registry.len() > 0 {
        let front = registry.drop_last();
        let last = registry.last();
        let n = front.len() as int;
        lemma_round(front, now);
        let told = Reaped { id: last.id, requested: last.shared.remove_requested };
        assert(registry.take(n) =~= front);
        if is_gone(last) {
            assert(leaving(registry) =~= leaving(front).push(told));
            assert(after_round(registry, now) =~= after_round(front, now));
        } else {
            assert(leaving(registry) =~= leaving(front));
            assert(after_round(registry, now) =~= after_round(front, now).push(asked(last, now)));
        }
        assert forall|i: int| 0 <= i < registry.len() implies if is_gone(#[trigger] registry[i]) {
            leaving(registry)[i - kept(registry.take(i))] == Reaped {
                id: registry[i].id,
                requested: registry[i].shared.remove_requested,
            }
        } else {
            after_round(registry, now)[kept(registry.take(i)) as int] == asked(registry[i], now)
        } by {
            if i < n {
                assert(front[i] == registry[i]);
                assert(front.take(i) =~= registry.take(i));
                lemma_kept(front, i);
            }
        }
    }
}

/// A round reaps what has finished or is to be removed, asks every other task for a run by its own
/// state, and touches nothing else.
pub proof fn law_round_reaps_and_asks<T, H: Host, G>(
    scheduler: &mut TaskScheduler<T, H, G>,
    now: Timestamp,
    reaped: Vec<Reaped>,
)
    requires
        call_ensures(TaskScheduler::<T, H, G>::dispatch_round_at, (scheduler, now), reaped),
    ensures
        round_run(
            old(scheduler).handle.registry@,
            now,
            final(scheduler).handle.registry@,
            reaped@,
        ),
        final(scheduler).handle.shutdown == old(scheduler).handle.shutdown,
        *final(scheduler) == (TaskScheduler { handle: final(scheduler).handle, ..*old(scheduler) }),
{
    lemma_round(old(scheduler).handle.registry@, now);
}

/// A round that is run now is run at an instant that the clock read.
pub proof fn law_round_is_run_by_the_clock<T, H: Host, G>(
    scheduler: &mut TaskScheduler<T, H, G>,
    reaped: Vec<Reaped>,
)
    requires
        call_ensures(TaskScheduler::<T, H, G>::dispatch_round, (scheduler,), reaped),
    ensures
        exists|now: Timestamp|
            clock_reads(now) && #[trigger] round_run(
                old(scheduler).handle.registry@,
                now,
                final(scheduler).handle.registry@,
                reaped@,
            ),
        final(scheduler).handle.shutdown == old(scheduler).handle.shutdown,
        *final(scheduler) == (TaskScheduler { handle: final(scheduler).handle, ..*old(scheduler) }),
{
    let now = choose|now: Timestamp|
        clock_reads(now) && #[trigger] old(scheduler).rounds(now, *final(scheduler), reaped@);
    lemma_round(old(scheduler).handle.registry@, now);
    assert(round_run(
        old(scheduler).handle.registry@,
        now,
        final(scheduler).handle.registry@,
        reaped@,
    ));
}

/// Whether a task that the generator may have found was added: nothing happens where nothing was
/// found or it could not be built.
pub open spec fn found_task_added<T, H: Host, G>(
    before: TaskScheduler<T, H, G>,
    found: Option<TaskResult<Task<T, H>>>,
    after: TaskScheduler<T, H, G>,
) -> bool {
    match found {
        Some(Ok(task)) => exists|result: TaskResult<usize>| #[trigger]
            task_added(before, task, after, result),
        _ => after == before,
    }
}

/// Whether one iteration of the flow was run after the generator. What it found is added first,
/// then the spawn queue is picked up, and the round comes last, at an instant that the clock
/// read: so a found task has the lower id, and the names of tasks that leave in the round are
/// still taken.
pub open spec fn flow_run<T, H: Host, G>(
    before: TaskScheduler<T, H, G>,
    found: Option<TaskResult<Task<T, H>>>,
    after: TaskScheduler<T, H, G>,
    answers: Seq<SpawnAnswer<H>>,
    reaped: Seq<Reaped>,
) -> bool {
    exists|
        first: TaskScheduler<T, H, G>,
        start: TaskScheduler<T, H, G>,
        second: TaskScheduler<T, H, G>,
        now: Timestamp,
    |
        {
            &&& #[trigger] found_task_added(before, found, first)
            &&& start == TaskScheduler { spawner: second.spawner, ..first }
            &&& second.spawner.queue@.len() == 0
            &&& second.spawner.open == before.spawner.open
            &&& #[trigger] queue_added(start, before.spawner.queue@, second, answers)
            &&& clock_reads(now)
            &&& #[trigger] round_run(
                second.handle.registry@,
                now,
                after.handle.registry@,
                reaped,
            )
            &&& after.handle.shutdown == before.handle.shutdown
            &&& after == TaskScheduler { handle: after.handle, ..second }
        }
}

proof fn lemma_flow<T, H: Host, G>(
    before: TaskScheduler<T, H, G>,
    found: Option<TaskResult<Task<T, H>>>,
    after: TaskScheduler<T, H, G>,
    answers: Seq<SpawnAnswer<H>>,
    reaped: Seq<Reaped>,
)
    requires
        before.ticked_with(found, after, answers, reaped),
        before.next_id + before.spawner.queue@.len() < usize::MAX,
    ensures
        flow_run(before, found, after, answers, reaped),
{
    let (first, second, now) = choose|
        first: TaskScheduler<T, H, G>,
        second: TaskScheduler<T, H, G>,
        now: Timestamp,
    |
        {
            &&& before.found_added(found, first)
            &&& #[trigger] first.drained(second, answers)
            &&& clock_reads(now)
            &&& #[trigger] second.rounds(now, after, reaped)
        };
    if let Some(Ok(task)) = found {
        let result = choose|result: TaskResult<usize>| #[trigger]
            before.added(task, first, result);
        lemma_added(before, task, first, result);
        assert(task_added(before, task, first, result));
    }
    assert(found_task_added(before, found, first));
    assert(first.spawner == before.spawner);
    lemma_drained(first, second, answers);
    lemma_round(second.handle.registry@, now);
    let start = TaskScheduler { spawner: second.spawner, ..first };
    assert(queue_added(start, before.spawner.queue@, second, answers));
    assert(round_run(second.handle.registry@, now, after.handle.registry@, reaped));
}

/// One iteration of the flow, given what the generator found.
pub proof fn law_flow_adds_before_the_round<T, H: Host, G>(
    scheduler: &mut TaskScheduler<T, H, G>,
    found: Option<TaskResult<Task<T, H>>>,
    report: TickReport<H>,
)
    requires
        call_ensures(TaskScheduler::<T, H, G>::tick_with, (scheduler, found), report),
        old(scheduler).next_id + old(scheduler).spawner.queue@.len() < usize::MAX,
    ensures
        flow_run(*old(scheduler), found, *final(scheduler), report.answers@, report.reaped@),
{
    lemma_flow(*old(scheduler), found, *final(scheduler), report.answers@, report.reaped@);
}

/// Whether the scheduler has stopped: every task is dropped and told by its id, in order, nothing
/// is left to be started, and spawners are refused; the rest stays.
pub open spec fn has_stopped<T, H: Host, G>(
    before: TaskScheduler<T, H, G>,
    after: TaskScheduler<T, H, G>,
    stopped: Seq<usize>,
) -> bool {
    &&& after.handle.registry@.len() == 0
    &&& after.handle.shutdown == before.handle.shutdown
    &&& after.outbox@.len() == 0
    &&& !after.spawner.open
    &&& after.spawner.queue == before.spawner.queue
    &&& after.next_id == before.next_id
    &&& after.task_gen == before.task_gen
    &&& after.sleep == before.sleep
    &&& after.timezone == before.timezone
    &&& stopped.len() == before.handle.registry@.len()
    &&& forall|i: int|
        0 <= i < stopped.len() ==> #[trigger] stopped[i] == before.handle.registry@[i].id
}

/// Waking up for a round runs one iteration of the flow and goes on; waking up for a shutdown
/// stops.
pub proof fn law_wake_runs_a_round_or_stops<T, H: Host, G>(
    scheduler: &mut TaskScheduler<T, H, G>,
    wake: Wake,
    found: Option<TaskResult<Task<T, H>>>,
    progress: Progress<H>,
)
    requires
        call_ensures(TaskScheduler::<T, H, G>::on_wake, (scheduler, wake, found), progress),
        old(scheduler).next_id + old(scheduler).spawner.queue@.len() < usize::MAX,
    ensures
        match (wake, progress) {
            (Wake::Tick, Progress::Continue(report)) => flow_run(
                *old(scheduler),
                found,
                *final(scheduler),
                report.answers@,
                report.reaped@,
            ),
            (Wake::Shutdown, Progress::Stopped(ids)) => has_stopped(
                *old(scheduler),
                *final(scheduler),
                ids@,
            ),
            _ => false,
        },
{
    if let Progress::Continue(report) = progress {
        lemma_flow(*old(scheduler), found, *final(scheduler), report.answers@, report.reaped@);
    }
}

/// Stopping drops every task.
pub proof fn law_stopping_drops_every_task<T, H: Host, G>(
    scheduler: &mut TaskScheduler<T, H, G>,
    stopped: Vec<usize>,
)
    requires
        call_ensures(TaskScheduler::<T, H, G>::shutdown_tasks, (scheduler,), stopped),
    ensures
        has_stopped(*old(scheduler), *final(scheduler), stopped@),
{
}

/// Starting opens the scheduler to spawners and keeps what they asked for.
pub proof fn law_starting_opens_to_spawners<T, H: Host, G>(scheduler: &mut TaskScheduler<T, H, G>)
    requires
        call_ensures(TaskScheduler::<T, H, G>::start, (scheduler,), ()),
    ensures
        final(scheduler).spawner.open,
        final(scheduler).spawner.queue@ == old(scheduler).spawner.queue@,
        final(scheduler).handle == old(scheduler).handle,
        final(scheduler).outbox == old(scheduler).outbox,
        final(scheduler).next_id == old(scheduler).next_id,
        final(scheduler).task_gen == old(scheduler).task_gen,
        final(scheduler).sleep == old(scheduler).sleep,
        final(scheduler).timezone == old(scheduler).timezone,
{
}

/// A scheduler lends its handle and its spawner as they are, and takes them back as they were
/// left, with nothing else changed.
pub proof fn law_scheduler_lends_its_parts<T, H: Host, G>(
    any: TaskScheduler<T, H, G>,
    seen: &SchedulerHandle,
    a: &mut TaskScheduler<T, H, G>,
    handle: &mut SchedulerHandle,
    b: &mut TaskScheduler<T, H, G>,
    spawner: &mut TaskSpawner<T, H>,
)
    requires
        call_ensures(TaskScheduler::<T, H, G>::handle, (&any,), seen),
        call_ensures(TaskScheduler::<T, H, G>::handle_mut, (a,), handle),
        call_ensures(TaskScheduler::<T, H, G>::spawner, (b,), spawner),
    ensures
        *seen == any.handle,
        *old(handle) == old(a).handle,
        *final(a) == (TaskScheduler { handle: *final(handle), ..*old(a) }),
        *old(spawner) == old(b).spawner,
        *final(b) == (TaskScheduler { spawner: *final(spawner), ..*old(b) }),
{
}

/// The tasks to be started are handed over once, all of them and in order.
pub proof fn law_outbox_is_handed_over_once<T, H: Host, G>(
    first: &mut TaskScheduler<T, H, G>,
    second: &mut TaskScheduler<T, H, G>,
    one: Vec<Task<T, H>>,
    two: Vec<Task<T, H>>,
)
    requires
        call_ensures(TaskScheduler::<T, H, G>::take_outbox, (first,), one),
        *old(second) == *final(first),
        call_ensures(TaskScheduler::<T, H, G>::take_outbox, (second,), two),
    ensures
        one@ == old(first).outbox@,
        two@.len() == 0,
        final(second).handle == old(first).handle,
        final(second).spawner == old(first).spawner,
        final(second).next_id == old(first).next_id,
        final(second).task_gen == old(first).task_gen,
        final(second).sleep == old(first).sleep,
        final(second).timezone == old(first).timezone,
{
}

/// A new scheduler has no tasks, no generator and no requests, assigns ids from zero, is open to
/// spawners and waits as long between rounds as it was told, one second by default.
pub proof fn law_new_scheduler_is_empty<T, H: Host, G>(
    sleep: usize,
    timezone: T,
    made: TaskScheduler<T, H, G>,
    plain: TaskScheduler<T, H, G>,
)
    requires
        call_ensures(TaskScheduler::<T, H, G>::new, (sleep, timezone), made),
        call_ensures(TaskScheduler::<T, H, G>::default, (timezone,), plain),
    ensures
        made.sleep == sleep,
        plain.sleep == 1000,
        made.next_id == 0 && plain.next_id == 0,
        made.handle.registry@.len() == 0 && plain.handle.registry@.len() == 0,
        !made.handle.shutdown && !plain.handle.shutdown,
        made.task_gen is None && plain.task_gen is None,
        made.spawner.queue@.len() == 0 && plain.spawner.queue@.len() == 0,
        made.spawner.open && plain.spawner.open,
        made.outbox@.len() == 0 && plain.outbox@.len() == 0,
        made.timezone == timezone && plain.timezone == timezone,
{
}

/// A generator that is set replaces the one before it, and nothing else.
pub proof fn law_generator_is_set<T, H: Host, G>(
    scheduler: &mut TaskScheduler<T, H, G>,
    task_gen: TaskGenerator<T, G>,
    this: &mut TaskScheduler<T, H, G>,
)
    requires
        call_ensures(TaskScheduler::<T, H, G>::set_task_gen, (scheduler, task_gen), this),
    ensures
        old(this).task_gen == Some(task_gen),
        *old(this) == (TaskScheduler { task_gen: Some(task_gen), ..*old(scheduler) }),
        *final(scheduler) == *final(this),
{
}

/// Whether asking for a task at runtime gave `done` and left `after`: what could not be built is
/// refused with its own error, a scheduler that has stopped refuses everything else, and otherwise
/// the request goes to the end of the queue.
pub open spec fn task_asked_for<T, H: Host>(
    before: TaskSpawner<T, H>,
    task: TaskResult<Task<T, H>>,
    reply: Option<H::Reply>,
    after: TaskSpawner<T, H>,
    done: TaskResult<()>,
) -> bool {
    match task {
        Err(error) => done == Err::<(), TaskError>(error) && after == before,
        Ok(task) => if before.open {
            &&& done is Ok
            &&& after.open
            &&& after.queue@.len() == before.queue@.len() + 1
            &&& forall|i: int|
                0 <= i < before.queue@.len() ==> #[trigger] after.queue@[i] == before.queue@[i]
            &&& after.queue@[before.queue@.len() as int].task == task
            &&& after.queue@[before.queue@.len() as int].reply == reply
        } else {
            &&& done matches Err(TaskError::ExecutionError(text)) && text@
                == "scheduler is no longer running"@
            &&& after == before
        },
    }
}

/// A task that is asked for waits in the queue, with the reply its caller waits at, if any.
pub proof fn law_spawning_queues_the_task<T, H: Host>(
    plain: &mut TaskSpawner<T, H>,
    waiting: &mut TaskSpawner<T, H>,
    task: TaskResult<Task<T, H>>,
    reply: H::Reply,
    done: TaskResult<()>,
    told: TaskResult<()>,
)
    requires
        call_ensures(TaskSpawner::<T, H>::spawn, (plain, task), done),
        call_ensures(TaskSpawner::<T, H>::spawn_get_id, (waiting, task, reply), told),
    ensures
        task_asked_for(*old(plain), task, None, *final(plain), done),
        task_asked_for(*old(waiting), task, Some(reply), *final(waiting), told),
{
}

/// A spawner starts open and empty; closed, it has nothing queued and takes nothing.
pub proof fn law_closed_spawner_takes_nothing<T, H: Host>(
    made: TaskSpawner<T, H>,
    closed: &mut TaskSpawner<T, H>,
    asked: &mut TaskSpawner<T, H>,
    task: TaskResult<Task<T, H>>,
    done: TaskResult<()>,
)
    requires
        call_ensures(TaskSpawner::<T, H>::new, (), made),
        call_ensures(TaskSpawner::<T, H>::close, (closed,), ()),
        *old(asked) == *final(closed),
        call_ensures(TaskSpawner::<T, H>::spawn, (asked, task), done),
    ensures
        made.open && made.queue@.len() == 0,
        done is Err,
        final(asked).queue@.len() == 0 && !final(asked).open,
{
}

/// Whoever waits for an answer is told the one that came, and an error where none will.
pub proof fn law_answer_is_told_as_it_came(
    answer: Option<TaskResult<usize>>,
    told: TaskResult<usize>,
)
    requires
        call_ensures(spawn_answer, (answer,), told),
    ensures
        answer matches Some(result) ==> told == result,
        answer is None ==> (told matches Err(TaskError::ExecutionError(text)) && text@
            == "scheduler dropped the spawn request"@),
{
}

/// Whether the generator was run at `now`, given the next occurrence of its schedule. Where there
/// is one and its time has come, its discovery function is called, what it gives is handed out,
/// and it moves on to the next occurrence. Otherwise nothing happens.
pub open spec fn generator_run<T, H: Host, G: FnMut() -> Option<TaskResult<Task<T, H>>>>(
    before: TaskScheduler<T, H, G>,
    now: Timestamp,
    next: Option<Timestamp>,
    after: TaskScheduler<T, H, G>,
    found: Option<TaskResult<Task<T, H>>>,
) -> bool {
    match before.task_gen {
        Some(task_gen) => if task_gen.next_exec matches Some(at) && has_come(at, now) {
            &&& call_ensures(task_gen.discovery_function, (), found)
            &&& after.task_gen matches Some(moved) && {
                &&& moved.next_exec == next
                &&& moved.schedule == task_gen.schedule
                &&& moved.timezone == task_gen.timezone
            }
            &&& after == TaskScheduler { task_gen: after.task_gen, ..before }
        } else {
            found is None && after == before
        },
        None => found is None && after == before,
    }
}

/// The generator is run when it is due.
pub proof fn law_due_generator_is_run<
    T: Zone,
    H: Host,
    G: FnMut() -> Option<TaskResult<Task<T, H>>>,
>(
    scheduler: &mut TaskScheduler<T, H, G>,
    now: Timestamp,
    next: Option<Timestamp>,
    found: Option<TaskResult<Task<T, H>>>,
)
    requires
        call_ensures(TaskScheduler::<T, H, G>::discover_at, (scheduler, now, next), found),
    ensures
        generator_run(*old(scheduler), now, next, *final(scheduler), found),
{
}

/// Whether the generator was run at an instant that the clock read, and moved on to the occurrence
/// of its own schedule in its own zone.
pub open spec fn generator_run_now<T: Zone, H: Host, G: FnMut() -> Option<TaskResult<Task<T, H>>>>(
    before: TaskScheduler<T, H, G>,
    after: TaskScheduler<T, H, G>,
    found: Option<TaskResult<Task<T, H>>>,
) -> bool {
    exists|now: Timestamp, next: Option<Timestamp>|
        {
            &&& clock_reads(now)
            &&& #[trigger] generator_run(before, now, next, after, found)
            &&& before.task_gen matches Some(task_gen) ==> (task_gen.next_exec matches Some(at)
                ==> (has_come(at, now) ==> exists|later: Timestamp|
                clock_reads(later) && #[trigger] call_ensures(
                    T::next_after,
                    (&task_gen.timezone, &task_gen.schedule, later),
                    next,
                )))
        }
}

proof fn lemma_discovers<T: Zone, H: Host, G: FnMut() -> Option<TaskResult<Task<T, H>>>>(
    before: TaskScheduler<T, H, G>,
    after: TaskScheduler<T, H, G>,
    found: Option<TaskResult<Task<T, H>>>,
)
    requires
        before.discovers(after, found),
    ensures
        generator_run_now(before, after, found),
        after.handle == before.handle,
        after.next_id == before.next_id,
        after.spawner == before.spawner,
{
    let (now, next) = choose|now: Timestamp, next: Option<Timestamp>|
        {
            &&& clock_reads(now)
            &&& #[trigger] before.discovered(now, next, after, found)
            &&& match before.task_gen {
                Some(task_gen) => task_gen.due(now) ==> upcoming(
                    task_gen.timezone,
                    task_gen.schedule,
                    next,
                ),
                None => true,
            }
        };
    assert(generator_run(before, now, next, after, found));
}

/// The generator is run by the clock.
pub proof fn law_generator_is_run_by_the_clock<
    T: Zone,
    H: Host,
    G: FnMut() -> Option<TaskResult<Task<T, H>>>,
>(scheduler: &mut TaskScheduler<T, H, G>, found: Option<TaskResult<Task<T, H>>>)
    requires
        call_ensures(TaskScheduler::<T, H, G>::discover, (scheduler,), found),
    ensures
        generator_run_now(*old(scheduler), *final(scheduler), found),
{
    lemma_discovers(*old(scheduler), *final(scheduler), found);
}

/// Running the generator adds what it found, and tells whether it found anything, be it added or
/// rejected.
pub proof fn law_found_task_is_added<
    T: Zone,
    H: Host,
    G: FnMut() -> Option<TaskResult<Task<T, H>>>,
>(scheduler: &mut TaskScheduler<T, H, G>, ran: bool)
    requires
        call_ensures(TaskScheduler::<T, H, G>::run_task_gen, (scheduler,), ran),
        old(scheduler).next_id < usize::MAX,
    ensures
        exists|mid: TaskScheduler<T, H, G>, found: Option<TaskResult<Task<T, H>>>|
            {
                &&& #[trigger] generator_run_now(*old(scheduler), mid, found)
                &&& found_task_added(mid, found, *final(scheduler))
                &&& ran <==> found is Some
            },
{
    let (mid, found) = choose|mid: TaskScheduler<T, H, G>, found: Option<TaskResult<Task<T, H>>>|
        {
            &&& #[trigger] old(scheduler).discovers(mid, found)
            &&& mid.found_added(found, *final(scheduler))
            &&& ran == (found is Some)
        };
    lemma_discovers(*old(scheduler), mid, found);
    if let Some(Ok(task)) = found {
        let result = choose|result: TaskResult<usize>| #[trigger]
            mid.added(task, *final(scheduler), result);
        lemma_added(mid, task, *final(scheduler), result);
        assert(task_added(mid, task, *final(scheduler), result));
    }
    assert(generator_run_now(*old(scheduler), mid, found));
}

/// One iteration of the whole flow runs the generator first.
pub proof fn law_flow_runs_the_generator_first<
    T: Zone,
    H: Host,
    G: FnMut() -> Option<TaskResult<Task<T, H>>>,
>(scheduler: &mut TaskScheduler<T, H, G>, report: TickReport<H>)
    requires
        call_ensures(TaskScheduler::<T, H, G>::tick, (scheduler,), report),
        old(scheduler).next_id + old(scheduler).spawner.queue@.len() < usize::MAX,
    ensures
        exists|mid: TaskScheduler<T, H, G>, found: Option<TaskResult<Task<T, H>>>|
            {
                &&& #[trigger] generator_run_now(*old(scheduler), mid, found)
                &&& flow_run(mid, found, *final(scheduler), report.answers@, report.reaped@)
            },
{
    let (mid, found) = choose|mid: TaskScheduler<T, H, G>, found: Option<TaskResult<Task<T, H>>>|
        #[trigger] old(scheduler).discovers(mid, found) && mid.ticked_with(
            found,
            *final(scheduler),
            report.answers@,
            report.reaped@,
        );
    lemma_discovers(*old(scheduler), mid, found);
    lemma_flow(mid, found, *final(scheduler), report.answers@, report.reaped@);
    assert(generator_run_now(*old(scheduler), mid, found));
}

} // verus!
