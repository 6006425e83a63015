//! Dispatching, controlling and observing registered tasks.

use vstd::prelude::*;

use crate::handle::{
    bears, first_with_id, first_with_name, has_name, replaced, replaced_by_name, SchedulerHandle,
    TaskHandle, TaskState,
};
use crate::laws::{
    has_come, ids_differ, is_called, is_first_called, is_first_with, knows_id, knows_name, leads_to,
    names_differ,
};
use crate::shared::TaskShared;
use crate::task::{OverlapPolicy, RunRecord, Status, StepState};
use crate::time::Timestamp;

verus! {

/// A round asks for a run only where a next execution time is published and has come, and the task
/// is not paused: at once where the task is idle, and after the current run where it is running
/// and queues what it misses. Everything else stays as it was.
pub proof fn law_dispatch_asks_when_due(handle: &mut TaskHandle, now: Timestamp)
    requires
        call_ensures(TaskHandle::dispatch, (handle, now), ()),
    ensures
        ({
            let before = *old(handle);
            let after = *final(handle);
            let asked = !before.shared.paused && match before.shared.state.next_exec {
                Some(at) => has_come(at, now),
                None => false,
            };
            let queues = before.overlap == OverlapPolicy::Queue;
            &&& after.shared.queued <==> before.shared.queued || (asked && !before.shared.running)
            &&& after.shared.pending <==> before.shared.pending || (asked && before.shared.running
                && queues)
            &&& after == TaskHandle {
                shared: TaskShared {
                    queued: after.shared.queued,
                    pending: after.shared.pending,
                    ..before.shared
                },
                ..before
            }
        }),
{
}

/// Where no next execution time is published, or it has not come, a round leaves a task exactly as
/// it was, be it running or idle.
pub proof fn law_dispatch_leaves_what_is_not_due(handle: &mut TaskHandle, now: Timestamp)
    requires
        call_ensures(TaskHandle::dispatch, (handle, now), ()),
        match old(handle).shared.state.next_exec {
            Some(at) => !has_come(at, now),
            None => true,
        },
    ensures
        *final(handle) == *old(handle),
{
}

/// Asking for a run heeds neither the schedule nor a pause: it is queued for an idle task and
/// noted for a running one, and nothing else changes.
pub proof fn law_request_asks_for_one_run(handle: &mut TaskHandle)
    requires
        call_ensures(TaskHandle::request_run, (handle,), ()),
    ensures
        final(handle).shared.queued <==> old(handle).shared.queued || !old(handle).shared.running,
        final(handle).shared.pending <==> old(handle).shared.pending || old(handle).shared.running,
        *final(handle) == (TaskHandle {
            shared: TaskShared {
                queued: final(handle).shared.queued,
                pending: final(handle).shared.pending,
                ..old(handle).shared
            },
            ..*old(handle)
        }),
{
}

/// A task is reaped just where it has finished or its removal was requested.
pub proof fn law_done_is_finished_or_removed(handle: TaskHandle, done: bool)
    requires
        call_ensures(TaskHandle::is_done, (&handle,), done),
    ensures
        done <==> handle.shared.finished || handle.shared.remove_requested,
{
}

/// A snapshot tells a task's id, name, status, next execution time, flags, last outcome and number
/// of runs as they are published.
pub proof fn law_snapshot_is_what_is_published(handle: TaskHandle, state: TaskState)
    requires
        call_ensures(TaskHandle::to_state, (&handle,), state),
    ensures
        state.id == handle.id,
        state.name == handle.name,
        state.status == handle.shared.state.status,
        state.next_exec == handle.shared.state.next_exec,
        state.running == handle.shared.running,
        state.paused == handle.shared.paused,
        state.last_outcome == handle.shared.last_outcome,
        state.run_count == handle.shared.runs,
{
}

/// A copied snapshot tells the same.
pub proof fn law_copied_snapshot_tells_the_same(state: TaskState, copy: TaskState)
    requires
        call_ensures(<TaskState as Clone>::clone, (&state,), copy),
    ensures
        copy.id == state.id && copy.name == state.name && copy.status == state.status,
        copy.next_exec == state.next_exec && copy.running == state.running,
        copy.paused == state.paused && copy.last_outcome == state.last_outcome,
        copy.run_count == state.run_count,
{
}

proof fn lemma_replaced(
    before: Seq<TaskHandle>,
    id: usize,
    changed: spec_fn(TaskHandle) -> TaskHandle,
    after: Seq<TaskHandle>,
)
    requires
        ids_differ(before),
        replaced(before, id, changed, after),
    ensures
        after.len() == before.len(),
        forall|i: int|
            0 <= i < before.len() ==> #[trigger] after[i] == if before[i].id == id {
                changed(before[i])
            } else {
                before[i]
            },
{
    let at = choose|at: int|
        #[trigger] first_with_id(before, id, at) && after == before.update(at, changed(before[at]));
    assert forall|i: int| 0 <= i < before.len() implies #[trigger] after[i] == if before[i].id
        == id {
        changed(before[i])
    } else {
        before[i]
    } by {
        if i != at {
            assert(before[i].id != before[at].id);
        }
    }
}

proof fn lemma_replaced_by_name(
    before: Seq<TaskHandle>,
    name: Seq<char>,
    changed: spec_fn(TaskHandle) -> TaskHandle,
    after: Seq<TaskHandle>,
)
    requires
        ids_differ(before),
        names_differ(before),
        replaced_by_name(before, name, changed, after),
    ensures
        after.len() == before.len(),
        forall|i: int|
            0 <= i < before.len() ==> #[trigger] after[i] == if is_called(before[i], name) {
                changed(before[i])
            } else {
                before[i]
            },
{
    let k = choose|k: int|
        #[trigger] first_with_name(before, name, k) && replaced(
            before,
            before[k].id,
            changed,
            after,
        );
    assert(is_called(before[k], name));
    lemma_replaced(before, before[k].id, changed, after);
    assert forall|i: int| 0 <= i < before.len() implies #[trigger] after[i] == if is_called(
        before[i],
        name,
    ) {
        changed(before[i])
    } else {
        before[i]
    } by {
        if i != k {
            assert(before[i].id != before[k].id);
            if is_called(before[i], name) {
                assert(is_called(before[k], name));
            }
        }
    }
}

/// Pausing a task by id holds back the schedule of exactly the task with the id, whatever ids are
/// registered, and leaves every other one as it was. It tells whether there is such a task.
pub proof fn law_pause_changes_one_task(handle: &mut SchedulerHandle, id: usize, found: bool)
    requires
        call_ensures(SchedulerHandle::pause, (handle, id), found),
        ids_differ(old(handle).registry@),
    ensures
        ({
            let before = old(handle).registry@;
            let after = final(handle).registry@;
            &&& found <==> knows_id(before, id)
            &&& final(handle).shutdown == old(handle).shutdown
            &&& after.len() == before.len()
            &&& forall|i: int|
                0 <= i < before.len() ==> #[trigger] after[i] == if before[i].id == id {
                    TaskHandle {
                        shared: TaskShared { paused: true, ..before[i].shared },
                        ..before[i]
                    }
                } else {
                    before[i]
                }
        }),
{
    let before = old(handle).registry@;
    let after = final(handle).registry@;
    if found {
        lemma_replaced(before, id, |handle: TaskHandle| handle.with_paused(true), after);
    }
}

/// Pausing a task by name holds back the schedule of exactly the task that bears the name,
/// whatever ids are registered, and leaves every other one as it was. It tells whether there is
/// such a task.
pub proof fn law_pause_name_changes_one_task(handle: &mut SchedulerHandle, name: &str, found: bool)
    requires
        call_ensures(SchedulerHandle::pause_name, (handle, name), found),
        ids_differ(old(handle).registry@),
        names_differ(old(handle).registry@),
    ensures
        ({
            let before = old(handle).registry@;
            let after = final(handle).registry@;
            &&& found <==> knows_name(before, name@)
            &&& final(handle).shutdown == old(handle).shutdown
            &&& after.len() == before.len()
            &&& forall|i: int|
                0 <= i < before.len() ==> #[trigger] after[i] == if is_called(before[i], name@) {
                    TaskHandle {
                        shared: TaskShared { paused: true, ..before[i].shared },
                        ..before[i]
                    }
                } else {
                    before[i]
                }
        }),
{
    let before = old(handle).registry@;
    let after = final(handle).registry@;
    assert forall|i: int| 0 <= i < before.len() implies bears(#[trigger] before[i], name@)
        == is_called(before[i], name@) by {}
    if found {
        lemma_replaced_by_name(before, name@, |handle: TaskHandle| handle.with_paused(true), after);
    }
}

/// Resuming a task by id lets go the schedule of exactly the task with the id, whatever ids are
/// registered, and leaves every other one as it was. It tells whether there is such a task.
pub proof fn law_resume_changes_one_task(handle: &mut SchedulerHandle, id: usize, found: bool)
    requires
        call_ensures(SchedulerHandle::resume, (handle, id), found),
        ids_differ(old(handle).registry@),
    ensures
        ({
            let before = old(handle).registry@;
            let after = final(handle).registry@;
            &&& found <==> knows_id(before, id)
            &&& final(handle).shutdown == old(handle).shutdown
            &&& after.len() == before.len()
            &&& forall|i: int|
                0 <= i < before.len() ==> #[trigger] after[i] == if before[i].id == id {
                    TaskHandle {
                        shared: TaskShared { paused: false, ..before[i].shared },
                        ..before[i]
                    }
                } else {
                    before[i]
                }
        }),
{
    let before = old(handle).registry@;
    let after = final(handle).registry@;
    if found {
        lemma_replaced(before, id, |handle: TaskHandle| handle.with_paused(false), after);
    }
}

/// Resuming a task by name lets go the schedule of exactly the task that bears the name, whatever
/// ids are registered, and leaves every other one as it was. It tells whether there is such a
/// task.
pub proof fn law_resume_name_changes_one_task(handle: &mut SchedulerHandle, name: &str, found: bool)
    requires
        call_ensures(SchedulerHandle::resume_name, (handle, name), found),
        ids_differ(old(handle).registry@),
        names_differ(old(handle).registry@),
    ensures
        ({
            let before = old(handle).registry@;
            let after = final(handle).registry@;
            &&& found <==> knows_name(before, name@)
            &&& final(handle).shutdown == old(handle).shutdown
            &&& after.len() == before.len()
            &&& forall|i: int|
                0 <= i < before.len() ==> #[trigger] after[i] == if is_called(before[i], name@) {
                    TaskHandle {
                        shared: TaskShared { paused: false, ..before[i].shared },
                        ..before[i]
                    }
                } else {
                    before[i]
                }
        }),
{
    let before = old(handle).registry@;
    let after = final(handle).registry@;
    assert forall|i: int| 0 <= i < before.len() implies bears(#[trigger] before[i], name@)
        == is_called(before[i], name@) by {}
    if found {
        lemma_replaced_by_name(
            before,
            name@,
            |handle: TaskHandle| handle.with_paused(false),
            after,
        );
    }
}

/// Removing a task by id requests the removal of exactly the task with the id, whatever ids are
/// registered, and leaves every other one as it was. It tells whether there is such a task.
pub proof fn law_remove_changes_one_task(handle: &mut SchedulerHandle, id: usize, found: bool)
    requires
        call_ensures(SchedulerHandle::remove, (handle, id), found),
        ids_differ(old(handle).registry@),
    ensures
        ({
            let before = old(handle).registry@;
            let after = final(handle).registry@;
            &&& found <==> knows_id(before, id)
            &&& final(handle).shutdown == old(handle).shutdown
            &&& after.len() == before.len()
            &&& forall|i: int|
                0 <= i < before.len() ==> #[trigger] after[i] == if before[i].id == id {
                    TaskHandle {
                        shared: TaskShared { remove_requested: true, ..before[i].shared },
                        ..before[i]
                    }
                } else {
                    before[i]
                }
        }),
{
    let before = old(handle).registry@;
    let after = final(handle).registry@;
    if found {
        lemma_replaced(before, id, |handle: TaskHandle| handle.with_removal(), after);
    }
}

/// Removing a task by name requests the removal of exactly the task that bears the name, whatever
/// ids are registered, and leaves every other one as it was. It tells whether there is such a
/// task.
pub proof fn law_remove_name_changes_one_task(handle: &mut SchedulerHandle, name: &str, found: bool)
    requires
        call_ensures(SchedulerHandle::remove_name, (handle, name), found),
        ids_differ(old(handle).registry@),
        names_differ(old(handle).registry@),
    ensures
        ({
            let before = old(handle).registry@;
            let after = final(handle).registry@;
            &&& found <==> knows_name(before, name@)
            &&& final(handle).shutdown == old(handle).shutdown
            &&& after.len() == before.len()
            &&& forall|i: int|
                0 <= i < before.len() ==> #[trigger] after[i] == if is_called(before[i], name@) {
                    TaskHandle {
                        shared: TaskShared { remove_requested: true, ..before[i].shared },
                        ..before[i]
                    }
                } else {
                    before[i]
                }
        }),
{
    let before = old(handle).registry@;
    let after = final(handle).registry@;
    assert forall|i: int| 0 <= i < before.len() implies bears(#[trigger] before[i], name@)
        == is_called(before[i], name@) by {}
    if found {
        lemma_replaced_by_name(before, name@, |handle: TaskHandle| handle.with_removal(), after);
    }
}

/// Triggering a task by id asks for one run of exactly the task with the id, whatever ids are
/// registered, and leaves every other one as it was. It tells whether there is such a task.
pub proof fn law_trigger_changes_one_task(handle: &mut SchedulerHandle, id: usize, found: bool)
    requires
        call_ensures(SchedulerHandle::trigger, (handle, id), found),
        ids_differ(old(handle).registry@),
    ensures
        ({
            let before = old(handle).registry@;
            let after = final(handle).registry@;
            &&& found <==> knows_id(before, id)
            &&& final(handle).shutdown == old(handle).shutdown
            &&& after.len() == before.len()
            &&& forall|i: int|
                0 <= i < before.len() ==> #[trigger] after[i] == if before[i].id == id {
                    TaskHandle {
                        shared: TaskShared {
                            queued: before[i].shared.queued || !before[i].shared.running,
                            pending: before[i].shared.pending || before[i].shared.running,
                            ..before[i].shared
                        },
                        ..before[i]
                    }
                } else {
                    before[i]
                }
        }),
{
    let before = old(handle).registry@;
    let after = final(handle).registry@;
    if found {
        lemma_replaced(before, id, |handle: TaskHandle| handle.with_run(), after);
    }
}

/// Triggering a task by name asks for one run of exactly the task that bears the name, whatever
/// ids are registered, and leaves every other one as it was. It tells whether there is such a
/// task.
pub proof fn law_trigger_name_changes_one_task(
    handle: &mut SchedulerHandle,
    name: &str,
    found: bool,
)
    requires
        call_ensures(SchedulerHandle::trigger_name, (handle, name), found),
        ids_differ(old(handle).registry@),
        names_differ(old(handle).registry@),
    ensures
        ({
            let before = old(handle).registry@;
            let after = final(handle).registry@;
            &&& found <==> knows_name(before, name@)
            &&& final(handle).shutdown == old(handle).shutdown
            &&& after.len() == before.len()
            &&& forall|i: int|
                0 <= i < before.len() ==> #[trigger] after[i] == if is_called(before[i], name@) {
                    TaskHandle {
                        shared: TaskShared {
                            queued: before[i].shared.queued || !before[i].shared.running,
                            pending: before[i].shared.pending || before[i].shared.running,
                            ..before[i].shared
                        },
                        ..before[i]
                    }
                } else {
                    before[i]
                }
        }),
{
    let before = old(handle).registry@;
    let after = final(handle).registry@;
    assert forall|i: int| 0 <= i < before.len() implies bears(#[trigger] before[i], name@)
        == is_called(before[i], name@) by {}
    if found {
        lemma_replaced_by_name(before, name@, |handle: TaskHandle| handle.with_run(), after);
    }
}

/// Controlling a task by name does to the registry what controlling it by its id does.
pub proof fn law_name_and_id_control_alike(
    by_name: &mut SchedulerHandle,
    name: &str,
    by_id: &mut SchedulerHandle,
    id: usize,
    at: int,
    found_name: bool,
    found_id: bool,
)
    requires
        old(by_name).registry@ == old(by_id).registry@,
        ids_differ(old(by_id).registry@),
        names_differ(old(by_id).registry@),
        0 <= at < old(by_id).registry@.len(),
        old(by_id).registry@[at].id == id,
        is_called(old(by_id).registry@[at], name@),
        ({
            ||| call_ensures(SchedulerHandle::pause_name, (by_name, name), found_name)
                && call_ensures(SchedulerHandle::pause, (by_id, id), found_id)
            ||| call_ensures(SchedulerHandle::resume_name, (by_name, name), found_name)
                && call_ensures(SchedulerHandle::resume, (by_id, id), found_id)
            ||| call_ensures(SchedulerHandle::trigger_name, (by_name, name), found_name)
                && call_ensures(SchedulerHandle::trigger, (by_id, id), found_id)
            ||| call_ensures(SchedulerHandle::remove_name, (by_name, name), found_name)
                && call_ensures(SchedulerHandle::remove, (by_id, id), found_id)
        }),
    ensures
        found_name && found_id,
        final(by_name).registry@ == final(by_id).registry@,
{
    let before = old(by_id).registry@;
    assert(bears(before[at], name@));
    assert(found_name && found_id);
    assert forall|i: int| 0 <= i < before.len() implies (is_called(#[trigger] before[i], name@)
        <==> before[i].id == id) by {
        if i != at {
            assert(before[i].id != before[at].id);
            if is_called(before[i], name@) {
                assert(is_called(before[at], name@));
            }
        }
    }
    if call_ensures(SchedulerHandle::pause_name, (by_name, name), found_name) && call_ensures(
        SchedulerHandle::pause,
        (by_id, id),
        found_id,
    ) {
        law_pause_name_changes_one_task(by_name, name, found_name);
        law_pause_changes_one_task(by_id, id, found_id);
    } else if call_ensures(SchedulerHandle::resume_name, (by_name, name), found_name)
        && call_ensures(SchedulerHandle::resume, (by_id, id), found_id) {
        law_resume_name_changes_one_task(by_name, name, found_name);
        law_resume_changes_one_task(by_id, id, found_id);
    } else if call_ensures(SchedulerHandle::trigger_name, (by_name, name), found_name)
        && call_ensures(SchedulerHandle::trigger, (by_id, id), found_id) {
        law_trigger_name_changes_one_task(by_name, name, found_name);
        law_trigger_changes_one_task(by_id, id, found_id);
    } else {
        law_remove_name_changes_one_task(by_name, name, found_name);
        law_remove_changes_one_task(by_id, id, found_id);
    }
    assert(final(by_name).registry@ =~= final(by_id).registry@);
}

/// A position that is found is that of the first task asked for, and none is found only where
/// there is no such task.
pub proof fn law_find_leads_to_the_task(
    handle: SchedulerHandle,
    id: usize,
    name: &str,
    by_id: Option<usize>,
    by_name: Option<usize>,
)
    requires
        call_ensures(SchedulerHandle::find, (&handle, id), by_id),
        call_ensures(SchedulerHandle::find_name, (&handle, name), by_name),
    ensures
        by_id is Some <==> knows_id(handle.registry@, id),
        by_id matches Some(i) ==> is_first_with(handle.registry@, id, i as int),
        by_name is Some <==> knows_name(handle.registry@, name@),
        by_name matches Some(i) ==> is_first_called(handle.registry@, name@, i as int),
{
    let registry = handle.registry@;
    assert forall|i: int| 0 <= i < registry.len() implies bears(#[trigger] registry[i], name@)
        == is_called(registry[i], name@) by {}
}

/// What is told of a task by id or by name is told of that very task, and nothing is told just
/// where there is no such task.
pub proof fn law_queries_tell_of_the_task(
    handle: SchedulerHandle,
    id: usize,
    name: &str,
    state: Option<TaskState>,
    status: Option<Status>,
    found: Option<usize>,
    status_by_name: Option<Status>,
    at: int,
    named: int,
)
    requires
        call_ensures(SchedulerHandle::state_of, (&handle, id), state),
        call_ensures(SchedulerHandle::status_of, (&handle, id), status),
        call_ensures(SchedulerHandle::id_of_name, (&handle, name), found),
        call_ensures(SchedulerHandle::status_of_name, (&handle, name), status_by_name),
        ids_differ(handle.registry@),
        names_differ(handle.registry@),
    ensures
        state is Some <==> knows_id(handle.registry@, id),
        status is Some <==> knows_id(handle.registry@, id),
        found is Some <==> knows_name(handle.registry@, name@),
        status_by_name is Some <==> knows_name(handle.registry@, name@),
        0 <= at < handle.registry@.len() && handle.registry@[at].id == id ==> {
            let task = handle.registry@[at];
            &&& status == Some(task.shared.state.status)
            &&& state == Some(
                TaskState {
                    id,
                    name: task.name,
                    status: task.shared.state.status,
                    next_exec: task.shared.state.next_exec,
                    running: task.shared.running,
                    paused: task.shared.paused,
                    last_outcome: task.shared.last_outcome,
                    run_count: task.shared.runs,
                },
            )
        },
        0 <= named < handle.registry@.len() && is_called(handle.registry@[named], name@) ==> {
            let task = handle.registry@[named];
            &&& found == Some(task.id)
            &&& status_by_name == Some(task.shared.state.status)
        },
{
    let registry = handle.registry@;
    assert forall|i: int| 0 <= i < registry.len() implies bears(#[trigger] registry[i], name@)
        == is_called(registry[i], name@) by {}
}

/// Observers are told of every live task, in the order of the registry, of its runs and of its
/// steps as they are published; of a task that is not registered nothing is told.
pub proof fn law_observers_see_what_is_published(
    handle: SchedulerHandle,
    id: usize,
    count: usize,
    states: Vec<TaskState>,
    history: Vec<RunRecord>,
    steps: Vec<StepState>,
    at: int,
)
    requires
        call_ensures(SchedulerHandle::task_count, (&handle,), count),
        call_ensures(SchedulerHandle::statuses, (&handle,), states),
        call_ensures(SchedulerHandle::history, (&handle, id), history),
        call_ensures(SchedulerHandle::step_states, (&handle, id), steps),
        ids_differ(handle.registry@),
    ensures
        count == handle.registry@.len(),
        states@.len() == handle.registry@.len(),
        0 <= at < handle.registry@.len() ==> {
            let task = handle.registry@[at];
            states@[at] == TaskState {
                id: task.id,
                name: task.name,
                status: task.shared.state.status,
                next_exec: task.shared.state.next_exec,
                running: task.shared.running,
                paused: task.shared.paused,
                last_outcome: task.shared.last_outcome,
                run_count: task.shared.runs,
            }
        },
        0 <= at < handle.registry@.len() && handle.registry@[at].id == id ==> {
            &&& history@ == handle.registry@[at].shared.history@
            &&& steps@ == handle.registry@[at].shared.steps@
        },
        !knows_id(handle.registry@, id) ==> history@.len() == 0 && steps@.len() == 0,
{
}

/// A task with its schedule held back.
pub open spec fn held_back(task: TaskHandle) -> TaskHandle {
    TaskHandle { shared: TaskShared { paused: true, ..task.shared }, ..task }
}

/// A task with its schedule let go again.
pub open spec fn let_go(task: TaskHandle) -> TaskHandle {
    TaskHandle { shared: TaskShared { paused: false, ..task.shared }, ..task }
}

/// A task with its removal requested.
pub open spec fn taken_out(task: TaskHandle) -> TaskHandle {
    TaskHandle { shared: TaskShared { remove_requested: true, ..task.shared }, ..task }
}

/// A task with a run asked for: at once where it is idle, and after the current one where it is
/// running.
pub open spec fn run_asked(task: TaskHandle) -> TaskHandle {
    TaskHandle {
        shared: TaskShared {
            queued: task.shared.queued || !task.shared.running,
            pending: task.shared.pending || task.shared.running,
            ..task.shared
        },
        ..task
    }
}

/// Where ids are not told apart, controlling a task by id changes the first one with the id, and
/// no other.
pub proof fn law_first_task_with_the_id_is_changed(
    paused: &mut SchedulerHandle,
    resumed: &mut SchedulerHandle,
    triggered: &mut SchedulerHandle,
    removed: &mut SchedulerHandle,
    id: usize,
    found: bool,
    at: int,
)
    requires
        call_ensures(SchedulerHandle::pause, (paused, id), found),
        call_ensures(SchedulerHandle::resume, (resumed, id), found),
        call_ensures(SchedulerHandle::trigger, (triggered, id), found),
        call_ensures(SchedulerHandle::remove, (removed, id), found),
    ensures
        ({
            let before = old(paused).registry@;
            let after = final(paused).registry@;
            &&& found <==> knows_id(before, id)
            &&& !found ==> after == before
            &&& is_first_with(before, id, at) ==> after == before.update(at, held_back(before[at]))
        }),
        ({
            let before = old(resumed).registry@;
            let after = final(resumed).registry@;
            &&& found <==> knows_id(before, id)
            &&& !found ==> after == before
            &&& is_first_with(before, id, at) ==> after == before.update(at, let_go(before[at]))
        }),
        ({
            let before = old(triggered).registry@;
            let after = final(triggered).registry@;
            &&& found <==> knows_id(before, id)
            &&& !found ==> after == before
            &&& is_first_with(before, id, at) ==> after == before.update(at, run_asked(before[at]))
        }),
        ({
            let before = old(removed).registry@;
            let after = final(removed).registry@;
            &&& found <==> knows_id(before, id)
            &&& !found ==> after == before
            &&& is_first_with(before, id, at) ==> after == before.update(at, taken_out(before[at]))
        }),
{
}

proof fn lemma_leads_to(registry: Seq<TaskHandle>, name: Seq<char>, at: int)
    ensures
        has_name(registry, name) <==> knows_name(registry, name),
        forall|k: int| #[trigger]
            first_with_name(registry, name, k) <==> is_first_called(registry, name, k),
        leads_to(registry, name, at) ==> forall|k: int, i: int|
            #[trigger] first_with_name(registry, name, k) && #[trigger] first_with_id(
                registry,
                registry[k].id,
                i,
            ) ==> i == at,
{
    assert forall|i: int| 0 <= i < registry.len() implies bears(#[trigger] registry[i], name)
        == is_called(registry[i], name) by {}
    assert forall|k: int| #[trigger]
        first_with_name(registry, name, k) <==> is_first_called(registry, name, k) by {}
    if leads_to(registry, name, at) {
        let m = choose|m: int| #[trigger]
            is_first_called(registry, name, m) && is_first_with(registry, registry[m].id, at);
        assert forall|k: int, i: int|
            #[trigger] first_with_name(registry, name, k) && #[trigger] first_with_id(
                registry,
                registry[k].id,
                i,
            ) implies i == at by {
            assert(is_first_called(registry, name, k));
            assert(k == m) by {
                if k < m {
                    assert(!is_called(registry[k], name));
                } else if m < k {
                    assert(!bears(registry[m], name));
                }
            }
            if i < at {
                assert(registry[i].id != registry[k].id);
            } else if at < i {
                assert(registry[at].id != registry[k].id);
            }
        }
    }
}

/// Where ids or names are not told apart, controlling a task by name changes the task that the
/// name leads to, and no other.
pub proof fn law_task_that_the_name_leads_to_is_changed(
    paused: &mut SchedulerHandle,
    resumed: &mut SchedulerHandle,
    triggered: &mut SchedulerHandle,
    removed: &mut SchedulerHandle,
    name: &str,
    found: bool,
    at: int,
)
    requires
        call_ensures(SchedulerHandle::pause_name, (paused, name), found),
        call_ensures(SchedulerHandle::resume_name, (resumed, name), found),
        call_ensures(SchedulerHandle::trigger_name, (triggered, name), found),
        call_ensures(SchedulerHandle::remove_name, (removed, name), found),
    ensures
        ({
            let before = old(paused).registry@;
            let after = final(paused).registry@;
            &&& found <==> knows_name(before, name@)
            &&& !found ==> after == before
            &&& leads_to(before, name@, at) ==> after == before.update(at, held_back(before[at]))
        }),
        ({
            let before = old(resumed).registry@;
            let after = final(resumed).registry@;
            &&& found <==> knows_name(before, name@)
            &&& !found ==> after == before
            &&& leads_to(before, name@, at) ==> after == before.update(at, let_go(before[at]))
        }),
        ({
            let before = old(triggered).registry@;
            let after = final(triggered).registry@;
            &&& found <==> knows_name(before, name@)
            &&& !found ==> after == before
            &&& leads_to(before, name@, at) ==> after == before.update(at, run_asked(before[at]))
        }),
        ({
            let before = old(removed).registry@;
            let after = final(removed).registry@;
            &&& found <==> knows_name(before, name@)
            &&& !found ==> after == before
            &&& leads_to(before, name@, at) ==> after == before.update(at, taken_out(before[at]))
        }),
{
    lemma_leads_to(old(paused).registry@, name@, at);
    lemma_leads_to(old(resumed).registry@, name@, at);
    lemma_leads_to(old(triggered).registry@, name@, at);
    lemma_leads_to(old(removed).registry@, name@, at);
}

/// Where ids or names are not told apart, what is told is told of the first task with the id, or
/// of the task that the name leads to.
pub proof fn law_queries_tell_of_the_first_task(
    handle: SchedulerHandle,
    id: usize,
    name: &str,
    state: Option<TaskState>,
    status: Option<Status>,
    found: Option<usize>,
    status_by_name: Option<Status>,
    history: Vec<RunRecord>,
    steps: Vec<StepState>,
    at: int,
    named: int,
    led: int,
)
    requires
        call_ensures(SchedulerHandle::state_of, (&handle, id), state),
        call_ensures(SchedulerHandle::status_of, (&handle, id), status),
        call_ensures(SchedulerHandle::id_of_name, (&handle, name), found),
        call_ensures(SchedulerHandle::status_of_name, (&handle, name), status_by_name),
        call_ensures(SchedulerHandle::history, (&handle, id), history),
        call_ensures(SchedulerHandle::step_states, (&handle, id), steps),
    ensures
        is_first_with(handle.registry@, id, at) ==> {
            let task = handle.registry@[at];
            &&& status == Some(task.shared.state.status)
            &&& history@ == task.shared.history@
            &&& steps@ == task.shared.steps@
            &&& state matches Some(told) && told.id == id && told.name == task.name
                && told.run_count == task.shared.runs && told.running == task.shared.running
        },
        is_first_called(handle.registry@, name@, named) ==> found == Some(
            handle.registry@[named].id,
        ),
        leads_to(handle.registry@, name@, led) ==> status_by_name == Some(
            handle.registry@[led].shared.state.status,
        ),
{
    lemma_leads_to(handle.registry@, name@, led);
    if is_first_with(handle.registry@, id, at) {
        assert(handle.registry@[at].id == id);
    }
    if is_first_called(handle.registry@, name@, named) {
        assert(first_with_name(handle.registry@, name@, named));
    }
    if leads_to(handle.registry@, name@, led) {
        let k = choose|k: int| #[trigger]
            is_first_called(handle.registry@, name@, k) && is_first_with(
                handle.registry@,
                handle.registry@[k].id,
                led,
            );
        assert(first_with_name(handle.registry@, name@, k));
        assert(bears(handle.registry@[k], name@));
    }
}

/// A shutdown that was requested is acted upon once: the first look finds it, the next one does
/// not, and neither touches the tasks.
pub proof fn law_shutdown_is_taken_once(
    asked: &mut SchedulerHandle,
    first: &mut SchedulerHandle,
    second: &mut SchedulerHandle,
    one: bool,
    two: bool,
)
    requires
        call_ensures(SchedulerHandle::shutdown, (asked,), ()),
        *old(first) == *final(asked),
        call_ensures(SchedulerHandle::take_shutdown, (first,), one),
        *old(second) == *final(first),
        call_ensures(SchedulerHandle::take_shutdown, (second,), two),
    ensures
        one,
        !two,
        final(second).registry@ == old(asked).registry@,
{
}

/// A handle starts without tasks and without a request, and without a request none is found.
pub proof fn law_new_handle_is_empty(handle: SchedulerHandle)
    requires
        call_ensures(SchedulerHandle::new, (), handle),
    ensures
        handle.registry@.len() == 0,
        !handle.shutdown,
{
}

} // verus!
