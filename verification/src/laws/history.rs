//! What a task publishes of its runs and of itself.

use vstd::prelude::*;

use crate::errors::TaskError;
use crate::scheduler::TaskScheduler;
use crate::shared::{closed_history, copy_states, newest, TaskShared};
use crate::task::{Host, RunOutcome, RunRecord, Status, StepState, Task};
use crate::time::Timestamp;

verus! {

/// Whether a number is one up from another, starting over at zero after the largest.
pub open spec fn counts_up(from: usize, to: usize) -> bool {
    if from == usize::MAX {
        to == 0
    } else {
        to == from + 1
    }
}

/// Whether a record of a run that has just started stands last in a history. The oldest records
/// give way, as many as the limit asks; with a limit of zero none is kept.
pub open spec fn record_opened(
    held: Seq<RunRecord>,
    limit: usize,
    run_id: usize,
    started_at: Timestamp,
    kept: Seq<RunRecord>,
) -> bool {
    &&& kept.len() == if held.len() + 1 <= limit {
        held.len() + 1
    } else {
        limit as nat
    }
    &&& forall|i: int|
        0 <= i < kept.len() - 1 ==> #[trigger] kept[i] == held[held.len() - kept.len() + 1 + i]
    &&& limit > 0 ==> kept[kept.len() - 1] == (RunRecord {
        run_id,
        started_at,
        finished_at: None,
        outcome: None,
        attempts: 0,
    })
}

/// Whether the newest record of a run, where it is kept, tells when and how the run ended and in
/// how many attempts, and every other record is as it was.
pub open spec fn record_closed(
    held: Seq<RunRecord>,
    run_id: usize,
    finished_at: Timestamp,
    outcome: RunOutcome,
    attempts: usize,
    kept: Seq<RunRecord>,
) -> bool {
    &&& kept.len() == held.len()
    &&& forall|i: int|
        0 <= i < held.len() ==> #[trigger] kept[i] == if held[i].run_id == run_id && (forall|j: int|
            i < j < held.len() ==> (#[trigger] held[j]).run_id != run_id) {
            RunRecord {
                run_id,
                started_at: held[i].started_at,
                finished_at: Some(finished_at),
                outcome: Some(outcome),
                attempts,
            }
        } else {
            held[i]
        }
}

/// Whether a run was booked that started at `started_at`: it has the next run id, it is counted,
/// and its open record stands last.
pub open spec fn run_opened(
    before: TaskShared,
    started_at: Timestamp,
    after: TaskShared,
) -> bool {
    &&& counts_up(before.run_seq, after.run_seq)
    &&& counts_up(before.runs, after.runs)
    &&& record_opened(
        before.history@,
        before.history_limit,
        before.run_seq,
        started_at,
        after.history@,
    )
    &&& after == TaskShared {
        run_seq: after.run_seq,
        runs: after.runs,
        history: after.history,
        ..before
    }
}

/// Whether the run with the given id was booked as over, and its outcome is the last one.
pub open spec fn run_closed(
    before: TaskShared,
    run_id: usize,
    finished_at: Timestamp,
    outcome: RunOutcome,
    attempts: usize,
    after: TaskShared,
) -> bool {
    &&& record_closed(before.history@, run_id, finished_at, outcome, attempts, after.history@)
    &&& after == TaskShared { history: after.history, last_outcome: Some(outcome), ..before }
}

proof fn lemma_newest_is_last(history: Seq<RunRecord>, run_id: usize)
    ensures
        match newest(history, run_id) {
            Some(i) => 0 <= i < history.len() && history[i].run_id == run_id && forall|j: int|
                i < j < history.len() ==> (#[trigger] history[j]).run_id != run_id,
            None => forall|j: int|
                0 <= j < history.len() ==> (#[trigger] history[j]).run_id != run_id,
        },
    decreases history.len(),
{
    if history.len() > 0 && history.last().run_id != run_id {
        let front = history.drop_last();
        lemma_newest_is_last(front, run_id);
        assert(forall|j: int| 0 <= j < front.len() ==> #[trigger] history[j] == front[j]);
        assert(history[history.len() - 1] == history.last());
    }
}

pub(crate) proof fn lemma_record_closed(
    held: Seq<RunRecord>,
    run_id: usize,
    finished_at: Timestamp,
    outcome: RunOutcome,
    attempts: usize,
)
    ensures
        record_closed(
            held,
            run_id,
            finished_at,
            outcome,
            attempts,
            closed_history(held, run_id, finished_at, outcome, attempts),
        ),
{
    let kept = closed_history(held, run_id, finished_at, outcome, attempts);
    lemma_newest_is_last(held, run_id);
    assert forall|i: int| 0 <= i < held.len() implies #[trigger] kept[i] == if held[i].run_id
        == run_id && (forall|j: int|
        i < j < held.len() ==> (#[trigger] held[j]).run_id != run_id) {
        RunRecord {
            run_id,
            started_at: held[i].started_at,
            finished_at: Some(finished_at),
            outcome: Some(outcome),
            attempts,
        }
    } else {
        held[i]
    } by {
        if let Some(k) = newest(held, run_id) {
            assert(held[k].run_id == run_id);
        }
    }
}

/// Starting a run books it, under the id that is handed back.
pub proof fn law_started_run_is_booked(
    shared: &mut TaskShared,
    started_at: Timestamp,
    run_id: usize,
)
    requires
        call_ensures(TaskShared::start_run, (shared, started_at), run_id),
    ensures
        run_id == old(shared).run_seq,
        run_opened(*old(shared), started_at, *final(shared)),
{
}

/// Finishing a run books what it came to.
pub proof fn law_finished_run_is_booked(
    shared: &mut TaskShared,
    run_id: usize,
    finished_at: Timestamp,
    outcome: RunOutcome,
    attempts: usize,
)
    requires
        call_ensures(TaskShared::finish_run, (shared, run_id, finished_at, outcome, attempts), ()),
    ensures
        run_closed(*old(shared), run_id, finished_at, outcome, attempts, *final(shared)),
{
    lemma_record_closed(old(shared).history@, run_id, finished_at, outcome, attempts);
}

/// Two runs that start one after the other have ids that follow one another, and the second is
/// the newest on record, with the first right before it where two are kept.
pub proof fn law_runs_are_kept_in_order(
    first: &mut TaskShared,
    second: &mut TaskShared,
    one: Timestamp,
    two: Timestamp,
    a: usize,
    b: usize,
)
    requires
        call_ensures(TaskShared::start_run, (first, one), a),
        *old(second) == *final(first),
        call_ensures(TaskShared::start_run, (second, two), b),
        a < usize::MAX,
    ensures
        b == a + 1,
        old(first).history_limit >= 1 ==> {
            let kept = final(second).history@;
            kept.len() >= 1 && kept[kept.len() - 1].run_id == b && kept[kept.len()
                - 1].started_at == two
        },
        old(first).history_limit >= 2 ==> {
            let kept = final(second).history@;
            kept.len() >= 2 && kept[kept.len() - 2].run_id == a && kept[kept.len()
                - 2].started_at == one
        },
        old(first).history_limit == 0 ==> final(second).history@.len() == 0,
{
}

/// Whether one thing happened to what a task publishes: a run was opened, a run was closed, or
/// neither and the runs on record are as they were.
pub open spec fn moved_on(before: TaskShared, after: TaskShared) -> bool {
    ||| opened_one(before, after)
    ||| closed_one(before, after)
    ||| {
        &&& after.history@ == before.history@
        &&& after.history_limit == before.history_limit
        &&& after.run_seq == before.run_seq
        &&& after.runs == before.runs
    }
}

/// Whether a run was opened.
pub open spec fn opened_one(before: TaskShared, after: TaskShared) -> bool {
    exists|started_at: Timestamp| #[trigger] run_opened(before, started_at, after)
}

/// Whether a run was closed.
pub open spec fn closed_one(before: TaskShared, after: TaskShared) -> bool {
    exists|run_id: usize, finished_at: Timestamp, outcome: RunOutcome, attempts: usize|
        #[trigger] run_closed(before, run_id, finished_at, outcome, attempts, after)
}

/// How many runs were opened from one cell to the next over a sequence of them.
pub open spec fn opened_over(cells: Seq<TaskShared>) -> nat
    decreases cells.len(),
{
    if cells.len() <= 1 {
        0
    } else {
        let n = cells.len() as int;
        opened_over(cells.drop_last()) + if opened_one(cells[n - 2], cells[n - 1]) {
            1nat
        } else {
            0
        }
    }
}

/// Whether a cell holds the newest of `n` runs, as many as the limit allows, oldest first.
pub open spec fn holds_newest(cell: TaskShared, n: nat, limit: usize) -> bool {
    &&& cell.history_limit == limit
    &&& cell.run_seq == n
    &&& cell.runs == n
    &&& cell.history@.len() == if n <= limit {
        n
    } else {
        limit as nat
    }
    &&& forall|k: int|
        0 <= k < cell.history@.len() ==> (#[trigger] cell.history@[k]).run_id == n
            - cell.history@.len() + k
}

/// A task that starts with nothing on record holds, after whatever runs were opened and closed,
/// exactly the newest ones, as many as its history limit at most.
pub proof fn law_newest_runs_are_on_record(cells: Seq<TaskShared>, limit: usize)
    requires
        cells.len() > 0,
        holds_newest(cells[0], 0, limit),
        forall|i: int|
            0 <= i < cells.len() - 1 ==> #[trigger] moved_on(cells[i], cells[i + 1]),
        opened_over(cells) <= usize::MAX,
    ensures
        holds_newest(cells.last(), opened_over(cells), limit),
    decreases cells.len(),
{
    if cells.len() > 1 {
        let front = cells.drop_last();
        let m = cells.len() - 2;
        assert forall|i: int| 0 <= i < front.len() - 1 implies #[trigger] moved_on(
            front[i],
            front[i + 1],
        ) by {
            assert(moved_on(cells[i], cells[i + 1]));
        }
        law_newest_runs_are_on_record(front, limit);
        let before = cells[m];
        let after = cells[m + 1];
        assert(front.last() == before);
        assert(cells.last() == after);
        assert(moved_on(before, after));
        if opened_one(before, after) {
            let started_at = choose|started_at: Timestamp| #[trigger]
                run_opened(before, started_at, after);
            let held = before.history@;
            let kept = after.history@;
            assert forall|k: int| 0 <= k < kept.len() implies (#[trigger] kept[k]).run_id
                == opened_over(cells) - kept.len() + k by {
                if k < kept.len() - 1 {
                    assert(kept[k] == held[held.len() - kept.len() + 1 + k]);
                }
            }
        } else if closed_one(before, after) {
            assert forall|k: int| 0 <= k < after.history@.len() implies (
            #[trigger] after.history@[k]).run_id == before.history@[k].run_id by {}
        }
    }
}

/// A task that was just registered publishes, after whatever runs were opened and closed, exactly
/// the newest ones, as many as the history limit set on it at most.
pub proof fn law_registered_task_publishes_its_newest_runs<T, H: Host, G>(
    scheduler: &mut TaskScheduler<T, H, G>,
    task: Task<T, H>,
    id: usize,
    cells: Seq<TaskShared>,
)
    requires
        call_ensures(
            TaskScheduler::<T, H, G>::add_task_get_id,
            (scheduler, Ok(task)),
            Ok::<usize, TaskError>(id),
        ),
        cells.len() > 0,
        cells[0] == final(scheduler).handle.registry@.last().shared,
        forall|i: int|
            0 <= i < cells.len() - 1 ==> #[trigger] moved_on(cells[i], cells[i + 1]),
        opened_over(cells) <= usize::MAX,
    ensures
        final(scheduler).handle.registry@.last().id == id,
        cells.last().history_limit == task.history_limit,
        cells.last().history@.len() <= task.history_limit,
        holds_newest(cells.last(), opened_over(cells), task.history_limit),
{
    law_newest_runs_are_on_record(cells, task.history_limit);
}

/// A fresh cell has nothing on record, nothing published and nothing asked for, and keeps as many
/// runs as it was told.
pub proof fn law_fresh_cell_is_blank(history_limit: usize, shared: TaskShared)
    requires
        call_ensures(TaskShared::new, (history_limit,), shared),
    ensures
        !shared.running && !shared.pending && !shared.finished,
        !shared.paused && !shared.remove_requested && !shared.queued,
        shared.runs == 0 && shared.run_seq == 0,
        shared.history_limit == history_limit,
        shared.state.status == Status::Init && shared.state.next_exec is None,
        shared.steps@.len() == 0 && shared.history@.len() == 0,
        shared.last_outcome is None,
{
}

/// Publishing shows the task's status, its next execution time and its steps as they are;
/// publishing the steps shows them alone.
pub proof fn law_published_is_what_the_task_has<T, H: Host>(
    all: &mut TaskShared,
    steps: &mut TaskShared,
    task: &Task<T, H>,
)
    requires
        call_ensures(TaskShared::publish::<T, H>, (all, task), ()),
        call_ensures(TaskShared::publish_steps::<T, H>, (steps, task), ()),
    ensures
        final(all).state.status == task.status,
        final(all).state.next_exec == task.next_exec,
        final(all).steps@ == task.step_states@,
        *final(all) == (TaskShared {
            state: final(all).state,
            steps: final(all).steps,
            ..*old(all)
        }),
        final(steps).steps@ == task.step_states@,
        *final(steps) == (TaskShared { steps: final(steps).steps, ..*old(steps) }),
{
}

/// A copied snapshot has the same states in the same order.
pub proof fn law_copied_states_are_the_same(states: Vec<StepState>, copy: Vec<StepState>)
    requires
        call_ensures(copy_states, (&states,), copy),
    ensures
        copy@.len() == states@.len(),
        forall|i: int| 0 <= i < states@.len() ==> #[trigger] copy@[i] == states@[i],
{
}

/// A copied step state tells the same.
pub proof fn law_copied_state_is_the_same(state: StepState, copy: StepState)
    requires
        call_ensures(<StepState as Clone>::clone, (&state,), copy),
    ensures
        copy.index == state.index,
        copy.description == state.description,
        copy.status == state.status,
{
}

} // verus!
