//! What a running task publishes, so that the scheduler can observe it and decide when to
//! dispatch its next run.

use std::collections::VecDeque;

use vstd::prelude::*;

use crate::task::{Host, RunOutcome, RunRecord, Status, StepState, Task};
use crate::time::Timestamp;

verus! {

/// The observable lifecycle state of a task.
#[derive(Debug, Clone, Copy, PartialEq, Eq, Structural)]
pub struct SharedState {
    /// The task's current lifecycle status.
    pub status: Status,
    /// The task's next execution time (`None` if not scheduled). While a run is in progress it is
    /// the occurrence that follows.
    pub next_exec: Option<Timestamp>,
}

/// State a running task publishes, and the requests made of it.
#[derive(Debug)]
pub struct TaskShared {
    /// True while a run is in progress.
    pub running: bool,
    /// Set when a due occurrence was missed while running, to be run once the current run ends.
    pub pending: bool,
    /// Set once the task reaches a terminal state so the scheduler reaps it.
    pub finished: bool,
    /// Set while the task is paused; a paused task is not dispatched.
    pub paused: bool,
    /// Set when a caller has requested removal; the scheduler reaps the task next round.
    pub remove_requested: bool,
    /// Set while a dispatched run waits to be picked up. There is room for one.
    pub queued: bool,
    /// Total number of runs started over the task's lifetime.
    pub runs: usize,
    /// The next run id to hand out.
    pub run_seq: usize,
    /// The maximum number of [`RunRecord`]s retained in `history`.
    pub history_limit: usize,
    /// The observable lifecycle state.
    pub state: SharedState,
    /// The per-step state as of the last transition.
    pub steps: Vec<StepState>,
    /// A bounded history of recent runs, oldest first.
    pub history: VecDeque<RunRecord>,
    /// The outcome of the most recent completed run, be it still in the history or not.
    pub last_outcome: Option<RunOutcome>,
}

/// The number after `n`, starting over at zero after the largest.
pub open spec fn successor(n: usize) -> usize {
    if n == usize::MAX {
        0
    } else {
        (n + 1) as usize
    }
}

/// The record of a run that has just started.
pub open spec fn started(run_id: usize, started_at: Timestamp) -> RunRecord {
    RunRecord { run_id, started_at, finished_at: None, outcome: None, attempts: 0 }
}

/// A history with one more record: the oldest ones give way, and with a limit of zero nothing
/// is kept.
pub open spec fn recorded(history: Seq<RunRecord>, limit: nat, record: RunRecord) -> Seq<
    RunRecord,
> {
    if limit == 0 {
        Seq::empty()
    } else if history.len() < limit {
        history.push(record)
    } else {
        history.skip(history.len() - (limit - 1)).push(record)
    }
}

/// The position of the newest record of a run, if it is still kept.
pub open spec fn newest(history: Seq<RunRecord>, run_id: usize) -> Option<int>
    decreases history.len(),
{
    if history.len() == 0 {
        None
    } else if history.last().run_id == run_id {
        Some(history.len() - 1)
    } else {
        newest(history.drop_last(), run_id)
    }
}

/// A history in which a run is marked as over; unchanged where the run is no longer kept.
pub open spec fn closed_history(
    history: Seq<RunRecord>,
    run_id: usize,
    finished_at: Timestamp,
    outcome: RunOutcome,
    attempts: usize,
) -> Seq<RunRecord> {
    match newest(history, run_id) {
        Some(i) => history.update(
            i,
            RunRecord {
                finished_at: Some(finished_at),
                outcome: Some(outcome),
                attempts,
                ..history[i]
            },
        ),
        None => history,
    }
}

/// What a task's shared cell books of its runs.
#[verifier::ext_equal]
pub struct RunBook {
    pub runs: usize,
    pub run_seq: usize,
    pub limit: usize,
    pub history: Seq<RunRecord>,
    pub last_outcome: Option<RunOutcome>,
}

/// Something that is booked: a run has started, or the run with the given id is over.
pub enum RunEvent {
    Started(Timestamp),
    Finished { run_id: usize, finished_at: Timestamp, outcome: RunOutcome, attempts: usize },
}

impl RunBook {
    /// The book of a task that has not run yet.
    pub open spec fn fresh(limit: usize) -> RunBook {
        RunBook { runs: 0, run_seq: 0, limit, history: Seq::empty(), last_outcome: None }
    }

    /// The book with one more event.
    pub open spec fn with(self, event: RunEvent) -> RunBook {
        match event {
            RunEvent::Started(started_at) => RunBook {
                runs: successor(self.runs),
                run_seq: successor(self.run_seq),
                history: recorded(
                    self.history,
                    self.limit as nat,
                    started(self.run_seq, started_at),
                ),
                ..self
            },
            RunEvent::Finished { run_id, finished_at, outcome, attempts } => RunBook {
                history: closed_history(self.history, run_id, finished_at, outcome, attempts),
                last_outcome: Some(outcome),
                ..self
            },
        }
    }

    /// The book after a sequence of events.
    pub open spec fn after(self, events: Seq<RunEvent>) -> RunBook
        decreases events.len(),
    {
        if events.len() == 0 {
            self
        } else {
            self.after(events.drop_last()).with(events.last())
        }
    }
}

/// When the runs of a task started, by run id.
pub open spec fn start_times(events: Seq<RunEvent>) -> Seq<Timestamp>
    decreases events.len(),
{
    if events.len() == 0 {
        Seq::empty()
    } else {
        match events.last() {
            RunEvent::Started(started_at) => start_times(events.drop_last()).push(started_at),
            RunEvent::Finished { .. } => start_times(events.drop_last()),
        }
    }
}

/// The outcome of the most recent completed run.
pub open spec fn newest_outcome(events: Seq<RunEvent>) -> Option<RunOutcome>
    decreases events.len(),
{
    if events.len() == 0 {
        None
    } else {
        match events.last() {
            RunEvent::Started(_) => newest_outcome(events.drop_last()),
            RunEvent::Finished { outcome, .. } => Some(outcome),
        }
    }
}

/// The record of the run with the given id: when it started, and what it came to since.
pub open spec fn record_of(events: Seq<RunEvent>, run_id: nat) -> RunRecord
    decreases events.len(),
{
    if events.len() == 0 {
        started(run_id as usize, Timestamp { secs: 0, nanos: 0 })
    } else {
        let earlier = events.drop_last();
        match events.last() {
            RunEvent::Started(started_at) if start_times(earlier).len() == run_id => started(
                run_id as usize,
                started_at,
            ),
            RunEvent::Finished { run_id: over, finished_at, outcome, attempts } if over
                == run_id => RunRecord {
                finished_at: Some(finished_at),
                outcome: Some(outcome),
                attempts,
                ..record_of(earlier, run_id)
            },
            _ => record_of(earlier, run_id),
        }
    }
}

/// The records of the newest runs, as many as are kept, oldest first.
pub open spec fn newest_records(events: Seq<RunEvent>, limit: nat) -> Seq<RunRecord> {
    let n = start_times(events).len();
    let kept = if n <= limit {
        n
    } else {
        limit
    };
    Seq::new(kept, |i: int| record_of(events, (n - kept + i) as nat))
}

/// Copy a per-step snapshot.
pub fn copy_states(states: &Vec<StepState>) -> (copy: Vec<StepState>)
    ensures
        copy@ == states@,
{
    let mut copy: Vec<StepState> = Vec::new();
    let mut i: usize = 0;
    while i < states.len()
        invariant
            i <= states@.len(),
            copy@ == states@.take(i as int),
        decreases states@.len() - i,
    {
        copy.push(states[i].clone());
        assert(states@.take(i as int).push(states@[i as int]) =~= states@.take(i + 1));
        i += 1;
    }
    assert(states@.take(i as int) =~= states@);
    copy
}

impl TaskShared {
    /// What the cell books of the task's runs.
    pub open spec fn book(self) -> RunBook {
        RunBook {
            runs: self.runs,
            run_seq: self.run_seq,
            limit: self.history_limit,
            history: self.history@,
            last_outcome: self.last_outcome,
        }
    }

    /// Create a fresh shared-state cell for an uninitialized task.
    ///
    /// `history_limit` bounds how many [`RunRecord`]s are retained.
    pub fn new(history_limit: usize) -> (shared: TaskShared)
        ensures
            !shared.running,
            !shared.pending,
            !shared.finished,
            !shared.paused,
            !shared.remove_requested,
            !shared.queued,
            shared.runs == 0,
            shared.run_seq == 0,
            shared.history_limit == history_limit,
            shared.state == (SharedState { status: Status::Init, next_exec: None }),
            shared.steps@ == Seq::<StepState>::empty(),
            shared.history@ == Seq::<RunRecord>::empty(),
            shared.last_outcome is None,
            shared.book() == RunBook::fresh(history_limit),
    {
        TaskShared {
            running: false,
            pending: false,
            finished: false,
            paused: false,
            remove_requested: false,
            queued: false,
            runs: 0,
            run_seq: 0,
            history_limit,
            state: SharedState { status: Status::Init, next_exec: None },
            steps: Vec::new(),
            history: VecDeque::new(),
            last_outcome: None,
        }
    }

    /// Record the start of a run and return its run id. Trims the history to the configured
    /// limit.
    pub fn start_run(&mut self, started_at: Timestamp) -> (run_id: usize)
        ensures
            run_id == old(self).run_seq,
            final(self).history@ == recorded(
                old(self).history@,
                old(self).history_limit as nat,
                started(run_id, started_at),
            ),
            final(self).book() == old(self).book().with(RunEvent::Started(started_at)),
            *final(self) == (TaskShared {
                run_seq: successor(old(self).run_seq),
                runs: successor(old(self).runs),
                history: final(self).history,
                ..*old(self)
            }),
    {
        let run_id: usize = self.run_seq;
        self.run_seq = self.run_seq.wrapping_add(1);
        self.runs = self.runs.wrapping_add(1);
        let ghost before = self.history@;
        while self.history.len() >= self.history_limit && self.history.len() > 0
            invariant
                self.history@.len() <= before.len(),
                self.history@ == before.skip(before.len() - self.history@.len()),
                self.history@.len() < before.len() ==> self.history@.len() + 1
                    >= self.history_limit,
                run_id == old(self).run_seq,
                *self == (TaskShared {
                    run_seq: successor(old(self).run_seq),
                    runs: successor(old(self).runs),
                    history: self.history,
                    ..*old(self)
                }),
            decreases self.history@.len(),
        {
            let ghost held = self.history@;
            let _ = self.history.pop_front();
            assert(held.skip(1) =~= before.skip(before.len() - held.len() + 1));
        }
        if self.history_limit > 0 {
            self.history.push_back(
                RunRecord { run_id, started_at, finished_at: None, outcome: None, attempts: 0 },
            );
        }
        assert(self.history@ =~= recorded(
            before,
            self.history_limit as nat,
            started(run_id, started_at),
        ));
        run_id
    }

    /// Record the completion of the run with the given id. Its outcome is now the last one, also
    /// where the run's record is no longer kept.
    pub fn finish_run(
        &mut self,
        run_id: usize,
        finished_at: Timestamp,
        outcome: RunOutcome,
        attempts: usize,
    )
        ensures
            final(self).history@ == closed_history(
                old(self).history@,
                run_id,
                finished_at,
                outcome,
                attempts,
            ),
            final(self).book() == old(self).book().with(
                RunEvent::Finished { run_id, finished_at, outcome, attempts },
            ),
            *final(self) == (TaskShared {
                history: final(self).history,
                last_outcome: Some(outcome),
                ..*old(self)
            }),
    {
        self.last_outcome = Some(outcome);
        let ghost before = self.history@;
        let mut i: usize = self.history.len();
        assert(before.take(i as int) =~= before);
        while i > 0
            invariant
                i <= before.len(),
                self.history@ == before,
                *self == (TaskShared { last_outcome: Some(outcome), ..*old(self) }),
                newest(before, run_id) == newest(before.take(i as int), run_id),
            decreases i,
        {
            let held = self.history[i - 1];
            assert(before.take(i as int).last() == held);
            assert(before.take(i as int).drop_last() =~= before.take(i - 1));
            if held.run_id == run_id {
                let _ = self.history.remove(i - 1);
                self.history.insert(
                    i - 1,
                    RunRecord {
                        run_id: held.run_id,
                        started_at: held.started_at,
                        finished_at: Some(finished_at),
                        outcome: Some(outcome),
                        attempts,
                    },
                );
                assert(self.history@ =~= closed_history(
                    before,
                    run_id,
                    finished_at,
                    outcome,
                    attempts,
                ));
                return ;
            }
            i -= 1;
        }
        assert(before.take(0) =~= Seq::empty());
    }

    /// Publish the task's per-step snapshot, so observers see step transitions live during a
    /// run.
    pub fn publish_steps<T, H: Host>(&mut self, task: &Task<T, H>)
        ensures
            final(self).steps@ == task.step_states@,
            *final(self) == (TaskShared { steps: final(self).steps, ..*old(self) }),
    {
        self.steps = copy_states(&task.step_states);
    }

    /// Publish the task's current status, next execution time and per-step snapshot.
    pub fn publish<T, H: Host>(&mut self, task: &Task<T, H>)
        ensures
            final(self).state == (SharedState { status: task.status, next_exec: task.next_exec }),
            final(self).steps@ == task.step_states@,
            *final(self) == (TaskShared {
                state: final(self).state,
                steps: final(self).steps,
                ..*old(self)
            }),
    {
        self.state = SharedState { status: task.status, next_exec: task.next_exec };
        self.publish_steps(task);
    }
}

/// Whether a history is within its limit and lists runs by increasing id, all below the next
/// one to hand out.
pub open spec fn history_wf(history: Seq<RunRecord>, limit: nat, next_id: usize) -> bool {
    &&& history.len() <= limit
    &&& forall|i: int, j: int|
        0 <= i < j < history.len() ==> (#[trigger] history[i]).run_id < (
        #[trigger] history[j]).run_id
    &&& forall|i: int| 0 <= i < history.len() ==> (#[trigger] history[i]).run_id < next_id
}

/// Starting a run keeps the history within its limit and ordered by run id; the new run is the
/// newest one kept, unless nothing is kept at all.
///
/// The order holds until the run ids start over.
pub proof fn law_start_keeps_history(
    history: Seq<RunRecord>,
    limit: nat,
    run_id: usize,
    started_at: Timestamp,
)
    requires
        history_wf(history, limit, run_id),
        run_id < usize::MAX,
    ensures
        history_wf(
            recorded(history, limit, started(run_id, started_at)),
            limit,
            successor(run_id),
        ),
        limit > 0 ==> recorded(history, limit, started(run_id, started_at)).last() == started(
            run_id,
            started_at,
        ),
{
}

/// A new record pushes out only the oldest ones, and only as many as the limit asks: what stays
/// is the newest part of the history, in its order, with the record behind it.
pub proof fn law_oldest_give_way(history: Seq<RunRecord>, limit: nat, record: RunRecord)
    requires
        limit > 0,
        history.len() <= limit,
    ensures
        recorded(history, limit, record).len() == if history.len() < limit {
            history.len() + 1
        } else {
            limit
        },
        recorded(history, limit, record).drop_last().is_suffix_of(history),
{
    let kept = recorded(history, limit, record).drop_last();
    assert(kept =~= history.skip(history.len() - kept.len()));
    assert(history.subrange((history.len() - kept.len()) as int, history.len() as int) =~= kept);
}

/// With a limit of zero nothing is kept, whatever was there before.
pub proof fn law_zero_limit_keeps_nothing(history: Seq<RunRecord>, record: RunRecord)
    ensures
        recorded(history, 0, record) == Seq::<RunRecord>::empty(),
{
}

proof fn lemma_newest(history: Seq<RunRecord>, run_id: usize)
    ensures
        match newest(history, run_id) {
            Some(i) => 0 <= i < history.len() && history[i].run_id == run_id && forall|j: int|
                i < j < history.len() ==> (#[trigger] history[j]).run_id != run_id,
            None => forall|j: int|
                0 <= j < history.len() ==> (#[trigger] history[j]).run_id != run_id,
        },
    decreases history.len(),
{
    if history.len() > 0 && history.last().run_id != run_id {
        let front = history.drop_last();
        lemma_newest(front, run_id);
        assert(forall|j: int| 0 <= j < front.len() ==> #[trigger] history[j] == front[j]);
        assert(history[history.len() - 1] == history.last());
    }
}

/// Closing a run changes its own record only, keeps its id and start, and keeps the history
/// within its limit and ordered by run id.
pub proof fn law_finish_touches_one_record(
    history: Seq<RunRecord>,
    limit: nat,
    next_id: usize,
    run_id: usize,
    finished_at: Timestamp,
    outcome: RunOutcome,
    attempts: usize,
)
    requires
        history_wf(history, limit, next_id),
    ensures
        ({
            let after = closed_history(history, run_id, finished_at, outcome, attempts);
            &&& history_wf(after, limit, next_id)
            &&& after.len() == history.len()
            &&& forall|i: int|
                0 <= i < history.len() ==> #[trigger] after[i] == if history[i].run_id == run_id {
                    RunRecord {
                        finished_at: Some(finished_at),
                        outcome: Some(outcome),
                        attempts,
                        ..history[i]
                    }
                } else {
                    history[i]
                }
        }),
{
    lemma_newest(history, run_id);
    let after = closed_history(history, run_id, finished_at, outcome, attempts);
    assert forall|i: int| 0 <= i < history.len() implies #[trigger] after[i] == if history[i].run_id
        == run_id {
        RunRecord {
            finished_at: Some(finished_at),
            outcome: Some(outcome),
            attempts,
            ..history[i]
        }
    } else {
        history[i]
    } by {
        if let Some(k) = newest(history, run_id) {
            if i < k {
                assert(history[i].run_id < history[k].run_id);
            }
        }
    }
    assert forall|i: int, j: int| 0 <= i < j < after.len() implies (#[trigger] after[i]).run_id < (
    #[trigger] after[j]).run_id by {
        assert(history[i].run_id < history[j].run_id);
    }
}

/// What is booked of a task's runs over its life, whatever started and finished in which order.
/// With `n` runs started, the ids handed out are those below `n`, each once and in order, and the
/// next one is `n`. The history holds exactly the newest runs, oldest first, as many as the limit
/// allows, each with its own id and start and with what it came to, if it is over. The last outcome
/// is that of the run that completed last, though newer ones have started and though its record
/// may have left.
///
/// It holds until the run ids start over.
pub proof fn law_book_of_a_life(limit: usize, events: Seq<RunEvent>)
    requires
        start_times(events).len() <= usize::MAX,
    ensures
        RunBook::fresh(limit).after(events) == (RunBook {
            runs: start_times(events).len() as usize,
            run_seq: start_times(events).len() as usize,
            limit,
            history: newest_records(events, limit as nat),
            last_outcome: newest_outcome(events),
        }),
        forall|i: int|
            0 <= i < newest_records(events, limit as nat).len() ==> {
                let record = #[trigger] newest_records(events, limit as nat)[i];
                let n = start_times(events).len();
                &&& record.run_id == n - newest_records(events, limit as nat).len() + i
                &&& record.started_at == start_times(events)[record.run_id as int]
            },
    decreases events.len(),
{
    let n = start_times(events).len();
    let kept = newest_records(events, limit as nat);
    if events.len() == 0 {
        assert(kept =~= Seq::empty());
    } else {
        let earlier = events.drop_last();
        law_book_of_a_life(limit, earlier);
        let m = start_times(earlier).len();
        let held = newest_records(earlier, limit as nat);
        match events.last() {
            RunEvent::Started(started_at) => {
                assert(n == m + 1);
                let after = recorded(held, limit as nat, started(m as usize, started_at));
                assert forall|i: int| 0 <= i < kept.len() implies #[trigger] kept[i]
                    == after[i] by {
                    let id = n - kept.len() + i;
                    if id < m {
                        let j = id - (m - held.len());
                        assert(held[j] == record_of(earlier, id as nat));
                    }
                }
                assert(kept =~= after);
                assert forall|i: int| 0 <= i < kept.len() implies ({
                    let record = #[trigger] kept[i];
                    &&& record.run_id == n - kept.len() + i
                    &&& record.started_at == start_times(events)[record.run_id as int]
                }) by {
                    let id = n - kept.len() + i;
                    if id < m {
                        let j = id - (m - held.len());
                        assert(held[j].run_id == id);
                    }
                }
            },
            RunEvent::Finished { run_id, finished_at, outcome, attempts } => {
                assert(n == m);
                let after = closed_history(held, run_id, finished_at, outcome, attempts);
                lemma_newest(held, run_id);
                assert forall|i: int| 0 <= i < kept.len() implies #[trigger] kept[i]
                    == after[i] by {
                    let id = n - kept.len() + i;
                    assert(held[i].run_id == id);
                    assert(held[i] == record_of(earlier, id as nat));
                    if let Some(k) = newest(held, run_id) {
                        assert(held[k].run_id == n - kept.len() + k);
                    }
                }
                assert(kept =~= after);
                assert forall|i: int| 0 <= i < kept.len() implies ({
                    let record = #[trigger] kept[i];
                    &&& record.run_id == n - kept.len() + i
                    &&& record.started_at == start_times(events)[record.run_id as int]
                }) by {
                    assert(held[i].run_id == n - kept.len() + i);
                }
            },
        }
    }
}

/// The history gives back what a run came to: once the run is complete, the newest record is its
/// own, with its start, its end, its outcome and its attempts.
pub proof fn law_completed_run_is_recorded(
    history: Seq<RunRecord>,
    limit: nat,
    run_id: usize,
    started_at: Timestamp,
    finished_at: Timestamp,
    outcome: RunOutcome,
    attempts: usize,
)
    requires
        limit > 0,
    ensures
        closed_history(
            recorded(history, limit, started(run_id, started_at)),
            run_id,
            finished_at,
            outcome,
            attempts,
        ).last() == (RunRecord {
            run_id,
            started_at,
            finished_at: Some(finished_at),
            outcome: Some(outcome),
            attempts,
        }),
{
}

} // verus!
