//! Making tasks: texts, schedules, builders and what a task tells of itself.

use vstd::prelude::*;

use crate::builders::TaskBuilder;
use crate::errors::{TaskError, TaskResult};
use crate::generator::TaskGenerator;
use crate::laws::has_come;
use crate::retry::RetryPolicy;
use crate::schedule::{
    cron_next, cron_rejection, daily_at_text, every_hours_text, every_minutes_text,
    every_seconds_text, hourly_at_text, local_answer, Schedule, Zone,
};
use crate::task::{
    upcoming, Host, OverlapPolicy, RunOutcome, Status, StepState, StepStatus, Task, TaskContext,
    TaskStep,
};
use crate::text::{decimal, digit, render};
use crate::time::{clock_reads, Duration, Timestamp};

verus! {

/// The number that a text of decimal digits stands for.
pub open spec fn number(digits: Seq<char>) -> nat
    decreases digits.len(),
{
    if digits.len() == 0 {
        0
    } else {
        10 * number(digits.drop_last()) + ((digits.last() as int) - ('0' as int)) as nat
    }
}

/// Whether a text writes a number in decimal: digits that stand for it, without a leading zero but
/// for zero itself.
pub open spec fn writes(digits: Seq<char>, n: nat) -> bool {
    &&& digits.len() > 0
    &&& forall|i: int| 0 <= i < digits.len() ==> '0' <= #[trigger] digits[i] <= '9'
    &&& digits.len() > 1 ==> digits[0] != '0'
    &&& number(digits) == n
}

proof fn lemma_decimal_writes(n: nat)
    ensures
        writes(decimal(n), n),
        decimal(n).len() == 1 ==> n < 10,
    decreases n,
{
    if n < 10 {
        let digits = decimal(n);
        assert(digits.drop_last() =~= Seq::<char>::empty());
        assert(digits.last() == digit(n));
        assert(number(digits.drop_last()) == 0);
        assert(number(digits) == n);
    } else {
        let front = decimal(n / 10);
        lemma_decimal_writes(n / 10);
        let digits = decimal(n);
        assert(digits == front.push(digit(n % 10)));
        assert(digits.drop_last() =~= front);
        assert(digits.last() == digit(n % 10));
        assert(digits[0] == front[0]);
        if front.len() == 1 {
            assert(front == seq![digit(n / 10)]);
            assert(n / 10 >= 1);
            assert(front[0] != '0');
        }
        assert(number(digits) == 10 * number(front) + n % 10);
    }
}

/// A rendered number reads back.
pub proof fn law_rendered_number_reads_back(n: u32, text: String)
    requires
        call_ensures(render, (n,), text),
    ensures
        writes(text@, n as nat),
{
    lemma_decimal_writes(n as nat);
}

/// The expression for every so many seconds, minutes or hours: a step in its own field, zero in
/// the fields below and a star in those above. At a minute of every hour, or at an hour and a
/// minute of every day: the minute in the second field and the hour in the third.
pub proof fn law_expressions_name_their_fields(
    n: u32,
    hour: u32,
    seconds: String,
    minutes: String,
    hours: String,
    hourly: String,
    daily: String,
)
    requires
        call_ensures(every_seconds_text, (n,), seconds),
        call_ensures(every_minutes_text, (n,), minutes),
        call_ensures(every_hours_text, (n,), hours),
        call_ensures(hourly_at_text, (n,), hourly),
        call_ensures(daily_at_text, (hour, n), daily),
    ensures
        exists|a: Seq<char>, b: Seq<char>|
            {
                &&& #[trigger] writes(a, n as nat)
                &&& #[trigger] writes(b, hour as nat)
                &&& seconds@ == "*/"@ + a + " * * * * * *"@
                &&& minutes@ == "0 */"@ + a + " * * * * *"@
                &&& hours@ == "0 0 */"@ + a + " * * * *"@
                &&& hourly@ == "0 "@ + a + " * * * * *"@
                &&& daily@ == "0 "@ + a + " "@ + b + " * * * *"@
            },
{
    lemma_decimal_writes(n as nat);
    lemma_decimal_writes(hour as nat);
    assert(writes(decimal(n as nat), n as nat) && writes(decimal(hour as nat), hour as nat));
}

/// Whether a builder was given a schedule by its expression, and is otherwise the same. Where the
/// expression is rejected, it has none.
pub open spec fn scheduled_by<T, H: Host>(
    before: TaskBuilder<T, H>,
    expression: Seq<char>,
    after: TaskBuilder<T, H>,
) -> bool {
    &&& after.expression@ == expression
    &&& after.schedule matches Some(schedule) ==> schedule@ == expression
    &&& after == TaskBuilder { expression: after.expression, schedule: after.schedule, ..before }
}

/// A builder takes an expression as it is: it has a schedule just where the expression is
/// accepted.
pub proof fn law_builder_takes_the_expression<T, H: Host>(
    builder: TaskBuilder<T, H>,
    expression: &str,
    made: TaskBuilder<T, H>,
)
    requires
        call_ensures(TaskBuilder::<T, H>::every, (builder, expression), made),
    ensures
        scheduled_by(builder, expression@, made),
        made.schedule is Some <==> cron_rejection(expression@) is None,
{
}

/// Whether a builder can be built as far as its schedule goes.
pub open spec fn is_buildable<T, H: Host>(builder: TaskBuilder<T, H>) -> bool {
    builder.schedule is Some || cron_rejection(builder.expression@) is None
}

/// The helpers of a builder write the expression that they name, and the task can be built just
/// where the numbers are in range.
pub proof fn law_builder_helpers_write_expressions<T, H: Host>(
    builder: TaskBuilder<T, H>,
    n: u32,
    hour: u32,
    seconds: TaskBuilder<T, H>,
    minutes: TaskBuilder<T, H>,
    hours: TaskBuilder<T, H>,
    hourly: TaskBuilder<T, H>,
    daily: TaskBuilder<T, H>,
)
    requires
        call_ensures(TaskBuilder::<T, H>::every_seconds, (builder, n), seconds),
        call_ensures(TaskBuilder::<T, H>::every_minutes, (builder, n), minutes),
        call_ensures(TaskBuilder::<T, H>::every_hours, (builder, n), hours),
        call_ensures(TaskBuilder::<T, H>::hourly_at, (builder, n), hourly),
        call_ensures(TaskBuilder::<T, H>::daily_at, (builder, hour, n), daily),
    ensures
        exists|a: Seq<char>, b: Seq<char>|
            {
                &&& #[trigger] writes(a, n as nat)
                &&& #[trigger] writes(b, hour as nat)
                &&& scheduled_by(builder, "*/"@ + a + " * * * * * *"@, seconds)
                &&& scheduled_by(builder, "0 */"@ + a + " * * * * *"@, minutes)
                &&& scheduled_by(builder, "0 0 */"@ + a + " * * * *"@, hours)
                &&& scheduled_by(builder, "0 "@ + a + " * * * * *"@, hourly)
                &&& scheduled_by(builder, "0 "@ + a + " "@ + b + " * * * *"@, daily)
            },
        is_buildable(seconds) <==> 1 <= n <= 59,
        is_buildable(minutes) <==> 1 <= n <= 59,
        is_buildable(hours) <==> 1 <= n <= 23,
        is_buildable(hourly) <==> n <= 59,
        is_buildable(daily) <==> hour <= 23 && n <= 59,
{
    lemma_decimal_writes(n as nat);
    lemma_decimal_writes(hour as nat);
    assert(writes(decimal(n as nat), n as nat) && writes(decimal(hour as nat), hour as nat));
}

/// A new builder makes a task that is due at the first minute of every hour, has no steps, keeps
/// twenty runs on record, skips what it misses, and has nothing else set.
pub proof fn law_new_builder_is_hourly<T, H: Host>(timezone: T, builder: TaskBuilder<T, H>)
    requires
        call_ensures(TaskBuilder::<T, H>::new, (timezone,), builder),
    ensures
        builder.expression@ == "0 0 * * * * *"@,
        builder.schedule is None,
        builder.description is None && builder.name is None,
        builder.history_limit == 20,
        builder.steps@.len() == 0,
        builder.repeats is None,
        builder.timeout is None && builder.retry_policy is None,
        builder.on_success is None && builder.on_failure is None && builder.on_finish is None,
        builder.overlap == OverlapPolicy::Skip,
        builder.blackboard is None,
        builder.timezone == timezone,
{
    reveal_strlit("0 ");
    reveal_strlit(" * * * * *");
    reveal_strlit("0 0 * * * * *");
    assert(decimal(0) =~= seq!['0']);
    assert(builder.expression@ =~= "0 0 * * * * *"@);
}

/// Each setting of a builder changes what it names, to what it was given, and nothing else.
pub proof fn law_builder_sets_one_thing<T, H: Host>(
    builder: TaskBuilder<T, H>,
    text: &str,
    count: usize,
    span: Duration,
    policy: RetryPolicy,
    overlap: OverlapPolicy,
    board: H::Board,
    callback: H::Callback,
    described: TaskBuilder<T, H>,
    named: TaskBuilder<T, H>,
    limited: TaskBuilder<T, H>,
    repeated: TaskBuilder<T, H>,
    timed: TaskBuilder<T, H>,
    retried: TaskBuilder<T, H>,
    overlapping: TaskBuilder<T, H>,
    boarded: TaskBuilder<T, H>,
    succeeding: TaskBuilder<T, H>,
    failing: TaskBuilder<T, H>,
    finishing: TaskBuilder<T, H>,
)
    requires
        call_ensures(TaskBuilder::<T, H>::description, (builder, text), described),
        call_ensures(TaskBuilder::<T, H>::name, (builder, text), named),
        call_ensures(TaskBuilder::<T, H>::history_limit, (builder, count), limited),
        call_ensures(TaskBuilder::<T, H>::repeat, (builder, count), repeated),
        call_ensures(TaskBuilder::<T, H>::timeout, (builder, span), timed),
        call_ensures(TaskBuilder::<T, H>::retry, (builder, policy), retried),
        call_ensures(TaskBuilder::<T, H>::overlap, (builder, overlap), overlapping),
        call_ensures(TaskBuilder::<T, H>::blackboard, (builder, board), boarded),
        call_ensures(TaskBuilder::<T, H>::on_success, (builder, callback), succeeding),
        call_ensures(TaskBuilder::<T, H>::on_failure, (builder, callback), failing),
        call_ensures(TaskBuilder::<T, H>::on_finish, (builder, callback), finishing),
    ensures
        described.description matches Some(held) && held@ == text@,
        described == (TaskBuilder { description: described.description, ..builder }),
        named.name matches Some(held) && held@ == text@,
        named == (TaskBuilder { name: named.name, ..builder }),
        limited == (TaskBuilder { history_limit: count, ..builder }),
        repeated == (TaskBuilder { repeats: Some(count), ..builder }),
        timed == (TaskBuilder { timeout: Some(span), ..builder }),
        retried == (TaskBuilder { retry_policy: Some(policy), ..builder }),
        overlapping == (TaskBuilder { overlap, ..builder }),
        boarded == (TaskBuilder { blackboard: Some(board), ..builder }),
        succeeding == (TaskBuilder { on_success: Some(callback), ..builder }),
        failing == (TaskBuilder { on_failure: Some(callback), ..builder }),
        finishing == (TaskBuilder { on_finish: Some(callback), ..builder }),
{
}

/// Whether a step was added behind the others.
pub open spec fn step_added<F>(
    before: Seq<TaskStep<F>>,
    function: F,
    description: Option<Seq<char>>,
    after: Seq<TaskStep<F>>,
) -> bool {
    let n = before.len() as int;
    &&& after.len() == n + 1
    &&& forall|i: int| 0 <= i < n ==> #[trigger] after[i] == before[i]
    &&& after[n].function == function
    &&& match description {
        Some(text) => after[n].description matches Some(held) && held@ == text,
        None => after[n].description is None,
    }
}

/// Steps are added to a builder in order, with their description or without one.
pub proof fn law_builder_steps_stay_in_order<T, H: Host>(
    builder: TaskBuilder<T, H>,
    text: &str,
    function: H::Step,
    told: TaskBuilder<T, H>,
    plain: TaskBuilder<T, H>,
)
    requires
        call_ensures(TaskBuilder::<T, H>::add_step, (builder, text, function), told),
        call_ensures(TaskBuilder::<T, H>::add_step_default, (builder, function), plain),
    ensures
        step_added(builder.steps@, function, Some(text@), told.steps@),
        told == (TaskBuilder { steps: told.steps, ..builder }),
        step_added(builder.steps@, function, None, plain.steps@),
        plain == (TaskBuilder { steps: plain.steps, ..builder }),
{
    let n = builder.steps@.len() as int;
    assert forall|i: int| 0 <= i < n implies #[trigger] told.steps@[i] == builder.steps@[i] by {
        assert(told.steps@.drop_last()[i] == told.steps@[i]);
    }
}

/// A built task has everything that was set on its builder, and has not run. It cannot be built
/// only where the expression is rejected; the error names the expression and the reason.
pub proof fn law_built_task_has_what_was_set<T, H: Host>(
    builder: TaskBuilder<T, H>,
    built: TaskResult<Task<T, H>>,
)
    requires
        call_ensures(TaskBuilder::<T, H>::build, (builder,), built),
    ensures
        built is Ok <==> is_buildable(builder),
        built matches Err(error) ==> (error matches TaskError::InvalidCronExpression(text) && text@
            == "Invalid cron expression '"@ + builder.expression@ + "': "@ + cron_rejection(
            builder.expression@,
        )->0),
        built matches Ok(task) ==> {
            &&& task.steps == builder.steps
            &&& task.repeats == builder.repeats
            &&& match builder.description {
                Some(text) => task.description@ == text@,
                None => task.description@ == "-"@,
            }
            &&& task.name == builder.name
            &&& task.timezone == builder.timezone
            &&& task.history_limit == builder.history_limit
            &&& task.timeout == builder.timeout
            &&& task.retry_policy == builder.retry_policy
            &&& task.on_success == builder.on_success
            &&& task.on_failure == builder.on_failure
            &&& task.on_finish == builder.on_finish
            &&& task.overlap == builder.overlap
            &&& builder.blackboard matches Some(board) ==> task.blackboard == board
            &&& builder.blackboard is None ==> call_ensures(
                <H::Board as Default>::default,
                (),
                task.blackboard,
            )
            &&& builder.schedule matches Some(schedule) ==> task.schedule == schedule
            &&& builder.schedule is None ==> task.schedule@ == builder.expression@
            &&& task.status == Status::Init
            &&& task.next_exec is None
            &&& task.task_id == 0
            &&& task.step_states@.len() == 0
            &&& task.last_attempts == 0
        },
{
}

/// Whether a task is as a new one: it has what it was made with, no steps, twenty runs on record
/// at most, skips what it misses, and has nothing else set.
pub open spec fn is_made_of<T, H: Host>(
    task: Task<T, H>,
    expression: Seq<char>,
    description: Option<&str>,
    repeats: Option<usize>,
    timezone: T,
) -> bool {
    &&& task.schedule@ == expression
    &&& match description {
        Some(text) => task.description@ == text@,
        None => task.description@ == "-"@,
    }
    &&& task.repeats == repeats
    &&& task.timezone == timezone
    &&& task.steps@.len() == 0
    &&& task.step_states@.len() == 0
    &&& task.history_limit == 20
    &&& task.task_id == 0
    &&& task.last_attempts == 0
    &&& task.name is None
    &&& task.next_exec is None
    &&& task.status == Status::Init
    &&& task.timeout is None
    &&& task.retry_policy is None
    &&& task.on_success is None
    &&& task.on_failure is None
    &&& task.on_finish is None
    &&& task.overlap == OverlapPolicy::Skip
    &&& call_ensures(<H::Board as Default>::default, (), task.blackboard)
}

/// A task is made of an expression just where that is accepted; the error tells the reason.
pub proof fn law_new_task_is_made_of_its_arguments<T, H: Host>(
    expression: &str,
    schedule: Schedule,
    description: Option<&str>,
    repeats: Option<usize>,
    timezone: T,
    made: TaskResult<Task<T, H>>,
    set: Task<T, H>,
)
    requires
        call_ensures(Task::<T, H>::new, (expression, description, repeats, timezone), made),
        call_ensures(Task::<T, H>::on_schedule, (schedule, description, repeats, timezone), set),
    ensures
        made is Ok <==> cron_rejection(expression@) is None,
        made matches Ok(task) ==> is_made_of(task, expression@, description, repeats, timezone),
        made matches Err(error) ==> (error matches TaskError::InvalidCronExpression(text) && text@
            == "Invalid cron expression: "@ + cron_rejection(expression@)->0),
        is_made_of(set, schedule@, description, repeats, timezone),
        set.schedule == schedule,
{
}

/// Each setter of a task changes what it names, to what it was given, and nothing else, and hands
/// the task on.
pub proof fn law_setters_set_one_thing<T, H: Host>(
    a: &mut Task<T, H>,
    schedule: Schedule,
    with_schedule: &mut Task<T, H>,
    b: &mut Task<T, H>,
    span: Duration,
    with_timeout: &mut Task<T, H>,
    c: &mut Task<T, H>,
    policy: RetryPolicy,
    with_policy: &mut Task<T, H>,
    d: &mut Task<T, H>,
    overlap: OverlapPolicy,
    with_overlap: &mut Task<T, H>,
)
    requires
        call_ensures(Task::<T, H>::set_schedule, (a, schedule), with_schedule),
        call_ensures(Task::<T, H>::set_timeout, (b, span), with_timeout),
        call_ensures(Task::<T, H>::set_retry_policy, (c, policy), with_policy),
        call_ensures(Task::<T, H>::set_overlap, (d, overlap), with_overlap),
    ensures
        *old(with_schedule) == (Task { schedule, ..*old(a) }),
        *final(a) == *final(with_schedule),
        *old(with_timeout) == (Task { timeout: Some(span), ..*old(b) }),
        *final(b) == *final(with_timeout),
        *old(with_policy) == (Task { retry_policy: Some(policy), ..*old(c) }),
        *final(c) == *final(with_policy),
        *old(with_overlap) == (Task { overlap, ..*old(d) }),
        *final(d) == *final(with_overlap),
{
}

/// The other setters of a task, likewise.
pub proof fn law_other_setters_set_one_thing<T, H: Host>(
    a: &mut Task<T, H>,
    name: &str,
    with_name: &mut Task<T, H>,
    b: &mut Task<T, H>,
    limit: usize,
    with_limit: &mut Task<T, H>,
    c: &mut Task<T, H>,
    board: H::Board,
    with_board: &mut Task<T, H>,
    d: &mut Task<T, H>,
    on_success: Option<H::Callback>,
    on_failure: Option<H::Callback>,
    on_finish: Option<H::Callback>,
    with_callbacks: &mut Task<T, H>,
    e: &mut Task<T, H>,
    id: usize,
)
    requires
        call_ensures(Task::<T, H>::set_name, (a, name), with_name),
        call_ensures(Task::<T, H>::set_history_limit, (b, limit), with_limit),
        call_ensures(Task::<T, H>::set_blackboard, (c, board), with_board),
        call_ensures(
            Task::<T, H>::set_callbacks,
            (d, on_success, on_failure, on_finish),
            with_callbacks,
        ),
        call_ensures(Task::<T, H>::set_id, (e, id), ()),
    ensures
        old(with_name).name matches Some(held) && held@ == name@,
        *old(with_name) == (Task { name: old(with_name).name, ..*old(a) }),
        *final(a) == *final(with_name),
        *old(with_limit) == (Task { history_limit: limit, ..*old(b) }),
        *final(b) == *final(with_limit),
        *old(with_board) == (Task { blackboard: board, ..*old(c) }),
        *final(c) == *final(with_board),
        *old(with_callbacks) == (Task { on_success, on_failure, on_finish, ..*old(d) }),
        *final(d) == *final(with_callbacks),
        *final(e) == (Task { task_id: id, ..*old(e) }),
{
}

/// Steps are added to a task in order, with their description or without one; setting them puts
/// others in their place.
pub proof fn law_task_steps_stay_in_order<T, H: Host>(
    a: &mut Task<T, H>,
    text: &str,
    function: H::Step,
    told: &mut Task<T, H>,
    b: &mut Task<T, H>,
    plain: &mut Task<T, H>,
    c: &mut Task<T, H>,
    steps: Vec<TaskStep<H::Step>>,
    other: &mut Task<T, H>,
)
    requires
        call_ensures(Task::<T, H>::add_step, (a, text, function), told),
        call_ensures(Task::<T, H>::add_step_default, (b, function), plain),
        call_ensures(Task::<T, H>::set_steps, (c, steps), other),
    ensures
        step_added(old(a).steps@, function, Some(text@), old(told).steps@),
        *old(told) == (Task { steps: old(told).steps, ..*old(a) }),
        *final(a) == *final(told),
        step_added(old(b).steps@, function, None, old(plain).steps@),
        *old(plain) == (Task { steps: old(plain).steps, ..*old(b) }),
        *final(b) == *final(plain),
        *old(other) == (Task { steps, ..*old(c) }),
        *final(c) == *final(other),
{
    let n = old(a).steps@.len() as int;
    let held = old(a).steps@;
    let kept = old(told).steps@;
    assert forall|i: int| 0 <= i < n implies #[trigger] kept[i] == held[i] by {
        assert(kept.drop_last()[i] == kept[i]);
    }
}

/// A step has what it was made with, and is shown by its description, or by a dash where that is
/// missing or empty.
pub proof fn law_step_is_shown_by_its_description<F>(
    text: &str,
    function: F,
    told: TaskStep<F>,
    plain: TaskStep<F>,
    any: TaskStep<F>,
    shown: String,
)
    requires
        call_ensures(TaskStep::<F>::new, (text, function), told),
        call_ensures(TaskStep::<F>::default, (function,), plain),
        call_ensures(TaskStep::<F>::label, (&any,), shown),
    ensures
        told.function == function,
        told.description matches Some(held) && held@ == text@,
        plain.function == function,
        plain.description is None,
        any.description is None ==> shown@ == "-"@,
        any.description matches Some(held) ==> shown@ == if held@.len() == 0 {
            "-"@
        } else {
            held@
        },
{
}

/// A context tells what it holds.
pub proof fn law_context_tells_what_it_holds<B>(
    context: TaskContext<B>,
    task_id: usize,
    name: Option<&str>,
    run_id: usize,
    index: usize,
    attempt: u32,
    board: &B,
    store: &B,
)
    requires
        call_ensures(TaskContext::<B>::task_id, (&context,), task_id),
        call_ensures(TaskContext::<B>::task_name, (&context,), name),
        call_ensures(TaskContext::<B>::run_id, (&context,), run_id),
        call_ensures(TaskContext::<B>::step_index, (&context,), index),
        call_ensures(TaskContext::<B>::attempt, (&context,), attempt),
        call_ensures(TaskContext::<B>::blackboard, (&context,), board),
        call_ensures(TaskContext::<B>::run_store, (&context,), store),
    ensures
        task_id == context.task_id,
        context.task_name is None ==> name is None,
        context.task_name matches Some(held) ==> (name matches Some(text) && text@ == held@),
        run_id == context.run_id,
        index == context.step_index,
        attempt == context.attempt,
        *board == context.blackboard,
        *store == context.run_store,
{
}

/// A copied context tells the same, and leads to copies of the same stores.
pub proof fn law_copied_context_tells_the_same<B: Clone>(
    context: TaskContext<B>,
    copy: TaskContext<B>,
)
    requires
        call_ensures(<TaskContext<B> as Clone>::clone, (&context,), copy),
    ensures
        copy.task_id == context.task_id,
        copy.task_name == context.task_name,
        copy.run_id == context.run_id,
        copy.step_index == context.step_index,
        copy.attempt == context.attempt,
        cloned(context.blackboard, copy.blackboard),
        cloned(context.run_store, copy.run_store),
{
}

/// Whether a task's snapshot shows every step as pending, in order and by its description.
pub open spec fn shows_pending<F>(steps: Seq<TaskStep<F>>, states: Seq<StepState>) -> bool {
    &&& states.len() == steps.len()
    &&& forall|i: int|
        0 <= i < steps.len() ==> {
            &&& (#[trigger] states[i]).index == i as usize
            &&& states[i].description == steps[i].description
            &&& states[i].status == StepStatus::Pending
        }
}

/// Whether a task was made ready: every step is pending, and it is scheduled at its first
/// occurrence, or finished where there is none.
pub open spec fn made_ready<T, H: Host>(
    before: Task<T, H>,
    next: Option<Timestamp>,
    after: Task<T, H>,
) -> bool {
    &&& shows_pending(before.steps@, after.step_states@)
    &&& after == Task {
        step_states: after.step_states,
        status: after.status,
        next_exec: after.next_exec,
        ..before
    }
    &&& match next {
        Some(at) => after.status == Status::Scheduled && after.next_exec == Some(at),
        None => after.status == Status::Finished && after.next_exec == before.next_exec,
    }
}

/// A task is made ready by its first occurrence, and its snapshot is reset with nothing else.
pub proof fn law_task_is_made_ready<T, H: Host>(
    task: &mut Task<T, H>,
    next: Option<Timestamp>,
    reset: &mut Task<T, H>,
)
    requires
        call_ensures(Task::<T, H>::init_at, (task, next), ()),
        call_ensures(Task::<T, H>::reset_step_states, (reset,), ()),
    ensures
        made_ready(*old(task), next, *final(task)),
        shows_pending(old(reset).steps@, final(reset).step_states@),
        *final(reset) == (Task { step_states: final(reset).step_states, ..*old(reset) }),
{
}

/// Whether a task was moved on after a run: scheduled at its next occurrence where it has repeats
/// left and there is one, and finished otherwise. In any other status it stays as it is.
pub open spec fn moved_on_after_run<T, H: Host>(
    before: Task<T, H>,
    next: Option<Timestamp>,
    after: Task<T, H>,
) -> bool {
    match before.status {
        Status::Failed | Status::Executed => match (before.repeats, next) {
            (Some(0), _) => after == Task { status: Status::Finished, ..before },
            (_, None) => after == Task { status: Status::Finished, ..before },
            (_, Some(at)) => after == Task {
                status: Status::Scheduled,
                next_exec: Some(at),
                ..before
            },
        },
        _ => after == before,
    }
}

/// Rescheduling moves a task on after a run; a task that is not ready yet is refused.
pub proof fn law_rescheduling_moves_the_task_on<T, H: Host>(
    task: &mut Task<T, H>,
    next: Option<Timestamp>,
    done: TaskResult<()>,
)
    requires
        call_ensures(Task::<T, H>::reschedule_at, (task, next), done),
    ensures
        moved_on_after_run(*old(task), next, *final(task)),
        old(task).status == Status::Init ==> done == Err::<(), TaskError>(
            TaskError::NotInitialized,
        ),
        old(task).status != Status::Init ==> done is Ok,
{
}

/// Whether a zone may answer with `next` when it is asked, at an instant that the clock read, for
/// the next occurrence of a schedule.
pub open spec fn comes_next<T: Zone>(zone: T, schedule: Schedule, next: Option<Timestamp>) -> bool {
    exists|now: Timestamp|
        clock_reads(now) && #[trigger] call_ensures(T::next_after, (&zone, &schedule, now), next)
}

/// By the clock, a task is made ready and moved on at an occurrence of its own schedule in its own
/// zone.
pub proof fn law_task_follows_its_schedule<T: Zone, H: Host>(
    task: Task<T, H>,
    next: Option<Timestamp>,
    ready: &mut Task<T, H>,
    moved: &mut Task<T, H>,
    done: TaskResult<()>,
)
    requires
        call_ensures(Task::<T, H>::upcoming, (&task,), next),
        call_ensures(Task::<T, H>::init, (ready,), ()),
        call_ensures(Task::<T, H>::reschedule, (moved,), done),
    ensures
        comes_next(task.timezone, task.schedule, next),
        exists|at: Option<Timestamp>|
            comes_next(old(ready).timezone, old(ready).schedule, at) && #[trigger] made_ready(
                *old(ready),
                at,
                *final(ready),
            ),
        exists|at: Option<Timestamp>|
            {
                &&& #[trigger] moved_on_after_run(*old(moved), at, *final(moved))
                &&& (old(moved).status == Status::Failed || old(moved).status == Status::Executed)
                    && old(moved).repeats != Some(0usize) ==> comes_next(
                    old(moved).timezone,
                    old(moved).schedule,
                    at,
                )
            },
        done is Err <==> old(moved).status == Status::Init,
{
    let at = choose|at: Option<Timestamp>|
        #[trigger] upcoming(old(ready).timezone, old(ready).schedule, at) && old(ready).inited(
            at,
            *final(ready),
        );
    assert(made_ready(*old(ready), at, *final(ready)));
    if old(moved).continues() {
        let at = choose|at: Option<Timestamp>|
            #[trigger] upcoming(old(moved).timezone, old(moved).schedule, at) && *final(moved)
                == old(moved).rescheduled(at);
        assert(moved_on_after_run(*old(moved), at, *final(moved)));
    } else {
        assert(moved_on_after_run(*old(moved), None, *final(moved)));
    }
}

/// What a task tells of itself: whether it is over for good, whether it goes on after a run, and
/// what its last run came to.
pub proof fn law_task_tells_where_it_stands<T, H: Host>(
    task: Task<T, H>,
    terminal: bool,
    left: bool,
    outcome: RunOutcome,
)
    requires
        call_ensures(Task::<T, H>::is_terminal, (&task,), terminal),
        call_ensures(Task::<T, H>::has_repeats_left, (&task,), left),
        call_ensures(Task::<T, H>::run_outcome, (&task,), outcome),
    ensures
        terminal <==> task.status == Status::Finished || task.status == Status::ForceRemoved,
        left <==> (task.status == Status::Failed || task.status == Status::Executed)
            && task.repeats != Some(0usize),
        outcome == RunOutcome::ForceRemoved <==> task.status == Status::ForceRemoved,
        outcome == RunOutcome::Failed <==> task.status == Status::Failed,
        outcome == RunOutcome::HadErrors <==> task.status != Status::ForceRemoved && task.status
            != Status::Failed && exists|i: int|
            0 <= i < task.step_states@.len() && (#[trigger] task.step_states@[i]).status
                == StepStatus::HadErrors,
        outcome == RunOutcome::Success <==> task.status != Status::ForceRemoved && task.status
            != Status::Failed && forall|i: int|
            0 <= i < task.step_states@.len() ==> (#[trigger] task.step_states@[i]).status
                != StepStatus::HadErrors,
{
}

/// A task starts uninitialized, a step pending, and a missed occurrence is skipped by default.
pub proof fn law_defaults_are_the_first_states(
    status: Status,
    step: StepStatus,
    overlap: OverlapPolicy,
)
    requires
        call_ensures(<Status as Default>::default, (), status),
        call_ensures(<StepStatus as Default>::default, (), step),
        call_ensures(<OverlapPolicy as Default>::default, (), overlap),
    ensures
        status == Status::Init,
        step == StepStatus::Pending,
        overlap == OverlapPolicy::Skip,
{
}

/// A schedule is parsed from an expression just where that is accepted, and gives it back; a
/// rejection tells its reason.
pub proof fn law_schedule_gives_its_expression_back(
    expression: &str,
    parsed: Result<Schedule, String>,
    any: Schedule,
    source: &str,
)
    requires
        call_ensures(Schedule::parse, (expression,), parsed),
        call_ensures(Schedule::source, (&any,), source),
    ensures
        parsed is Ok <==> cron_rejection(expression@) is None,
        parsed == Ok::<Schedule, String>(any) ==> source@ == expression@,
        parsed matches Err(text) ==> cron_rejection(expression@) == Some(text@),
{
}

/// In UTC the next occurrence is that of the schedule's own expression after the instant asked,
/// in a later second, and there is none from the year 10000 on.
pub proof fn law_next_occurrence_in_utc(
    zone: chrono::Utc,
    expression: &str,
    schedule: Schedule,
    now: Timestamp,
    next: Option<Timestamp>,
)
    requires
        call_ensures(Schedule::parse, (expression,), Ok::<Schedule, String>(schedule)),
        call_ensures(<chrono::Utc as Zone>::next_after, (&zone, &schedule, now), next),
    ensures
        now.secs < 253_402_300_800 ==> next == cron_next(expression@, now),
        now.secs >= 253_402_300_800 ==> next is None,
        next matches Some(at) ==> at.secs > now.secs && at.nanos == 0,
{
}

/// In the machine's own zone the next occurrence is what the search there gives for the
/// schedule's own expression and the instant asked. It starts a second, there is none for an
/// expression that is rejected, and none from the year 10000 on.
pub proof fn law_next_occurrence_in_local_time(
    zone: chrono::Local,
    schedule: Schedule,
    now: Timestamp,
    next: Option<Timestamp>,
)
    requires
        call_ensures(<chrono::Local as Zone>::next_after, (&zone, &schedule, now), next),
    ensures
        now.secs < 253_402_300_800 ==> local_answer(schedule@, now, next),
        now.secs >= 253_402_300_800 ==> next is None,
        next matches Some(at) ==> at.nanos == 0,
        cron_rejection(schedule@) is Some ==> next is None,
{
}

/// An error says what went wrong, and whatever text it carries.
pub proof fn law_error_says_what_went_wrong(error: TaskError, text: String)
    requires
        call_ensures(TaskError::message, (&error,), text),
    ensures
        match error {
            TaskError::NotInitialized => text@ == "Task not initialized yet"@,
            TaskError::AlreadyExecuted => text@ == "Task already executed and must be rescheduled"@,
            TaskError::Failed => text@ == "Task failed and must be rescheduled"@,
            TaskError::Finished => text@ == "Task has finished and must be removed"@,
            TaskError::ForceRemoved => text@ == "Task has been force removed"@,
            TaskError::InvalidCronExpression(told) => text@ == "Invalid cron expression: "@ + told@,
            TaskError::DuplicateTaskName(name) => text@ == "Duplicate task name: "@ + name@,
            TaskError::MissingComponent(told) => text@ == "Missing required component: "@ + told@,
            TaskError::ExecutionError(told) => text@ == "Task execution error: "@ + told@,
        },
{
}

/// A generator starts at its first occurrence with what it was made with; without one it cannot be
/// made.
pub proof fn law_generator_starts_at_its_first_occurrence<T: Zone, G>(
    schedule: Schedule,
    timezone: T,
    function: G,
    next: Option<Timestamp>,
    made: TaskResult<TaskGenerator<T, G>>,
)
    requires
        call_ensures(
            TaskGenerator::<T, G>::starting_at,
            (schedule, timezone, function, next),
            made,
        ),
    ensures
        made is Ok <==> next is Some,
        made matches Ok(generator) ==> {
            &&& generator.discovery_function == function
            &&& generator.schedule == schedule
            &&& generator.timezone == timezone
            &&& generator.next_exec == next
        },
        made matches Err(error) ==> (error matches TaskError::InvalidCronExpression(text) && text@
            == "The schedule has no upcoming execution"@),
{
}

/// A generator is made of an expression that is accepted and has an occurrence to come, and starts
/// at that; a rejection tells its reason.
pub proof fn law_generator_is_made_of_its_expression<T: Zone, G>(
    expression: &str,
    timezone: T,
    function: G,
    made: TaskResult<TaskGenerator<T, G>>,
)
    requires
        call_ensures(TaskGenerator::<T, G>::new, (expression, timezone, function), made),
    ensures
        cron_rejection(expression@) matches Some(reason) ==> (made matches Err(
            TaskError::InvalidCronExpression(text),
        ) && text@ == "Invalid cron expression: "@ + reason),
        cron_rejection(expression@) is None ==> match made {
            Ok(generator) => {
                &&& generator.schedule@ == expression@
                &&& generator.timezone == timezone
                &&& generator.discovery_function == function
                &&& generator.next_exec is Some
                &&& comes_next(timezone, generator.schedule, generator.next_exec)
            },
            Err(TaskError::InvalidCronExpression(text)) => text@
                == "The schedule has no upcoming execution"@ && exists|schedule: Schedule|
                schedule@ == expression@ && #[trigger] comes_next(timezone, schedule, None),
            Err(_) => false,
        },
{
    if cron_rejection(expression@) is None {
        let (schedule, next) = choose|schedule: Schedule, next: Option<Timestamp>|
            {
                &&& schedule@ == expression@
                &&& #[trigger] upcoming(timezone, schedule, next)
                &&& match next {
                    Some(_) => made == Ok::<TaskGenerator<T, G>, TaskError>(
                        TaskGenerator {
                            discovery_function: function,
                            schedule,
                            timezone,
                            next_exec: next,
                        },
                    ),
                    None => made matches Err(TaskError::InvalidCronExpression(text)) && text@
                        == "The schedule has no upcoming execution"@,
                }
            };
        assert(comes_next(timezone, schedule, next));
    }
}

/// A generator is due once its next occurrence has come, and never where it has none.
pub proof fn law_generator_is_due_when_its_time_has_come<T, G>(
    generator: TaskGenerator<T, G>,
    now: Timestamp,
    due: bool,
)
    requires
        call_ensures(TaskGenerator::<T, G>::is_due, (&generator, now), due),
    ensures
        generator.next_exec matches Some(at) ==> (due <==> has_come(at, now)),
        generator.next_exec is None ==> !due,
{
}

/// Running a generator calls its discovery function, gives what that found and moves on to the
/// next occurrence, which by the clock is one of its own schedule in its own zone.
pub proof fn law_generator_gives_what_it_found<
    T: Zone,
    H: Host,
    G: FnMut() -> Option<TaskResult<Task<T, H>>>,
>(
    a: &mut TaskGenerator<T, G>,
    next: Option<Timestamp>,
    found: Option<TaskResult<Task<T, H>>>,
    b: &mut TaskGenerator<T, G>,
    came: Option<TaskResult<Task<T, H>>>,
    any: TaskGenerator<T, G>,
    at: Option<Timestamp>,
)
    requires
        call_ensures(TaskGenerator::<T, G>::run_at::<H>, (a, next), found),
        call_ensures(TaskGenerator::<T, G>::run::<H>, (b,), came),
        call_ensures(TaskGenerator::<T, G>::upcoming, (&any,), at),
    ensures
        call_ensures(old(a).discovery_function, (), found),
        final(a).next_exec == next,
        final(a).schedule == old(a).schedule,
        final(a).timezone == old(a).timezone,
        call_ensures(old(b).discovery_function, (), came),
        comes_next(old(b).timezone, old(b).schedule, final(b).next_exec),
        final(b).schedule == old(b).schedule,
        final(b).timezone == old(b).timezone,
        comes_next(any.timezone, any.schedule, at),
{
}

} // verus!
