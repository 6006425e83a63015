//! Delays between attempts, and spans and instants of time.

use vstd::arithmetic::power::*;
use vstd::prelude::*;

use crate::laws::has_come;
use crate::retry::{drawn, Backoff, Jitter, RetryPolicy};
use crate::time::{Duration, Timestamp};

verus! {

/// The nanoseconds in the longest delay that an exponential backoff grows to: as many milliseconds
/// as sixty-four bits count.
pub open spec fn longest_delay() -> nat {
    0xffff_ffff_ffff_ffff * 1_000_000
}

/// The smaller of two counts.
pub open spec fn at_most(count: nat, bound: nat) -> nat {
    if count < bound {
        count
    } else {
        bound
    }
}

/// A policy is made with as many retries as it was told and its backoff, without jitter or cap.
pub proof fn law_policy_is_made_of_its_arguments(
    max_retries: usize,
    span: Duration,
    factor: u32,
    fixed: RetryPolicy,
    exponential: RetryPolicy,
)
    requires
        call_ensures(RetryPolicy::fixed, (max_retries, span), fixed),
        call_ensures(RetryPolicy::exponential, (max_retries, span, factor), exponential),
    ensures
        fixed.max_retries == max_retries,
        fixed.backoff == Backoff::Fixed(span),
        fixed.jitter == Jitter::Off,
        exponential.max_retries == max_retries,
        exponential.backoff == (Backoff::Exponential { base: span, factor, max: None }),
        exponential.jitter == Jitter::Off,
{
}

/// With a fixed backoff the same span is waited before every retry.
pub proof fn law_fixed_backoff_waits_alike(
    policy: RetryPolicy,
    span: Duration,
    n: u32,
    delay: Duration,
)
    requires
        policy.backoff == Backoff::Fixed(span),
        call_ensures(RetryPolicy::delay, (&policy, n), delay),
    ensures
        delay@ == span@,
{
}

/// With an exponential backoff that is not capped, the base is waited before the first retry, and
/// before each further one `factor` times as long as before the last; no delay grows beyond the
/// longest one.
pub proof fn law_exponential_backoff_multiplies(
    policy: RetryPolicy,
    base: Duration,
    factor: u32,
    n: u32,
    first: Duration,
    delay: Duration,
    next: Duration,
)
    requires
        policy.backoff == (Backoff::Exponential { base, factor, max: None }),
        call_ensures(RetryPolicy::delay, (&policy, 0u32), first),
        n < u32::MAX,
        call_ensures(RetryPolicy::delay, (&policy, n), delay),
        call_ensures(RetryPolicy::delay, (&policy, (n + 1) as u32), next),
    ensures
        first@ == at_most(base@, longest_delay()),
        next@ == at_most(factor as nat * delay@, longest_delay()),
{
    let ceiling = longest_delay();
    let power = pow(factor as int, n as nat);
    let grown = (base@ * power) as nat;
    lemma_pow0(factor as int);
    reveal(pow);
    if factor > 0 {
        lemma_pow_positive(factor as int, n as nat);
    } else if n > 0 {
        lemma0_pow(n as nat);
    }
    assert(base@ * power >= 0) by (nonlinear_arith)
        requires
            power >= 0,
    ;
    assert(base@ * (factor * power) == factor * (base@ * power)) by (nonlinear_arith);
    assert(factor >= 1 && grown > ceiling ==> factor * grown >= ceiling && factor * ceiling
        >= ceiling) by (nonlinear_arith);
    assert(factor == 0 ==> factor * grown == 0 && factor * ceiling == 0) by (nonlinear_arith);
}

/// A cap that is set on an exponential backoff takes the place of any other; a fixed one it
/// leaves as it is. How often to retry and the jitter stay.
pub proof fn law_cap_is_set(policy: RetryPolicy, cap: Duration, capped: RetryPolicy)
    requires
        call_ensures(RetryPolicy::with_max_delay, (policy, cap), capped),
    ensures
        capped.max_retries == policy.max_retries,
        capped.jitter == policy.jitter,
        policy.backoff is Fixed ==> capped.backoff == policy.backoff,
        policy.backoff matches Backoff::Exponential { base, factor, .. } ==> capped.backoff == (
        Backoff::Exponential { base, factor, max: Some(cap) }),
{
}

/// A cap bounds every delay of an exponential backoff and changes no shorter one, whatever else
/// the two policies have.
pub proof fn law_cap_bounds_the_delay(
    policy: RetryPolicy,
    capped: RetryPolicy,
    base: Duration,
    factor: u32,
    cap: Duration,
    n: u32,
    free: Duration,
    bound: Duration,
)
    requires
        policy.backoff == (Backoff::Exponential { base, factor, max: None }),
        capped.backoff == (Backoff::Exponential { base, factor, max: Some(cap) }),
        call_ensures(RetryPolicy::delay, (&policy, n), free),
        call_ensures(RetryPolicy::delay, (&capped, n), bound),
    ensures
        bound@ == at_most(free@, cap@),
{
}

/// A later cap takes the place of an earlier one.
pub proof fn law_last_cap_holds(
    policy: RetryPolicy,
    first: Duration,
    second: Duration,
    once: RetryPolicy,
    twice: RetryPolicy,
    alone: RetryPolicy,
)
    requires
        call_ensures(RetryPolicy::with_max_delay, (policy, first), once),
        call_ensures(RetryPolicy::with_max_delay, (once, second), twice),
        call_ensures(RetryPolicy::with_max_delay, (policy, second), alone),
    ensures
        twice == alone,
{
}

/// A policy that is given a jitter has that one, and is otherwise the same.
pub proof fn law_jitter_is_set(policy: RetryPolicy, jitter: Jitter, spread: RetryPolicy)
    requires
        call_ensures(RetryPolicy::with_jitter, (policy, jitter), spread),
    ensures
        spread.jitter == jitter,
        spread.max_retries == policy.max_retries,
        spread.backoff == policy.backoff,
{
}

/// Without jitter the delay stays. Full jitter gives a number drawn from the whole delay, and
/// equal jitter half of the delay and a number drawn from the rest of it.
pub proof fn law_jitter_spreads_the_delay(jitter: Jitter, delay: Duration, spread: Duration)
    requires
        call_ensures(Jitter::apply, (jitter, delay), spread),
    ensures
        match jitter {
            Jitter::Off => spread@ == delay@,
            Jitter::Full => spread@ <= delay@ && drawn(delay@, spread@),
            Jitter::Equal => delay@ / 2 <= spread@ <= delay@ && drawn(
                (delay@ - delay@ / 2) as nat,
                (spread@ - delay@ / 2) as nat,
            ),
        },
{
    let draw = choose|draw: nat|
        jitter.draws(delay, draw) && spread@ == #[trigger] jitter.spread_delay(delay, draw);
    assert(jitter.draws(delay, draw));
}

/// What a drawn number makes of a delay.
pub proof fn law_draw_decides_the_spread(
    jitter: Jitter,
    delay: Duration,
    draw: u128,
    spread: Duration,
)
    requires
        call_ensures(Jitter::apply_draw, (jitter, delay, draw), spread),
    ensures
        match jitter {
            Jitter::Off => spread@ == delay@,
            Jitter::Full => spread@ == draw,
            Jitter::Equal => spread@ == delay@ / 2 + draw,
        },
{
}

/// The delay that a policy sleeps for is its delay before that retry, spread by its own jitter.
pub proof fn law_slept_delay_is_spread(
    policy: RetryPolicy,
    n: u32,
    delay: Duration,
    slept: Duration,
)
    requires
        call_ensures(RetryPolicy::delay, (&policy, n), delay),
        call_ensures(RetryPolicy::jittered_delay, (&policy, n), slept),
    ensures
        match policy.jitter {
            Jitter::Off => slept@ == delay@,
            Jitter::Full => slept@ <= delay@ && drawn(delay@, slept@),
            Jitter::Equal => delay@ / 2 <= slept@ <= delay@ && drawn(
                (delay@ - delay@ / 2) as nat,
                (slept@ - delay@ / 2) as nat,
            ),
        },
{
    let (base, draw) = choose|base: Duration, draw: nat|
        base@ == policy.backoff.nanos(n as nat) && policy.jitter.draws(base, draw) && slept@
            == #[trigger] policy.jitter.spread_delay(base, draw);
    assert(policy.jitter.draws(base, draw));
}

/// There is no jitter by default.
pub proof fn law_no_jitter_by_default(jitter: Jitter)
    requires
        call_ensures(<Jitter as Default>::default, (), jitter),
    ensures
        jitter == Jitter::Off,
{
}

/// A span counts what it was made of: a second is a thousand milliseconds, and a millisecond a
/// million nanoseconds.
pub proof fn law_spans_count_what_they_are_made_of(
    secs: u64,
    millis: u64,
    nanos: u64,
    total: u128,
    rest: u32,
    of_secs: Duration,
    of_millis: Duration,
    of_nanos: Duration,
    of_total: Duration,
    of_both: Duration,
)
    requires
        call_ensures(Duration::from_secs, (secs,), of_secs),
        call_ensures(Duration::from_millis, (millis,), of_millis),
        call_ensures(Duration::from_nanos, (nanos,), of_nanos),
        call_ensures(Duration::from_total_nanos, (total,), of_total),
        call_ensures(Duration::new, (secs, rest), of_both),
    ensures
        of_secs@ == secs * 1_000_000_000,
        of_millis@ == millis * 1_000_000,
        of_nanos@ == nanos,
        of_total@ == total,
        of_both@ == secs * 1_000_000_000 + rest,
{
}

/// What is read of a span: the whole of it, its whole seconds and what is left beyond them.
pub proof fn law_spans_read_back(
    span: Duration,
    nanos: u128,
    secs: u64,
    rest: u32,
    zero: bool,
)
    requires
        call_ensures(Duration::as_nanos, (&span,), nanos),
        call_ensures(Duration::as_secs, (&span,), secs),
        call_ensures(Duration::subsec_nanos, (&span,), rest),
        call_ensures(Duration::is_zero, (&span,), zero),
    ensures
        nanos == span@,
        rest < 1_000_000_000,
        secs * 1_000_000_000 + rest == nanos,
        zero <==> nanos == 0,
{
}

/// A count of nanoseconds that was made into a span reads back.
pub proof fn law_nanoseconds_read_back(nanos: u64, span: Duration, read: u128)
    requires
        call_ensures(Duration::from_nanos, (nanos,), span),
        call_ensures(Duration::as_nanos, (&span,), read),
    ensures
        read == nanos,
{
}

/// The shorter of two spans is one of them, and neither is shorter than it.
pub proof fn law_shorter_span_is_the_lesser(one: Duration, two: Duration, least: Duration)
    requires
        call_ensures(Duration::shorter, (one, two), least),
    ensures
        least == one || least == two,
        least@ <= one@,
        least@ <= two@,
{
}

/// One instant is at or before another by its seconds first, and by its nanoseconds within a
/// second.
pub proof fn law_instants_compare_by_seconds_first(one: Timestamp, two: Timestamp, before: bool)
    requires
        call_ensures(Timestamp::is_at_or_before, (&one, &two), before),
    ensures
        before <==> has_come(one, two),
        one.secs < two.secs ==> before,
        one.secs > two.secs ==> !before,
        one.secs == two.secs ==> (before <==> one.nanos <= two.nanos),
{
}

} // verus!
