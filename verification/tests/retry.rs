//! Retry policies: delays, caps and jitter.

use std::collections::HashSet;

use tasklet::retry::{Backoff, Jitter};
use tasklet::{Duration, RetryPolicy};

fn nanos(delay: Duration) -> u128 {
    delay.as_nanos()
}

#[test]
fn fixed_delay_is_constant() {
    let policy = RetryPolicy::fixed(3, Duration::from_millis(100));
    assert_eq!(policy.max_retries, 3);
    assert_eq!(policy.delay(0), Duration::from_millis(100));
    assert_eq!(policy.delay(1), Duration::from_millis(100));
    assert_eq!(policy.delay(5), Duration::from_millis(100));
}

#[test]
fn exponential_delay_grows() {
    let policy = RetryPolicy::exponential(5, Duration::from_millis(100), 2);
    assert_eq!(policy.delay(0), Duration::from_millis(100));
    assert_eq!(policy.delay(1), Duration::from_millis(200));
    assert_eq!(policy.delay(2), Duration::from_millis(400));
    assert_eq!(policy.delay(3), Duration::from_millis(800));
}

#[test]
fn exponential_delay_is_capped() {
    let policy = RetryPolicy::exponential(10, Duration::from_millis(100), 2)
        .with_max_delay(Duration::from_millis(500));
    assert_eq!(policy.delay(0), Duration::from_millis(100));
    assert_eq!(policy.delay(2), Duration::from_millis(400));
    // 800ms would exceed the cap, so it is clamped.
    assert_eq!(policy.delay(3), Duration::from_millis(500));
    assert_eq!(policy.delay(10), Duration::from_millis(500));
}

#[test]
fn exponential_delay_does_not_overflow() {
    let policy = RetryPolicy::exponential(usize::MAX, Duration::from_secs(1), 10)
        .with_max_delay(Duration::from_secs(30));
    // A huge retry index would overflow a naive `base * factor^n`; saturation
    // keeps it clamped at the configured maximum.
    assert_eq!(policy.delay(1000), Duration::from_secs(30));
}

#[test]
fn with_max_delay_is_noop_for_fixed() {
    let policy = RetryPolicy::fixed(2, Duration::from_millis(50))
        .with_max_delay(Duration::from_millis(10));
    assert_eq!(policy.delay(0), Duration::from_millis(50));
}

#[test]
fn jitter_defaults_to_none() {
    let policy = RetryPolicy::fixed(2, Duration::from_millis(100));
    assert_eq!(policy.jitter, Jitter::Off);
    // Without jitter, the runtime delay equals the deterministic base.
    assert_eq!(policy.jittered_delay(0), Duration::from_millis(100));
}

#[test]
fn full_jitter_stays_within_bounds() {
    fastrand::seed(42);
    let base = Duration::from_millis(100);
    let policy = RetryPolicy::fixed(3, base).with_jitter(Jitter::Full);
    for _ in 0..1000 {
        let d = policy.jittered_delay(0);
        assert!(nanos(d) <= nanos(base), "full jitter must not exceed the base delay");
    }
}

#[test]
fn equal_jitter_stays_within_bounds() {
    fastrand::seed(7);
    let base = Duration::from_millis(100);
    let policy = RetryPolicy::exponential(3, base, 2).with_jitter(Jitter::Equal);
    for _ in 0..1000 {
        // retry_index 1 => base * 2 = 200ms; equal jitter => [100ms, 200ms].
        let d = policy.jittered_delay(1);
        assert!(
            nanos(d) >= nanos(Duration::from_millis(100))
                && nanos(d) <= nanos(Duration::from_millis(200)),
            "equal jitter out of bounds: {:?}",
            d
        );
    }
}

#[test]
fn jitter_produces_varied_values() {
    fastrand::seed(123);
    let policy = RetryPolicy::fixed(3, Duration::from_millis(100)).with_jitter(Jitter::Full);
    let mut seen = HashSet::new();
    for _ in 0..50 {
        seen.insert(policy.jittered_delay(0).as_nanos());
    }
    // With full jitter over 50 draws we expect more than a single value.
    assert!(seen.len() > 1, "jitter should vary the delay");
}

#[test]
fn draws_are_applied_exactly() {
    let delay = Duration::from_millis(100);
    assert_eq!(Jitter::Off.apply_draw(delay, 0), delay);
    assert_eq!(Jitter::Full.apply_draw(delay, 123), Duration::from_nanos(123));
    assert_eq!(
        Jitter::Equal.apply_draw(delay, 7),
        Duration::from_nanos(50_000_007)
    );
    assert_eq!(Jitter::default(), Jitter::Off);
}

#[test]
fn full_jitter_is_not_the_delay_itself() {
    fastrand::seed(5);
    let delay = Duration::from_secs(3600);
    // The draw replaces the delay; handing the bound back would repeat it.
    assert!((0..20).any(|_| Jitter::Full.apply(delay) != delay));
}

#[test]
fn sub_millisecond_bases_are_kept() {
    let policy = RetryPolicy::exponential(3, Duration::from_nanos(300), 3);
    assert_eq!(policy.delay(0), Duration::from_nanos(300));
    assert_eq!(policy.delay(2), Duration::from_nanos(2700));
}

#[test]
fn uncapped_growth_saturates() {
    let ceiling = Duration::from_millis(u64::MAX);
    let policy = RetryPolicy::exponential(3, Duration::from_secs(1), u32::MAX);
    assert_eq!(policy.delay(4), ceiling);
    assert_eq!(policy.delay(u32::MAX), ceiling);
    // A factor of one never grows, and a factor of zero leaves nothing after the first retry.
    let flat = RetryPolicy::exponential(3, Duration::from_secs(1), 1);
    assert_eq!(flat.delay(u32::MAX), Duration::from_secs(1));
    let gone = RetryPolicy::exponential(3, Duration::from_secs(1), 0);
    assert_eq!(gone.delay(0), Duration::from_secs(1));
    assert_eq!(gone.delay(1), Duration::from_secs(0));
    let nothing = RetryPolicy::exponential(3, Duration::from_secs(0), 7);
    assert_eq!(nothing.delay(9), Duration::from_secs(0));
}

/// A delay of more nanoseconds than 64 bits hold is spread over its whole range too.
#[test]
fn long_delays_are_spread_in_full() {
    fastrand::seed(11);
    let longest = Duration::from_millis(u64::MAX);
    let policy = RetryPolicy::exponential(3, Duration::from_secs(1), u32::MAX);
    assert_eq!(policy.delay(4), longest);
    for _ in 0..1000 {
        let d = policy.with_jitter(Jitter::Equal).jittered_delay(4);
        assert!(nanos(d) >= nanos(longest) / 2 && nanos(d) <= nanos(longest));
        let d = Jitter::Equal.apply(Duration::from_secs(u64::MAX));
        assert!(d.as_secs() >= u64::MAX / 2);
        assert!(nanos(Jitter::Full.apply(longest)) <= nanos(longest));
    }
    // More than 64 bits of nanoseconds are drawn from.
    assert!((0..20).any(|_| nanos(Jitter::Full.apply(longest)) > u64::MAX as u128));
    assert_eq!(Jitter::Off.apply(longest), longest);
}

/// The ends of the range come out of the ends of the draw.
#[test]
fn equal_jitter_reaches_both_ends() {
    let delay = Duration::from_nanos(101);
    assert_eq!(Jitter::Equal.apply_draw(delay, 0), Duration::from_nanos(50));
    assert_eq!(Jitter::Equal.apply_draw(delay, 51), delay);
    let longest = Duration::from_millis(u64::MAX);
    let half = nanos(longest) / 2;
    assert_eq!(nanos(Jitter::Equal.apply_draw(longest, 0)), half);
    assert_eq!(Jitter::Equal.apply_draw(longest, nanos(longest) - half), longest);
    assert_eq!(Jitter::Full.apply_draw(longest, nanos(longest)), longest);
}

#[test]
fn policies_hold_what_they_were_made_of() {
    let base = Duration::from_millis(200);
    let policy = RetryPolicy::exponential(5, base, 2)
        .with_max_delay(Duration::from_secs(2))
        .with_jitter(Jitter::Equal);
    assert_eq!(policy.max_retries, 5);
    assert_eq!(
        policy.backoff,
        Backoff::Exponential { base, factor: 2, max: Some(Duration::from_secs(2)) }
    );
    assert_eq!(policy.jitter, Jitter::Equal);
}

#[test]
fn durations_split_into_seconds_and_nanoseconds() {
    let span = Duration::new(3, 250_000_000);
    assert_eq!(span.as_secs(), 3);
    assert_eq!(span.subsec_nanos(), 250_000_000);
    assert_eq!(span.as_nanos(), 3_250_000_000);
    assert_eq!(Duration::from_total_nanos(3_250_000_000), span);
    assert!(Duration::from_nanos(0).is_zero());
    assert!(!span.is_zero());
    assert_eq!(span.shorter(Duration::from_secs(1)), Duration::from_secs(1));
    assert_eq!(Duration::from_secs(1).shorter(span), Duration::from_secs(1));
}
