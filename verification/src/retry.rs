//! Retry policies for task steps.
//!
//! A [`RetryPolicy`] says how many times a failing step is attempted again and how long to
//! wait between attempts.

use vstd::arithmetic::power::*;
use vstd::prelude::*;

use crate::time::{Duration, MAX_NANOS};

verus! {

/// The longest delay an exponential backoff grows to: `u64::MAX` milliseconds.
pub const BACKOFF_CEILING: u128 = 18_446_744_073_709_551_615_000_000;

/// Randomized spread applied on top of the computed backoff delay.
///
/// Jitter avoids a "thundering herd" where many tasks that failed at the same instant all
/// retry at exactly the same time.
#[derive(Debug, Clone, Copy, PartialEq, Eq, Structural)]
pub enum Jitter {
    /// No jitter; use the computed delay exactly.
    Off,
    /// Pick a delay uniformly in `[0, computed]`.
    Full,
    /// Pick a delay uniformly in `[computed / 2, computed]`.
    Equal,
}

impl Default for Jitter {
    fn default() -> (jitter: Jitter)
        ensures
            jitter == Jitter::Off,
    {
        Jitter::Off
    }
}

/// A random number in `0..=max`, drawn by `fastrand::u128`.
///
/// That it lies in the range is all that is claimed. Which number of the range comes back, and
/// how likely each is, is up to the generator and not stated.
#[verifier::external_body]
fn random_up_to(max: u128) -> (draw: u128)
    ensures
        draw <= max,
{
    fastrand::u128(0..=max)
}

/// A random number in `0..=max`.
fn draw_up_to(max: u128) -> (draw: u128)
    ensures
        draw <= max,
        drawn(max as nat, draw as nat),
{
    random_up_to(max)
}

/// Whether `draw` is a number that the generator may give, when it is asked for one in `0..=max`.
pub closed spec fn drawn(max: nat, draw: nat) -> bool {
    exists|bound: u128, number: u128|
        bound == max && number == draw && #[trigger] call_ensures(random_up_to, (bound,), number)
}

impl Jitter {
    /// The largest number that may be drawn to spread `delay`.
    pub open spec fn spread(self, delay: Duration) -> nat {
        match self {
            Jitter::Off => 0,
            Jitter::Full => delay@,
            Jitter::Equal => (delay@ - delay@ / 2) as nat,
        }
    }

    /// Whether `draw` may be drawn to spread `delay`: one number of the range, from the generator.
    /// Without jitter nothing is drawn.
    pub open spec fn draws(self, delay: Duration, draw: nat) -> bool {
        &&& draw <= self.spread(delay)
        &&& !(self is Off) ==> drawn(self.spread(delay), draw)
    }

    /// The delay that comes out of `delay` when `draw` was drawn.
    pub open spec fn spread_delay(self, delay: Duration, draw: nat) -> nat {
        match self {
            Jitter::Off => delay@,
            Jitter::Full => draw,
            Jitter::Equal => delay@ / 2 + draw,
        }
    }

    /// Apply the jitter strategy to a computed backoff `delay`, given the number drawn for it.
    pub fn apply_draw(self, delay: Duration, draw: u128) -> (spread: Duration)
        requires
            draw <= self.spread(delay),
        ensures
            spread@ == self.spread_delay(delay, draw as nat),
    {
        let nanos: u128 = delay.as_nanos();
        match self {
            Jitter::Off => delay,
            Jitter::Full => Duration::from_total_nanos(draw),
            Jitter::Equal => Duration::from_total_nanos(nanos / 2 + draw),
        }
    }

    /// Apply the jitter strategy to a computed backoff `delay`.
    pub fn apply(self, delay: Duration) -> (spread: Duration)
        ensures
            exists|draw: nat|
                self.draws(delay, draw) && spread@ == #[trigger] self.spread_delay(delay, draw),
            self is Off ==> spread@ == delay@,
            self is Full ==> spread@ <= delay@,
            self is Equal ==> delay@ / 2 <= spread@ <= delay@,
    {
        let nanos: u128 = delay.as_nanos();
        let draw: u128 = match self {
            Jitter::Off => 0,
            Jitter::Full => draw_up_to(nanos),
            Jitter::Equal => draw_up_to(nanos - nanos / 2),
        };
        let spread = self.apply_draw(delay, draw);
        assert(spread@ == self.spread_delay(delay, draw as nat));
        spread
    }
}

/// The delay strategy applied between retry attempts.
#[derive(Debug, Clone, Copy, PartialEq, Eq, Structural)]
pub enum Backoff {
    /// Wait the same fixed duration before every retry.
    Fixed(Duration),
    /// Wait `base * factor^n` before retry `n` (0-indexed), optionally capped at `max`.
    Exponential {
        /// The delay before the first retry.
        base: Duration,
        /// The multiplier applied for each subsequent retry.
        factor: u32,
        /// An optional upper bound on the computed delay.
        max: Option<Duration>,
    },
}

/// A policy describing how a failing step should be retried.
#[derive(Debug, Clone, Copy, PartialEq, Eq, Structural)]
pub struct RetryPolicy {
    /// The maximum number of *additional* attempts after the initial one.
    pub max_retries: usize,
    /// The backoff strategy applied between attempts.
    pub backoff: Backoff,
    /// The randomized spread applied on top of the computed delay.
    pub jitter: Jitter,
}

/// The smaller of two numbers.
pub open spec fn least(a: nat, b: nat) -> nat {
    if a <= b {
        a
    } else {
        b
    }
}

impl Backoff {
    /// The nanoseconds to wait before retry `n`: a fixed delay, or `base * factor^n`, which
    /// grows to [`BACKOFF_CEILING`] at most and is then capped at `max`.
    pub open spec fn nanos(self, n: nat) -> nat {
        match self {
            Backoff::Fixed(delay) => delay@,
            Backoff::Exponential { base, factor, max } => {
                let grown = least(
                    (base@ * pow(factor as int, n)) as nat,
                    BACKOFF_CEILING as nat,
                );
                match max {
                    Some(cap) => least(grown, cap@),
                    None => grown,
                }
            },
        }
    }
}

/// `base * factor^n`, saturating at [`BACKOFF_CEILING`].
fn grow(base: u128, factor: u32, n: u32) -> (grown: u128)
    requires
        base <= MAX_NANOS,
    ensures
        grown == least((base * pow(factor as int, n as nat)) as nat, BACKOFF_CEILING as nat),
{
    if n == 0 {
        proof {
            lemma_pow0(factor as int);
        }
        return if base <= BACKOFF_CEILING { base } else { BACKOFF_CEILING };
    }
    if factor <= 1 || base == 0 {
        proof {
            if factor == 0 {
                lemma0_pow(n as nat);
            } else if factor == 1 {
                lemma1_pow(n as nat);
            }
            assert(base == 0 ==> base * pow(factor as int, n as nat) == 0) by (nonlinear_arith);
        }
        return if factor == 0 {
            0
        } else if base <= BACKOFF_CEILING {
            base
        } else {
            BACKOFF_CEILING
        };
    }
    let mut grown: u128 = base;
    let mut i: u32 = 0;
    proof {
        lemma_pow0(factor as int);
    }
    while i < n && grown < BACKOFF_CEILING
        invariant
            i <= n,
            factor >= 2,
            0 < base <= MAX_NANOS,
            i == 0 ==> grown == base,
            grown == base * pow(factor as int, i as nat),
            grown <= MAX_NANOS * u32::MAX,
        decreases n - i,
    {
        let ghost before = grown;
        proof {
            assert(before * factor <= MAX_NANOS * u32::MAX) by (nonlinear_arith)
                requires
                    before < BACKOFF_CEILING,
                    BACKOFF_CEILING <= MAX_NANOS,
                    factor <= u32::MAX,
            ;
            reveal(pow);
            lemma_pow_adds(factor as int, i as nat, 1);
            lemma_pow1(factor as int);
            assert(base * (pow(factor as int, i as nat) * factor) == (base * pow(
                factor as int,
                i as nat,
            )) * factor) by (nonlinear_arith);
        }
        grown = grown * factor as u128;
        i += 1;
    }
    proof {
        lemma_pow_increases(factor as nat, i as nat, n as nat);
        assert(base * pow(factor as int, i as nat) <= base * pow(factor as int, n as nat))
            by (nonlinear_arith)
            requires
                pow(factor as int, i as nat) <= pow(factor as int, n as nat),
        ;
    }
    if grown <= BACKOFF_CEILING {
        grown
    } else {
        BACKOFF_CEILING
    }
}

impl RetryPolicy {
    /// Create a policy that retries with a constant delay between attempts.
    pub fn fixed(max_retries: usize, delay: Duration) -> (policy: RetryPolicy)
        ensures
            policy == (RetryPolicy {
                max_retries,
                backoff: Backoff::Fixed(delay),
                jitter: Jitter::Off,
            }),
    {
        RetryPolicy { max_retries, backoff: Backoff::Fixed(delay), jitter: Jitter::Off }
    }

    /// Create a policy that retries with exponentially increasing delays.
    ///
    /// The delay before retry `n` (0-indexed) is `base * factor^n`.
    pub fn exponential(max_retries: usize, base: Duration, factor: u32) -> (policy: RetryPolicy)
        ensures
            policy == (RetryPolicy {
                max_retries,
                backoff: Backoff::Exponential { base, factor, max: None },
                jitter: Jitter::Off,
            }),
    {
        RetryPolicy {
            max_retries,
            backoff: Backoff::Exponential { base, factor, max: None },
            jitter: Jitter::Off,
        }
    }

    /// Cap the computed delay at `max` (only affects [`Backoff::Exponential`]).
    pub fn with_max_delay(self, max: Duration) -> (policy: RetryPolicy)
        ensures
            policy == (RetryPolicy {
                backoff: match self.backoff {
                    Backoff::Fixed(delay) => Backoff::Fixed(delay),
                    Backoff::Exponential { base, factor, max: _ } => Backoff::Exponential {
                        base,
                        factor,
                        max: Some(max),
                    },
                },
                ..self
            }),
    {
        let backoff = match self.backoff {
            Backoff::Fixed(delay) => Backoff::Fixed(delay),
            Backoff::Exponential { base, factor, max: _ } => Backoff::Exponential {
                base,
                factor,
                max: Some(max),
            },
        };
        RetryPolicy { backoff, ..self }
    }

    /// Apply a [`Jitter`] strategy to spread retries out in time.
    pub fn with_jitter(self, jitter: Jitter) -> (policy: RetryPolicy)
        ensures
            policy == (RetryPolicy { jitter, ..self }),
    {
        RetryPolicy { jitter, ..self }
    }

    /// Compute the deterministic backoff delay before the retry at the given (0-indexed)
    /// position, ignoring jitter.
    ///
    /// Overflow-safe: an exponential delay that would overflow saturates rather than
    /// panicking.
    pub fn delay(&self, retry_index: u32) -> (delay: Duration)
        ensures
            delay@ == self.backoff.nanos(retry_index as nat),
    {
        match self.backoff {
            Backoff::Fixed(delay) => delay,
            Backoff::Exponential { base, factor, max } => {
                let grown = Duration::from_total_nanos(grow(base.as_nanos(), factor, retry_index));
                match max {
                    Some(cap) => grown.shorter(cap),
                    None => grown,
                }
            },
        }
    }

    /// The actual delay to sleep before the given retry, including any configured jitter.
    pub fn jittered_delay(&self, retry_index: u32) -> (delay: Duration)
        ensures
            exists|base: Duration, draw: nat|
                base@ == self.backoff.nanos(retry_index as nat) && self.jitter.draws(base, draw)
                    && delay@ == #[trigger] self.jitter.spread_delay(base, draw),
            self.jitter is Off ==> delay@ == self.backoff.nanos(retry_index as nat),
            self.jitter is Equal ==> self.backoff.nanos(retry_index as nat) / 2 <= delay@,
            delay@ <= self.backoff.nanos(retry_index as nat),
    {
        let base = self.delay(retry_index);
        self.jitter.apply(base)
    }
}

/// The delay before the first retry of an exponential backoff is its base, unless the base
/// exceeds the ceiling or the cap.
pub proof fn law_first_delay_is_base(base: Duration, factor: u32, max: Option<Duration>)
    requires
        base@ <= BACKOFF_CEILING,
        max matches Some(cap) ==> base@ <= cap@,
    ensures
        (Backoff::Exponential { base, factor, max }).nanos(0) == base@,
{
    lemma_pow0(factor as int);
}

/// Each further retry of an uncapped exponential backoff waits `factor` times as long as the
/// one before it, until the delay saturates at the ceiling.
pub proof fn law_delay_multiplies(base: Duration, factor: u32, n: nat)
    ensures
        ({
            let backoff = Backoff::Exponential { base, factor, max: None };
            let grown = (factor * (base@ * pow(factor as int, n))) as nat;
            backoff.nanos(n + 1) == least(grown, BACKOFF_CEILING as nat)
        }),
{
    reveal(pow);
    assert(base@ * (factor * pow(factor as int, n)) == factor * (base@ * pow(
        factor as int,
        n,
    ))) by (nonlinear_arith);
}

/// No delay of a capped exponential backoff is longer than the cap.
pub proof fn law_delay_is_capped(base: Duration, factor: u32, cap: Duration, n: nat)
    ensures
        (Backoff::Exponential { base, factor, max: Some(cap) }).nanos(n) <= cap@,
{
}

/// The delays of a backoff never shrink from one retry to a later one, whatever its strategy;
/// the factor of an exponential backoff must not be zero.
pub proof fn law_delays_never_shrink(backoff: Backoff, i: nat, j: nat)
    requires
        i <= j,
        backoff matches Backoff::Exponential { factor, .. } ==> factor >= 1,
    ensures
        backoff.nanos(i) <= backoff.nanos(j),
{
    if let Backoff::Exponential { base, factor, max } = backoff {
        lemma_pow_increases(factor as nat, i, j);
        lemma_pow_positive(factor as int, i);
        assert(0 <= base@ * pow(factor as int, i) <= base@ * pow(factor as int, j))
            by (nonlinear_arith)
            requires
                0 <= base@,
                0 < pow(factor as int, i) <= pow(factor as int, j),
        ;
    }
}

/// Capping a fixed backoff changes nothing: its delay stays the same for every retry.
pub proof fn law_fixed_delay_is_constant(delay: Duration, i: nat, j: nat)
    ensures
        Backoff::Fixed(delay).nanos(i) == delay@,
        Backoff::Fixed(delay).nanos(i) == Backoff::Fixed(delay).nanos(j),
{
}

/// Full jitter spreads a delay over `[0, computed]`, and equal jitter over
/// `[computed / 2, computed]`, for every number that may be drawn and however long the delay is.
/// Every delay of the range can come out.
pub proof fn law_jitter_bounds(jitter: Jitter, delay: Duration, draw: nat, wanted: nat)
    requires
        draw <= jitter.spread(delay),
    ensures
        jitter is Off ==> jitter.spread_delay(delay, draw) == delay@,
        jitter.spread_delay(delay, draw) <= delay@,
        jitter is Equal ==> delay@ / 2 <= jitter.spread_delay(delay, draw),
        jitter is Full && wanted <= delay@ ==> exists|found: nat|
            found <= jitter.spread(delay) && #[trigger] jitter.spread_delay(delay, found) == wanted,
        jitter is Equal && delay@ / 2 <= wanted <= delay@ ==> exists|found: nat|
            found <= jitter.spread(delay) && #[trigger] jitter.spread_delay(delay, found) == wanted,
{
    if jitter is Full {
        assert(jitter.spread_delay(delay, wanted) == wanted);
    }
    if jitter is Equal && delay@ / 2 <= wanted {
        let found = (wanted - delay@ / 2) as nat;
        assert(jitter.spread_delay(delay, found) == wanted);
    }
}

} // verus!
