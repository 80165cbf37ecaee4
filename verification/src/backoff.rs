//! Exponential backoff with jitter for reconnect loops.
//!
//! Durations are whole nanoseconds.

use vstd::prelude::*;
use vstd::arithmetic::power2::{lemma_pow2_unfold, pow2};
use std::hash::{BuildHasher, Hasher};

verus! {

/// The smallest first delay: one millisecond.
pub const MIN_DELAY_NANOS: u64 = 1_000_000;

/// A delay of `base` scaled by the jitter factor `(1500 + seed % 1000) / 2000`,
/// which lies between 0.75 and 1.25, saturated at `u64::MAX`.
pub open spec fn jitter_spec(base: u64, seed: u64) -> u64 {
    let scaled = (base as int) * (1500 + (seed % 1000) as int) / 2000;
    if scaled > u64::MAX as int {
        u64::MAX
    } else {
        scaled as u64
    }
}

/// The step after `current`: doubled, capped at `max`.
pub open spec fn next_step(current: u64, max: u64) -> u64 {
    if 2 * (current as int) <= max as int {
        (2 * current) as u64
    } else {
        max
    }
}

/// The step after `n` delays from a fresh backoff starting at `min`.
pub open spec fn step_after(min: u64, max: u64, n: nat) -> u64
    decreases n,
{
    if n == 0 {
        min
    } else {
        next_step(step_after(min, max, (n - 1) as nat), max)
    }
}

/// Scales `base` by the jitter factor `seed` selects.
///
/// The factor is `0.75 + (seed % 1000) / 2000`, so a delay is never more than
/// 25% away from its base.
pub fn jitter(base: u64, seed: u64) -> (r: u64)
    ensures
        r == jitter_spec(base, seed),
{
    let factor: u128 = 1500 + (seed % 1000) as u128;
    assert(factor <= 2499);
    assert((base as int) * (factor as int) <= 18446744073709551615 * 2499) by (nonlinear_arith)
        requires
            base <= u64::MAX,
            factor <= 2499,
    ;
    let scaled: u128 = (base as u128) * factor / 2000;
    if scaled > u64::MAX as u128 {
        u64::MAX
    } else {
        scaled as u64
    }
}

/// Proves that a jittered delay stays within 25% of its base.
pub proof fn lemma_jitter_bounds(base: u64, seed: u64)
    ensures
        (base as int) * 3 / 4 <= jitter_spec(base, seed),
        jitter_spec(base, seed) <= (base as int) * 5 / 4,
{
    let f = 1500 + (seed % 1000) as int;
    assert(1500 <= f <= 2499);
    assert((base as int) * 1500 <= (base as int) * f <= (base as int) * 2500) by (nonlinear_arith)
        requires
            1500 <= f <= 2499,
            base >= 0,
    ;
    assert((base as int) * 3 / 4 == (base as int) * 1500 / 2000);
    assert((base as int) * 5 / 4 == (base as int) * 2500 / 2000);
    assert((base as int) * 1500 / 2000 <= (base as int) * f / 2000) by (nonlinear_arith)
        requires
            (base as int) * 1500 <= (base as int) * f,
    ;
    assert((base as int) * f / 2000 <= (base as int) * 2500 / 2000) by (nonlinear_arith)
        requires
            (base as int) * f <= (base as int) * 2500,
    ;
}

/// Nanoseconds since the Unix epoch, or zero if the clock is set before it.
#[verifier::external_body]
fn clock_nanos() -> u128 {
    std::time::SystemTime::now().duration_since(std::time::UNIX_EPOCH).unwrap_or_default().as_nanos()
}

/// Hashes `x` with a freshly seeded `RandomState` hasher, which the operating
/// system seeds differently in each process.
#[verifier::external_body]
fn random_state_hash(x: u128) -> u64 {
    let mut hasher = std::collections::hash_map::RandomState::new().build_hasher();
    hasher.write_u128(x);
    hasher.finish()
}

/// Applies +/-25% jitter so many collectors backing off together do not
/// retry in lockstep.
///
/// The factor comes from hashing the clock with an OS-seeded hasher, so any
/// factor [`jitter`] can produce may come out.
pub fn jittered(base: u64) -> (r: u64)
    ensures
        exists|seed: u64| r == jitter_spec(base, seed),
{
    let seed = random_state_hash(clock_nanos());
    jitter(base, seed)
}

/// Doubles a delay on every failure, capped at `max`, reset to `min` on
/// success.
///
/// Fast recovery from a short blip (starts at `min`), without hammering a
/// server that is genuinely down (backs off toward `max`).
pub struct Backoff {
    min: u64,
    max: u64,
    current: u64,
}

impl Backoff {
    /// The delays stay ordered: at least a millisecond, never above `max`.
    #[verifier::type_invariant]
    spec fn well_formed(self) -> bool {
        MIN_DELAY_NANOS <= self.min <= self.current <= self.max
    }

    /// The first delay after a reset.
    pub closed spec fn spec_min(self) -> u64 {
        self.min
    }

    /// The largest step.
    pub closed spec fn spec_max(self) -> u64 {
        self.max
    }

    /// The step the next delay is drawn around.
    pub closed spec fn spec_current(self) -> u64 {
        self.current
    }

    /// Creates a backoff from `min` to `max` nanoseconds.
    ///
    /// `min` is raised to one millisecond if below it, and `max` to `min`.
    pub fn new(min: u64, max: u64) -> (b: Self)
        ensures
            b.spec_min() == if min < MIN_DELAY_NANOS { MIN_DELAY_NANOS } else { min },
            b.spec_max() == if max < b.spec_min() { b.spec_min() } else { max },
            b.spec_current() == b.spec_min(),
    {
        let min = if min < MIN_DELAY_NANOS { MIN_DELAY_NANOS } else { min };
        let max = if max < min { min } else { max };
        Backoff { min, max, current: min }
    }

    /// Returns the next delay (with jitter applied) and advances the backoff.
    pub fn next(&mut self) -> (r: u64)
        ensures
            exists|seed: u64| r == jitter_spec(old(self).spec_current(), seed),
            final(self).spec_current() == next_step(old(self).spec_current(), old(self).spec_max()),
            final(self).spec_min() == old(self).spec_min(),
            final(self).spec_max() == old(self).spec_max(),
    {
        proof {
            use_type_invariant(&*self);
        }
        let ghost base = self.current;
        let delay = jittered(self.current);
        proof {
            let seed = choose|s: u64| delay == jitter_spec(base, s);
            assert(delay == jitter_spec(old(self).spec_current(), seed));
        }
        let doubled: u128 = 2 * (self.current as u128);
        self.current = if doubled <= self.max as u128 { (2 * self.current) as u64 } else { self.max };
        delay
    }

    /// Restores the starting delay after a successful attempt.
    pub fn reset(&mut self)
        ensures
            final(self).spec_current() == old(self).spec_min(),
            final(self).spec_min() == old(self).spec_min(),
            final(self).spec_max() == old(self).spec_max(),
    {
        proof {
            use_type_invariant(&*self);
        }
        self.current = self.min;
    }

    /// The first delay after a reset, in nanoseconds.
    pub fn min(&self) -> (r: u64)
        ensures
            r == self.spec_min(),
    {
        self.min
    }

    /// The largest step, in nanoseconds.
    pub fn max(&self) -> (r: u64)
        ensures
            r == self.spec_max(),
    {
        self.max
    }
}

/// The steps of a backoff double from `min` until they reach `max`, and
/// stay there.
pub proof fn law_steps_double_until_capped(min: u64, max: u64, n: nat)
    requires
        0 < min <= max,
    ensures
        step_after(min, max, n) as int == if (min as int) * pow2(n) <= max as int {
            (min as int) * pow2(n)
        } else {
            max as int
        },
    decreases n,
{
    if n == 0 {
        assert(pow2(0) == 1) by {
            vstd::arithmetic::power2::lemma2_to64();
        }
    } else {
        let m = (n - 1) as nat;
        law_steps_double_until_capped(min, max, m);
        lemma_pow2_unfold(n);
        assert(pow2(n) == 2 * pow2(m));
        assert((min as int) * pow2(n) == 2 * ((min as int) * pow2(m))) by (nonlinear_arith)
            requires
                pow2(n) == 2 * pow2(m),
        ;
        assert((min as int) * pow2(m) >= 0) by (nonlinear_arith)
            requires
                min > 0,
        ;
    }
}

} // verus!
