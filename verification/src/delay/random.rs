//! Delays that depend on chance.

use vstd::arithmetic::div_mod::{
    lemma_div_by_multiple_is_strongly_ordered, lemma_div_multiples_vanish,
    lemma_fundamental_div_mod, lemma_hoist_over_denominator,
};
use vstd::prelude::*;

use rand::distributions::{Distribution, Uniform};
use rand::rngs::ThreadRng;
use rand::{thread_rng, Rng};

use crate::delay::DelaySequence;
use crate::duration::Duration;

verus! {

/// The generator of the current thread, [`rand::rngs::ThreadRng`].
#[verifier::external_type_specification]
#[verifier::external_body]
pub struct ExThreadRng(ThreadRng);

/// [`rand::thread_rng`] hands out the generator of the current thread. Nothing
/// is claimed of it.
pub assume_specification[ rand::thread_rng ]() -> (rng: ThreadRng);

/// Draws one number with `rand`'s `Uniform::new_inclusive(low, high)` and
/// `Distribution::sample`. The distribution panics where `low > high` and
/// samples the closed range: the sample lies between the two bounds, both
/// included. Which number it is depends on the generator.
#[verifier::external_body]
fn sample_inclusive(low: u64, high: u64, rng: &mut ThreadRng) -> (sample: u64)
    requires
        low <= high,
    ensures
        low <= sample <= high,
{
    Uniform::new_inclusive(low, high).sample(rng)
}

/// `rand::Rng::gen` draws a `u64` from the generator. Which bits it holds depends
/// on the generator, so nothing is claimed of it.
#[verifier::external_body]
fn draw<R: Rng>(rng: &mut R) -> (bits: u64) {
    rng.gen()
}

/// The number of fractions that a draw can choose: 2 to the power of 53.
pub const FRACTIONS: u64 = 0x20_0000_0000_0000;

/// The fraction that `bits` choose, in units of one in [`FRACTIONS`]: the
/// upper 53 of the 64 bits.
pub open spec fn fraction(bits: u64) -> nat {
    (bits / 2048) as nat
}

/// What the jitter that `bits` choose leaves of a span of `nanos`
/// nanoseconds: the span times the fraction, in whole nanoseconds.
pub open spec fn jitter_nanos(nanos: nat, bits: u64) -> nat {
    nanos * fraction(bits) / (FRACTIONS as nat)
}

/// Whether `nanos` is what some jitter leaves of a span of `base`
/// nanoseconds.
pub open spec fn is_jitter_of(nanos: nat, base: nat) -> bool {
    exists|bits: u64| nanos == jitter_nanos(base, bits)
}

/// Jitter leaves less than the span, and nothing of an empty span.
pub proof fn lemma_jitter_below(nanos: nat, bits: u64)
    ensures
        jitter_nanos(nanos, bits) <= nanos,
        nanos > 0 ==> jitter_nanos(nanos, bits) < nanos,
{
    let part = fraction(bits);
    let all = FRACTIONS as nat;
    assert(part < all);
    if nanos > 0 {
        assert(nanos * part < nanos * all) by (nonlinear_arith)
            requires
                nanos > 0,
                part < all,
        ;
        lemma_div_by_multiple_is_strongly_ordered(
            (nanos * part) as int,
            (nanos * all) as int,
            nanos as int,
            all as int,
        );
        lemma_div_multiples_vanish(nanos as int, all as int);
        assert(nanos * all == all * nanos) by (nonlinear_arith);
    } else {
        assert(nanos * part == 0) by (nonlinear_arith)
            requires
                nanos == 0,
        ;
    }
}

/// Apply to a duration the jitter that `bits` choose: a proportion of the
/// duration between none and all of it, all excluded.
pub fn jitter_by(duration: Duration, bits: u64) -> (jittered: Duration)
    ensures
        jittered@ == jitter_nanos(duration@, bits),
{
    let nanos: u128 = duration.as_nanos();
    let part: u128 = (bits / 2048) as u128;
    let all: u128 = FRACTIONS as u128;
    let high: u128 = nanos / all;
    let low: u128 = nanos % all;
    proof {
        assert(high * part <= 0x400_0000_0000 * 0x20_0000_0000_0000) by (nonlinear_arith)
            requires
                high <= 0x400_0000_0000,
                part <= 0x20_0000_0000_0000,
        ;
        assert(low * part <= 0x20_0000_0000_0000 * 0x20_0000_0000_0000) by (nonlinear_arith)
            requires
                low <= 0x20_0000_0000_0000,
                part <= 0x20_0000_0000_0000,
        ;
    }
    let scaled: u128 = high * part + (low * part) / all;
    proof {
        lemma_fundamental_div_mod(nanos as int, all as int);
        lemma_hoist_over_denominator((low * part) as int, (high * part) as int, all as nat);
        assert(low * part + high * part * all == nanos * part) by (nonlinear_arith)
            requires
                nanos == all * high + low,
        ;
        lemma_jitter_below(duration@, bits);
    }
    Duration::from_nanos_u128(scaled)
}

/// Apply full random jitter to a duration, with the given source of
/// randomness: a proportion of the duration between none and all of it, all
/// excluded, chosen by the bits that the source gives.
pub fn jitter_rng<R: Rng>(duration: Duration, rng: &mut R) -> (jittered: Duration)
    ensures
        is_jitter_of(jittered@, duration@),
        jittered@ <= duration@,
        duration@ > 0 ==> jittered@ < duration@,
{
    let bits: u64 = draw(rng);
    proof {
        lemma_jitter_below(duration@, bits);
    }
    jitter_by(duration, bits)
}

/// Apply full random jitter to a duration.
pub fn jitter(duration: Duration) -> (jittered: Duration)
    ensures
        is_jitter_of(jittered@, duration@),
        jittered@ <= duration@,
        duration@ > 0 ==> jittered@ < duration@,
{
    let mut rng = thread_rng();
    jitter_rng(duration, &mut rng)
}

/// The whole milliseconds of a span of `nanos` nanoseconds, as far as 64
/// bits hold them: the higher bits are dropped.
pub open spec fn low_millis(nanos: nat) -> nat {
    (nanos / 1_000_000) % 0x1_0000_0000_0000_0000
}

/// The whole milliseconds of the duration, as far as 64 bits hold them.
fn low_millis_of(duration: Duration) -> (millis: u64)
    ensures
        millis == low_millis(duration@),
{
    let all: u128 = duration.as_millis();
    (all % 0x1_0000_0000_0000_0000) as u64
}

/// Each retry uses a duration randomly chosen from a range of milliseconds.
#[derive(Debug)]
pub struct Range {
    low: u64,
    high: u64,
}

impl Clone for Range {
    fn clone(&self) -> (copy: Self)
        ensures
            copy == *self,
    {
        proof {
            use_type_invariant(self);
        }
        Range { low: self.low, high: self.high }
    }
}

impl Range {
    /// The range holds a number: its least is not above its greatest.
    #[verifier::type_invariant]
    pub closed spec fn wf(self) -> bool {
        self.low <= self.high
    }

    /// The least number of milliseconds that a pull can yield.
    pub closed spec fn least(self) -> nat {
        self.low as nat
    }

    /// The greatest number of milliseconds that a pull can yield.
    pub closed spec fn greatest(self) -> nat {
        self.high as nat
    }

    /// Create a new `Range` between the given millisecond durations, excluding
    /// the maximum value.
    pub fn from_millis_exclusive(minimum: u64, maximum: u64) -> (range: Self)
        requires
            minimum < maximum,
        ensures
            range.least() == minimum,
            range.greatest() == maximum - 1,
    {
        Range { low: minimum, high: maximum - 1 }
    }

    /// Create a new `Range` between the given millisecond durations, including
    /// the maximum value.
    pub fn from_millis_inclusive(minimum: u64, maximum: u64) -> (range: Self)
        requires
            minimum <= maximum,
        ensures
            range.least() == minimum,
            range.greatest() == maximum,
    {
        Range { low: minimum, high: maximum }
    }

    /// Create a new `Range` between the whole milliseconds of the given
    /// durations, excluding the maximum value.
    pub fn from_durations_exclusive(start: Duration, end: Duration) -> (range: Self)
        requires
            low_millis(start@) < low_millis(end@),
        ensures
            range.least() == low_millis(start@),
            range.greatest() == low_millis(end@) - 1,
    {
        Range::from_millis_exclusive(low_millis_of(start), low_millis_of(end))
    }

    /// Create a new `Range` between the whole milliseconds of the given
    /// durations, including the maximum value.
    pub fn from_durations_inclusive(start: Duration, end: Duration) -> (range: Self)
        requires
            low_millis(start@) <= low_millis(end@),
        ensures
            range.least() == low_millis(start@),
            range.greatest() == low_millis(end@),
    {
        Range::from_millis_inclusive(low_millis_of(start), low_millis_of(end))
    }
}

impl DelaySequence for Range {
    open spec fn pulls(pre: Self, post: Self, out: Option<nat>) -> bool {
        &&& post == pre
        &&& out matches Some(nanos)
        &&& nanos % 1_000_000 == 0
        &&& pre.least() <= nanos / 1_000_000 <= pre.greatest()
    }

    fn next(&mut self) -> (out: Option<Duration>) {
        proof {
            use_type_invariant(&*self);
        }
        let mut rng = thread_rng();
        let millis: u64 = sample_inclusive(self.low, self.high, &mut rng);
        Some(Duration::from_millis(millis))
    }
}

} // verus!
