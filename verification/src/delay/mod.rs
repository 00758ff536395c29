//! Sequences of delays for retried operations.
//!
//! A [`DelaySequence`] is pulled once after each failed attempt. What a pull
//! may do is stated by the relation [`DelaySequence::pulls`], over the sequence
//! before and after the pull and the yielded delay in nanoseconds.

use vstd::arithmetic::power::{lemma_pow_positive, pow};
use vstd::prelude::*;

use crate::duration::{max_nanos, saturating_sum, Duration};

pub mod bounded;
pub mod random;
pub mod take;

pub use bounded::Bounded;
pub use random::{is_jitter_of, jitter, jitter_by, jitter_rng, Range};
pub use take::Take;

verus! {

/// What a pull yielded, in nanoseconds.
pub open spec fn nanos_of(out: Option<Duration>) -> Option<nat> {
    match out {
        Some(d) => Some(d@),
        None => None,
    }
}

/// A sequence of delays, pulled one at a time. `None` means that no more
/// retries are permitted.
pub trait DelaySequence: Sized {
    /// Whether one pull can take the sequence from `pre` to `post` while it
    /// yields `out`, a delay in nanoseconds. A sequence that does not say
    /// otherwise may do anything.
    open spec fn pulls(pre: Self, post: Self, out: Option<nat>) -> bool {
        true
    }

    /// Pulls the next delay.
    fn next(&mut self) -> (out: Option<Duration>)
        ensures
            Self::pulls(*old(self), *final(self), nanos_of(out)),
    ;
}

/// Whether `states` and `outs` record consecutive pulls on one sequence: pull
/// `i` takes `states[i]` to `states[i + 1]` and yields `outs[i]`.
pub open spec fn is_run<S: DelaySequence>(states: Seq<S>, outs: Seq<Option<nat>>) -> bool {
    &&& states.len() == outs.len() + 1
    &&& forall|i: int|
        0 <= i < outs.len() ==> S::pulls(states[i], states[i + 1], #[trigger] outs[i])
}

/// The sum of the delays that `outs` yielded.
pub open spec fn total(outs: Seq<Option<nat>>) -> nat
    decreases outs.len(),
{
    if outs.len() == 0 {
        0
    } else {
        total(outs.drop_last()) + match outs.last() {
            Some(delay) => delay,
            None => 0,
        }
    }
}

/// Each retry uses a fixed delay.
#[derive(Debug)]
pub struct Fixed {
    duration: Duration,
}

impl View for Fixed {
    type V = nat;

    /// The delay of every retry, in nanoseconds.
    closed spec fn view(&self) -> nat {
        self.duration@
    }
}

impl Clone for Fixed {
    fn clone(&self) -> (copy: Self)
        ensures
            copy == *self,
    {
        Fixed { duration: self.duration }
    }
}

impl Fixed {
    /// Creates a new `Fixed` using a random proportion of the given duration.
    pub fn new(duration: Duration) -> (fixed: Self)
        ensures
            is_jitter_of(fixed@, duration@),
            fixed@ <= duration@,
            duration@ > 0 ==> fixed@ < duration@,
    {
        Fixed::exact(jitter(duration))
    }

    /// The sequence that yields `duration` at every pull.
    pub closed spec fn holding(duration: Duration) -> Self {
        Fixed { duration }
    }

    /// Creates a new `Fixed` using the given duration.
    pub fn exact(duration: Duration) -> (fixed: Self)
        ensures
            fixed == Fixed::holding(duration),
            fixed@ == duration@,
    {
        Fixed { duration }
    }
}

impl From<Duration> for Fixed {
    fn from(duration: Duration) -> (fixed: Self) {
        Fixed::exact(duration)
    }
}

impl vstd::std_specs::convert::FromSpecImpl<Duration> for Fixed {
    open spec fn obeys_from_spec() -> bool {
        true
    }

    open spec fn from_spec(duration: Duration) -> Self {
        Fixed::holding(duration)
    }
}

impl DelaySequence for Fixed {
    open spec fn pulls(pre: Self, post: Self, out: Option<nat>) -> bool {
        post == pre && out == Some(pre@)
    }

    fn next(&mut self) -> (out: Option<Duration>) {
        Some(self.duration)
    }
}

/// Each retry happens immediately without any delay.
#[derive(Debug, Clone, Copy)]
pub struct NoDelay;

impl DelaySequence for NoDelay {
    open spec fn pulls(pre: Self, post: Self, out: Option<nat>) -> bool {
        out == Some(0nat)
    }

    fn next(&mut self) -> (out: Option<Duration>) {
        Some(Duration::zero())
    }
}

/// Each retry uses a delay which is the sum of the two previous delays.
#[derive(Debug)]
pub struct Fibonacci {
    curr: Duration,
    next: Duration,
}

impl Clone for Fibonacci {
    fn clone(&self) -> (copy: Self)
        ensures
            copy == *self,
    {
        Fibonacci { curr: self.curr, next: self.next }
    }
}

impl Fibonacci {
    /// The delay that the next pull yields, in nanoseconds.
    pub closed spec fn current(self) -> nat {
        self.curr@
    }

    /// The delay that the pull after the next one yields, in nanoseconds.
    pub closed spec fn upcoming(self) -> nat {
        self.next@
    }

    /// Creates a new `Fibonacci` using a random proportion of the given duration.
    pub fn new(duration: Duration) -> (fibonacci: Fibonacci)
        ensures
            fibonacci.current() == fibonacci.upcoming(),
            is_jitter_of(fibonacci.current(), duration@),
            fibonacci.current() <= duration@,
            duration@ > 0 ==> fibonacci.current() < duration@,
    {
        Fibonacci::exact(jitter(duration))
    }

    /// Creates a new `Fibonacci` using the given duration.
    pub fn exact(duration: Duration) -> (fibonacci: Fibonacci)
        ensures
            fibonacci.current() == duration@,
            fibonacci.upcoming() == duration@,
    {
        Fibonacci { curr: duration, next: duration }
    }
}

impl From<Duration> for Fibonacci {
    /// A sequence from a random proportion of the given duration, as
    /// [`Fibonacci::new`] makes it.
    fn from(duration: Duration) -> (fibonacci: Self) {
        Fibonacci::new(duration)
    }
}

impl vstd::std_specs::convert::FromSpecImpl<Duration> for Fibonacci {
    /// The conversion depends on chance: no value is promised.
    open spec fn obeys_from_spec() -> bool {
        false
    }

    open spec fn from_spec(duration: Duration) -> Self {
        arbitrary()
    }
}

impl DelaySequence for Fibonacci {
    open spec fn pulls(pre: Self, post: Self, out: Option<nat>) -> bool {
        &&& out == Some(pre.current())
        &&& post.current() == pre.upcoming()
        &&& post.upcoming() == saturating_sum(pre.current(), pre.upcoming())
    }

    fn next(&mut self) -> (out: Option<Duration>) {
        let duration = self.curr;
        let next = self.curr.saturating_add(self.next);
        self.curr = self.next;
        self.next = next;
        Some(duration)
    }
}

/// In every run of a sequence made by [`Fibonacci::exact`] with `base`, the
/// first two delays are `base`, and each later delay is the sum of the two
/// before it, held at the longest duration.
pub proof fn lemma_fibonacci_recurrence(
    states: Seq<Fibonacci>,
    outs: Seq<Option<nat>>,
    base: nat,
)
    requires
        is_run(states, outs),
        states[0].current() == base,
        states[0].upcoming() == base,
    ensures
        forall|i: int| 0 <= i < outs.len() && i < 2 ==> outs[i] == Some(base),
        forall|i: int|
            2 <= i < outs.len() ==> #[trigger] outs[i] == Some(
                saturating_sum(outs[i - 2]->0, outs[i - 1]->0),
            ),
{
    assert forall|i: int| 0 <= i < outs.len() && i < 2 implies outs[i] == Some(base) by {
        assert(Fibonacci::pulls(states[i], states[i + 1], outs[i]));
        if i == 1 {
            assert(Fibonacci::pulls(states[i - 1], states[i - 1 + 1], outs[i - 1]));
        }
    }
    assert forall|i: int| 2 <= i < outs.len() implies #[trigger] outs[i] == Some(
        saturating_sum(outs[i - 2]->0, outs[i - 1]->0),
    ) by {
        assert(Fibonacci::pulls(states[i - 2], states[i - 2 + 1], outs[i - 2]));
        assert(Fibonacci::pulls(states[i - 1], states[i - 1 + 1], outs[i - 1]));
        assert(Fibonacci::pulls(states[i], states[i + 1], outs[i]));
    }
}

/// After `i` pulls on a sequence made by [`Fibonacci::exact`], the delay of
/// the next pull is no longer than the one after it, and neither passes the
/// longest duration.
proof fn lemma_fibonacci_ordered(states: Seq<Fibonacci>, outs: Seq<Option<nat>>, i: int)
    requires
        is_run(states, outs),
        states[0].current() == states[0].upcoming(),
        states[0].current() <= max_nanos(),
        0 <= i <= outs.len(),
    ensures
        states[i].current() <= states[i].upcoming() <= max_nanos(),
    decreases i,
{
    if i > 0 {
        lemma_fibonacci_ordered(states, outs, i - 1);
        assert(Fibonacci::pulls(states[i - 1], states[i - 1 + 1], outs[i - 1]));
    }
}

/// In every run of a sequence made by [`Fibonacci::exact`], the delays never
/// shrink and never pass the longest duration: once that is reached, every
/// later delay is the longest duration.
pub proof fn lemma_fibonacci_saturates(states: Seq<Fibonacci>, outs: Seq<Option<nat>>, base: nat)
    requires
        is_run(states, outs),
        states[0].current() == base,
        states[0].upcoming() == base,
        base <= max_nanos(),
    ensures
        forall|i: int| 0 <= i < outs.len() ==> outs[i] is Some && outs[i]->0 <= max_nanos(),
        forall|i: int, j: int| 0 <= i <= j < outs.len() ==> outs[i]->0 <= outs[j]->0,
        forall|i: int, j: int|
            0 <= i <= j < outs.len() && outs[i] == Some(max_nanos()) ==> outs[j] == Some(
                max_nanos(),
            ),
{
    assert forall|i: int| 0 <= i < outs.len() implies outs[i] is Some && outs[i]->0
        <= max_nanos() by {
        lemma_fibonacci_ordered(states, outs, i);
        assert(Fibonacci::pulls(states[i], states[i + 1], outs[i]));
    }
    assert forall|i: int, j: int| 0 <= i <= j < outs.len() implies outs[i]->0 <= outs[j]->0 by {
        lemma_fibonacci_grows(states, outs, i, j);
    }
}

/// In a run of a sequence made by [`Fibonacci::exact`], a later delay is no
/// shorter than an earlier one.
proof fn lemma_fibonacci_grows(states: Seq<Fibonacci>, outs: Seq<Option<nat>>, i: int, j: int)
    requires
        is_run(states, outs),
        states[0].current() == states[0].upcoming(),
        states[0].current() <= max_nanos(),
        0 <= i <= j < outs.len(),
    ensures
        outs[i]->0 <= outs[j]->0,
    decreases j - i,
{
    if i < j {
        lemma_fibonacci_grows(states, outs, i, j - 1);
        lemma_fibonacci_ordered(states, outs, j - 1);
        assert(Fibonacci::pulls(states[j - 1], states[j - 1 + 1], outs[j - 1]));
        assert(Fibonacci::pulls(states[j], states[j + 1], outs[j]));
    }
}

/// Each retry increases the delay since the last exponentially.
///
/// The sequence holds the delay of the next retry and the growth, a function
/// that multiplies a delay by the factor of the sequence. The growth gives
/// `None` where the product is no duration: the delay then stays as it is.
///
/// What the sequence yields is stated over what the growth ensures. Verified
/// code that pulls from the sequence states what its growth does in the
/// `requires` of a function that is generic in the growth, as the lemmas on
/// this type do.
pub struct Exponential<G: Fn(Duration) -> Option<Duration>> {
    current: Duration,
    growth: G,
}

impl<G: Fn(Duration) -> Option<Duration>> Exponential<G> {
    /// The growth can be asked for the successor of every delay.
    #[verifier::type_invariant]
    pub closed spec fn wf(self) -> bool {
        forall|delay: Duration| delay.wf() ==> call_requires(self.growth, (delay,))
    }

    /// The delay that the next pull yields.
    pub closed spec fn current(self) -> Duration {
        self.current
    }

    /// The growth of the sequence.
    pub closed spec fn growth(self) -> G {
        self.growth
    }

    /// Creates a new `Exponential` using a random proportion of the given
    /// duration as the initial delay and the given growth.
    pub fn with_factor(base: Duration, growth: G) -> (exponential: Self)
        requires
            forall|delay: Duration| delay.wf() ==> call_requires(growth, (delay,)),
        ensures
            exponential.growth() == growth,
            is_jitter_of(exponential.current()@, base@),
            exponential.current()@ <= base@,
            base@ > 0 ==> exponential.current()@ < base@,
    {
        Exponential::exact_with_factor(jitter(base), growth)
    }

    /// Creates a new `Exponential` using the given duration as the initial
    /// delay and the given growth.
    pub fn exact_with_factor(base: Duration, growth: G) -> (exponential: Self)
        requires
            forall|delay: Duration| delay.wf() ==> call_requires(growth, (delay,)),
        ensures
            exponential.current() == base,
            exponential.growth() == growth,
    {
        Exponential { current: base, growth }
    }

    /// Applies an upper bound of `max` to this exponential delay generator.
    pub fn bounded(self, max: Duration) -> (bounded: Bounded<Self>)
        ensures
            bounded.inner() == self,
            bounded.spent() == 0,
            bounded.budget() == max@,
            !bounded.exhausted(),
    {
        Bounded::new(self, max)
    }
}

impl<G: Fn(Duration) -> Option<Duration> + Copy> Clone for Exponential<G> {
    fn clone(&self) -> (copy: Self)
        ensures
            copy == *self,
    {
        proof {
            use_type_invariant(self);
        }
        Exponential { current: self.current, growth: self.growth }
    }
}

impl<G: Fn(Duration) -> Option<Duration>> DelaySequence for Exponential<G> {
    open spec fn pulls(pre: Self, post: Self, out: Option<nat>) -> bool {
        &&& out == Some(pre.current()@)
        &&& post.growth() == pre.growth()
        &&& exists|grown: Option<Duration>|
            #[trigger] call_ensures(pre.growth(), (pre.current(),), grown) && post.current()@
                == match grown {
                Some(next) => next@,
                None => pre.current()@,
            }
    }

    fn next(&mut self) -> (out: Option<Duration>) {
        proof {
            use_type_invariant(&*self);
            use_type_invariant(&self.current);
        }
        let duration = self.current;
        let grown = (self.growth)(duration);
        match grown {
            Some(next) => {
                self.current = next;
            },
            None => {},
        }
        assert(call_ensures(old(self).growth(), (old(self).current(),), grown));
        Some(duration)
    }
}

/// The delay after `n` growths from `base`, where `step` says what the
/// growth makes of a delay, in nanoseconds: a delay without a successor
/// stays.
pub open spec fn grown_delay(step: spec_fn(nat) -> Option<nat>, base: nat, n: nat) -> nat
    decreases n,
{
    if n == 0 {
        base
    } else {
        let before = grown_delay(step, base, (n - 1) as nat);
        match step(before) {
            Some(next) => next,
            None => before,
        }
    }
}

/// After `n` pulls on an exponential sequence whose growth does what `step`
/// says, the delay of the next pull is the first delay after `n` growths.
proof fn lemma_exponential_state<G: Fn(Duration) -> Option<Duration>>(
    states: Seq<Exponential<G>>,
    outs: Seq<Option<nat>>,
    step: spec_fn(nat) -> Option<nat>,
    n: int,
)
    requires
        is_run(states, outs),
        forall|delay: Duration, grown: Option<Duration>|
            call_ensures(states[0].growth(), (delay,), grown) ==> nanos_of(grown) == step(delay@),
        0 <= n <= outs.len(),
    ensures
        states[n].growth() == states[0].growth(),
        states[n].current()@ == grown_delay(step, states[0].current()@, n as nat),
    decreases n,
{
    if n > 0 {
        lemma_exponential_state(states, outs, step, n - 1);
        assert(Exponential::<G>::pulls(states[n - 1], states[n - 1 + 1], outs[n - 1]));
    }
}

/// In every run of an exponential sequence whose growth does what `step`
/// says, delay `n` is the first delay after `n` growths.
pub proof fn lemma_exponential_growth<G: Fn(Duration) -> Option<Duration>>(
    states: Seq<Exponential<G>>,
    outs: Seq<Option<nat>>,
    step: spec_fn(nat) -> Option<nat>,
)
    requires
        is_run(states, outs),
        forall|delay: Duration, grown: Option<Duration>|
            call_ensures(states[0].growth(), (delay,), grown) ==> nanos_of(grown) == step(delay@),
    ensures
        forall|n: int|
            0 <= n < outs.len() ==> #[trigger] outs[n] == Some(
                grown_delay(step, states[0].current()@, n as nat),
            ),
{
    assert forall|n: int| 0 <= n < outs.len() implies #[trigger] outs[n] == Some(
        grown_delay(step, states[0].current()@, n as nat),
    ) by {
        lemma_exponential_state(states, outs, step, n);
    }
}

/// What a growth by the whole factor `factor` makes of a delay of `nanos`
/// nanoseconds: the product, where it is a duration.
pub open spec fn multiplied(factor: nat) -> spec_fn(nat) -> Option<nat> {
    |nanos: nat|
        if nanos * factor <= max_nanos() {
            Some(nanos * factor)
        } else {
            None
        }
}

/// While the product is a duration, `n` growths by the whole factor `factor`
/// make `base * factor^n` of the delay `base`.
pub proof fn lemma_multiplied_delay(factor: nat, base: nat, n: nat)
    requires
        factor >= 1,
        base * pow(factor as int, n) <= max_nanos(),
    ensures
        grown_delay(multiplied(factor), base, n) == base * pow(factor as int, n),
    decreases n,
{
    reveal(pow);
    if n > 0 {
        let before = pow(factor as int, (n - 1) as nat);
        lemma_pow_positive(factor as int, (n - 1) as nat);
        assert(pow(factor as int, n) == factor * before);
        assert(base * before <= base * (factor * before)) by (nonlinear_arith)
            requires
                factor >= 1,
                before >= 0,
                base >= 0,
        ;
        lemma_multiplied_delay(factor, base, (n - 1) as nat);
        assert(base * before * factor == base * (factor * before)) by (nonlinear_arith);
    }
}

/// In every run of an exponential sequence whose growth multiplies by the
/// whole factor `factor`, delay `n` is the first delay times `factor^n`, as
/// long as that is a duration.
pub proof fn lemma_exponential_powers<G: Fn(Duration) -> Option<Duration>>(
    states: Seq<Exponential<G>>,
    outs: Seq<Option<nat>>,
    factor: nat,
)
    requires
        is_run(states, outs),
        factor >= 1,
        forall|delay: Duration, grown: Option<Duration>|
            call_ensures(states[0].growth(), (delay,), grown) ==> nanos_of(grown) == multiplied(
                factor,
            )(delay@),
    ensures
        forall|n: int|
            0 <= n < outs.len() && states[0].current()@ * pow(factor as int, n as nat)
                <= max_nanos() ==> #[trigger] outs[n] == Some(
                (states[0].current()@ * pow(factor as int, n as nat)) as nat,
            ),
{
    lemma_exponential_growth(states, outs, multiplied(factor));
    assert forall|n: int|
        0 <= n < outs.len() && states[0].current()@ * pow(factor as int, n as nat)
            <= max_nanos() implies #[trigger] outs[n] == Some(
        (states[0].current()@ * pow(factor as int, n as nat)) as nat,
    ) by {
        lemma_multiplied_delay(factor, states[0].current()@, n as nat);
    }
}

/// In every run of an exponential sequence, a delay whose growth is never a
/// duration is repeated by every later pull.
pub proof fn lemma_exponential_saturates<G: Fn(Duration) -> Option<Duration>>(
    states: Seq<Exponential<G>>,
    outs: Seq<Option<nat>>,
    at: int,
)
    requires
        is_run(states, outs),
        0 <= at <= outs.len(),
        forall|delay: Duration, grown: Option<Duration>|
            delay@ == states[at].current()@ && call_ensures(states[0].growth(), (delay,), grown)
                ==> grown is None,
    ensures
        forall|j: int| at <= j < outs.len() ==> #[trigger] outs[j] == Some(states[at].current()@),
{
    assert forall|j: int| at <= j < outs.len() implies #[trigger] outs[j] == Some(
        states[at].current()@,
    ) by {
        lemma_exponential_stays(states, outs, at, j);
        assert(Exponential::<G>::pulls(states[j], states[j + 1], outs[j]));
    }
}

/// In a run of an exponential sequence, a delay whose growth is never a
/// duration is still the delay of the next pull after any number of pulls.
proof fn lemma_exponential_stays<G: Fn(Duration) -> Option<Duration>>(
    states: Seq<Exponential<G>>,
    outs: Seq<Option<nat>>,
    at: int,
    j: int,
)
    requires
        is_run(states, outs),
        0 <= at <= j <= outs.len(),
        forall|delay: Duration, grown: Option<Duration>|
            delay@ == states[at].current()@ && call_ensures(states[0].growth(), (delay,), grown)
                ==> grown is None,
    ensures
        states[j].current()@ == states[at].current()@,
        states[j].growth() == states[0].growth(),
    decreases j,
{
    if j > 0 {
        if at < j {
            lemma_exponential_stays(states, outs, at, j - 1);
        } else {
            lemma_exponential_keeps_growth(states, outs, j - 1);
        }
        assert(Exponential::<G>::pulls(states[j - 1], states[j - 1 + 1], outs[j - 1]));
    }
}

/// In a run of an exponential sequence, the growth stays the same.
proof fn lemma_exponential_keeps_growth<G: Fn(Duration) -> Option<Duration>>(
    states: Seq<Exponential<G>>,
    outs: Seq<Option<nat>>,
    n: int,
)
    requires
        is_run(states, outs),
        0 <= n <= outs.len(),
    ensures
        states[n].growth() == states[0].growth(),
    decreases n,
{
    if n > 0 {
        lemma_exponential_keeps_growth(states, outs, n - 1);
        assert(Exponential::<G>::pulls(states[n - 1], states[n - 1 + 1], outs[n - 1]));
    }
}

} // verus!
