//! A bound on the sum of the delays of a sequence.

use vstd::prelude::*;

use crate::delay::{is_run, nanos_of, total, DelaySequence};
use crate::duration::Duration;

verus! {

/// The sum of cumulative retry delays is bounded by some finite amount.
#[derive(Debug)]
pub struct Bounded<T> {
    inner: T,
    acc: Duration,
    max: Duration,
    done: bool,
}

impl<T> Bounded<T> {
    /// The wrapped sequence.
    pub closed spec fn inner(self) -> T {
        self.inner
    }

    /// The sum of the delays yielded so far, in nanoseconds.
    pub closed spec fn spent(self) -> nat {
        self.acc@
    }

    /// The bound on the sum of the yielded delays, in nanoseconds.
    pub closed spec fn budget(self) -> nat {
        self.max@
    }

    /// Whether the sequence has ended.
    pub closed spec fn exhausted(self) -> bool {
        self.done
    }

    /// What a pull on a sequence that has not ended makes of `got`, the pull
    /// on the wrapped sequence: a delay that fits into what is left of the
    /// budget is yielded and spent, anything else ends the sequence.
    pub open spec fn admits(pre: Self, post: Self, got: Option<nat>, out: Option<nat>) -> bool {
        if got is Some && pre.spent() + got->0 <= pre.budget() {
            &&& out == got
            &&& post.spent() == pre.spent() + got->0
            &&& !post.exhausted()
        } else {
            &&& out is None
            &&& post.spent() == pre.spent()
            &&& post.exhausted()
        }
    }
}

impl<T: DelaySequence> Bounded<T> {
    /// Bounds the sum of the delays of `inner` by `max`.
    pub fn new(inner: T, max: Duration) -> (bounded: Self)
        ensures
            bounded.inner() == inner,
            bounded.spent() == 0,
            bounded.budget() == max@,
            !bounded.exhausted(),
    {
        Bounded { inner, acc: Duration::zero(), max, done: false }
    }
}

impl<T: DelaySequence> DelaySequence for Bounded<T> {
    open spec fn pulls(pre: Self, post: Self, out: Option<nat>) -> bool {
        &&& post.budget() == pre.budget()
        &&& if pre.exhausted() {
            &&& out is None
            &&& post.exhausted()
            &&& post.spent() == pre.spent()
            &&& post.inner() == pre.inner()
        } else {
            exists|got: Option<nat>|
                #[trigger] T::pulls(pre.inner(), post.inner(), got) && Self::admits(
                    pre,
                    post,
                    got,
                    out,
                )
        }
    }

    fn next(&mut self) -> (out: Option<Duration>) {
        if self.done {
            return None;
        }
        let ghost pre = *self;
        let got = self.inner.next();
        let fitting = match got {
            Some(delay) => match self.acc.checked_add(delay) {
                Some(total) => if total.le(&self.max) {
                    Some(total)
                } else {
                    None
                },
                None => None,
            },
            None => None,
        };
        proof {
            // a sum that cannot be held is longer than any bound
            use_type_invariant(&self.max);
            self.max.lemma_in_range();
        }
        let out = match fitting {
            Some(total) => {
                self.acc = total;
                got
            },
            None => {
                self.done = true;
                None
            },
        };
        assert(T::pulls(pre.inner(), self.inner(), nanos_of(got)));
        assert(Self::admits(pre, *self, nanos_of(got), nanos_of(out)));
        out
    }
}

/// After `i` pulls on a bounded sequence that has spent nothing at first,
/// the sum of the yielded delays is what the sequence has spent, and that is
/// within the budget.
proof fn lemma_bounded_spends<T: DelaySequence>(
    states: Seq<Bounded<T>>,
    outs: Seq<Option<nat>>,
    i: int,
)
    requires
        is_run(states, outs),
        states[0].spent() == 0,
        0 <= i <= outs.len(),
    ensures
        total(outs.take(i)) == states[i].spent(),
        states[i].spent() <= states[i].budget(),
        states[i].budget() == states[0].budget(),
    decreases i,
{
    if i > 0 {
        lemma_bounded_spends(states, outs, i - 1);
        assert(Bounded::<T>::pulls(states[i - 1], states[i - 1 + 1], outs[i - 1]));
        assert(outs.take(i).drop_last() == outs.take(i - 1));
        assert(outs.take(i).last() == outs[i - 1]);
    }
}

/// In a run of a bounded sequence, a pull that yields nothing ends the
/// sequence: every later state is exhausted.
proof fn lemma_bounded_ends<T: DelaySequence>(
    states: Seq<Bounded<T>>,
    outs: Seq<Option<nat>>,
    i: int,
    j: int,
)
    requires
        is_run(states, outs),
        0 <= i < j <= outs.len(),
        outs[i] is None,
    ensures
        states[j].exhausted(),
    decreases j - i,
{
    if j == i + 1 {
        assert(Bounded::<T>::pulls(states[i], states[i + 1], outs[i]));
    } else {
        lemma_bounded_ends(states, outs, i, j - 1);
        assert(Bounded::<T>::pulls(states[j - 1], states[j - 1 + 1], outs[j - 1]));
    }
}

/// In every run of a sequence made by [`Bounded::new`], the sum of the
/// yielded delays never passes the bound, and once a pull has yielded
/// nothing, no later pull yields a delay.
pub proof fn lemma_bounded_total<T: DelaySequence>(states: Seq<Bounded<T>>, outs: Seq<Option<nat>>)
    requires
        is_run(states, outs),
        states[0].spent() == 0,
    ensures
        forall|i: int| 0 <= i <= outs.len() ==> total(#[trigger] outs.take(i)) <= states[0].budget(),
        total(outs) <= states[0].budget(),
        forall|i: int, j: int| 0 <= i <= j < outs.len() && outs[i] is None ==> outs[j] is None,
{
    assert forall|i: int| 0 <= i <= outs.len() implies total(#[trigger] outs.take(i))
        <= states[0].budget() by {
        lemma_bounded_spends(states, outs, i);
    }
    assert(outs.take(outs.len() as int) == outs);
    assert forall|i: int, j: int| 0 <= i <= j < outs.len() && outs[i] is None implies outs[j]
        is None by {
        if i < j {
            lemma_bounded_ends(states, outs, i, j);
            assert(Bounded::<T>::pulls(states[j], states[j + 1], outs[j]));
        }
    }
}

} // verus!
