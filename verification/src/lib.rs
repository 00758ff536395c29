//! Retry an operation with a configurable sequence of delays between attempts.
//!
//! An operation is tried until it succeeds, fails for good, or the delay
//! sequence ends. After each attempt [`retry_step`] decides, from the outcome
//! and the delay sequence, whether to wait and try again or to stop. The
//! [`delay`] module holds the delay sequences, and [`persist`] the episodes
//! whose status is recorded.
//!
//! The library decides and never waits: invoking the operation and sleeping
//! for the delay are the caller's part.
//!
//! ```ignore
//! let mut delays = Take::new(Fixed::new(Duration::from_millis(100)), 3);
//! let result = loop {
//!     match retry_step(&mut delays, operation().into()) {
//!         Decision::Done(result) => break result,
//!         Decision::Wait(delay) => sleep(delay),
//!     }
//! };
//! ```
//!
//! [`course`] is the course of a whole episode, and the lemmas beside it
//! state how many invocations it takes and how it ends.

use vstd::prelude::*;

pub mod delay;
pub mod duration;
pub mod persist;

pub use crate::duration::Duration;

use crate::delay::{DelaySequence, Range, Take};

verus! {

/// A retry configuration for a random range and finite retry count.
#[derive(Debug, Clone, Copy)]
pub struct RetryConfig {
    /// how many times will we retry the operation
    pub count: usize,
    /// the minimum amount of milliseconds to wait before retrying
    pub min_backoff: u64,
    /// the maximum amount of milliseconds to wait before retrying
    pub max_backoff: u64,
}

impl RetryConfig {
    /// The delay sequence of this configuration: `count` delays, each chosen
    /// at random between the two backoffs, both included.
    pub fn into_delays(self) -> (delays: Take<Range>)
        requires
            self.min_backoff <= self.max_backoff,
        ensures
            delays.remaining() == self.count,
            delays.inner().least() == self.min_backoff,
            delays.inner().greatest() == self.max_backoff,
    {
        Take::new(Range::from_millis_inclusive(self.min_backoff, self.max_backoff), self.count)
    }
}

/// The outcome of one attempt.
#[derive(Debug)]
pub enum OperationResult<T, E> {
    /// Contains the success value.
    Success(T),
    /// Contains the error value if duration is exceeded.
    Retry(E),
    /// Contains an error value to return immediately.
    Fatal(E),
}

impl<T, E> From<Result<T, E>> for OperationResult<T, E> {
    fn from(item: Result<T, E>) -> (outcome: Self) {
        match item {
            Ok(v) => OperationResult::Success(v),
            Err(e) => OperationResult::Retry(e),
        }
    }
}

impl<T, E> vstd::std_specs::convert::FromSpecImpl<Result<T, E>> for OperationResult<T, E> {
    open spec fn obeys_from_spec() -> bool {
        true
    }

    open spec fn from_spec(item: Result<T, E>) -> Self {
        match item {
            Ok(v) => OperationResult::Success(v),
            Err(e) => OperationResult::Retry(e),
        }
    }
}

/// What to do after an attempt.
#[derive(Debug)]
pub enum Decision<R, E> {
    /// Suspend for the delay, then invoke the operation again.
    Wait(Duration),
    /// Stop with this result.
    Done(Result<R, E>),
}

/// The result with which the protocol stops after an attempt with `outcome`,
/// where `pulled` is what the delay sequence yields; `None` where it waits
/// and tries again. A success and a permanent failure stop at once, a
/// transient failure stops when the delay sequence has ended.
pub open spec fn verdict<R, E>(outcome: OperationResult<R, E>, pulled: Option<nat>) -> Option<
    Result<R, E>,
> {
    match outcome {
        OperationResult::Success(value) => Some(Ok(value)),
        OperationResult::Fatal(error) => Some(Err(error)),
        OperationResult::Retry(error) => match pulled {
            Some(_) => None,
            None => Some(Err(error)),
        },
    }
}

/// Whether `decision` is what [`verdict`] asks for: to stop with its result,
/// or to wait for the pulled delay.
pub open spec fn follows<R, E>(
    outcome: OperationResult<R, E>,
    pulled: Option<nat>,
    decision: Decision<R, E>,
) -> bool {
    match decision {
        Decision::Done(result) => verdict(outcome, pulled) == Some(result),
        Decision::Wait(delay) => verdict(outcome, pulled) is None && pulled == Some(delay@),
    }
}

/// Decides what follows an attempt. The delay sequence is pulled once where
/// the attempt failed transiently, and is left as it is otherwise.
pub fn retry_step<D: DelaySequence, R, E>(delays: &mut D, outcome: OperationResult<R, E>) -> (decision:
    Decision<R, E>)
    ensures
        outcome is Retry ==> exists|pulled: Option<nat>|
            #[trigger] D::pulls(*old(delays), *final(delays), pulled) && follows(
                outcome,
                pulled,
                decision,
            ),
        !(outcome is Retry) ==> *final(delays) == *old(delays) && follows(outcome, None, decision),
{
    match outcome {
        OperationResult::Success(value) => Decision::Done(Ok(value)),
        OperationResult::Fatal(error) => Decision::Done(Err(error)),
        OperationResult::Retry(error) => {
            let pulled = delays.next();
            let decision = match pulled {
                Some(delay) => Decision::Wait(delay),
                None => Decision::Done(Err(error)),
            };
            assert(D::pulls(*old(delays), *delays, crate::delay::nanos_of(pulled)));
            decision
        },
    }
}

/// What to do after an attempt of an operation that is retried until it
/// succeeds.
#[derive(Debug)]
pub enum PerpetualDecision<R> {
    /// Suspend for the delay, then invoke the operation again.
    Wait(Duration),
    /// Stop with this value.
    Done(R),
    /// The delay sequence has ended before the operation succeeded.
    Exhausted,
}

/// Decides what follows an attempt of an operation that is retried until it
/// succeeds: a success stops, and any failure pulls the delay sequence once
/// and waits for the delay. `Exhausted` reports a failure that found the
/// sequence at its end.
pub fn perpetual_step<D: DelaySequence, R, E>(delays: &mut D, outcome: Result<R, E>) -> (decision:
    PerpetualDecision<R>)
    ensures
        outcome is Ok ==> *final(delays) == *old(delays) && decision == PerpetualDecision::Done(
            outcome->Ok_0,
        ),
        outcome is Err ==> exists|pulled: Option<nat>|
            #[trigger] D::pulls(*old(delays), *final(delays), pulled) && match pulled {
                Some(nanos) => decision matches PerpetualDecision::Wait(delay) && delay@ == nanos,
                None => decision == PerpetualDecision::<R>::Exhausted,
            },
{
    match outcome {
        Ok(value) => PerpetualDecision::Done(value),
        Err(_) => {
            let pulled = delays.next();
            assert(D::pulls(*old(delays), *delays, crate::delay::nanos_of(pulled)));
            match pulled {
                Some(delay) => PerpetualDecision::Wait(delay),
                None => PerpetualDecision::Exhausted,
            }
        },
    }
}

/// The course of an episode: how often the operation was invoked, the delays
/// that were waited for, in order, and the result, once the episode is over.
pub struct Course<R, E> {
    pub invocations: nat,
    pub waits: Seq<nat>,
    pub result: Option<Result<R, E>>,
}

/// The course that the protocol takes where the attempts end with
/// `outcomes`, in order, and the delay sequence yields `delays` and then ends.
/// Each attempt is followed by what [`verdict`] says. The episode is not over
/// where `outcomes` ends before the protocol stops.
pub open spec fn course<R, E>(outcomes: Seq<OperationResult<R, E>>, delays: Seq<nat>) -> Course<
    R,
    E,
>
    decreases outcomes.len(),
{
    if outcomes.len() == 0 {
        Course { invocations: 0, waits: Seq::empty(), result: None }
    } else {
        let pulled = if delays.len() > 0 {
            Some(delays[0])
        } else {
            None
        };
        match verdict(outcomes[0], pulled) {
            Some(result) => Course { invocations: 1, waits: Seq::empty(), result: Some(result) },
            None => {
                let rest = course(outcomes.skip(1), delays.skip(1));
                Course {
                    invocations: rest.invocations + 1,
                    waits: seq![delays[0]] + rest.waits,
                    result: rest.result,
                }
            },
        }
    }
}

/// What pull `i` yields on a delay sequence that yields `delays` and then
/// ends.
pub open spec fn pulled_at(delays: Seq<nat>, i: int) -> Option<nat> {
    if 0 <= i < delays.len() {
        Some(delays[i])
    } else {
        None
    }
}

/// Whether `decisions` are the decisions of an episode that is over: decision
/// `i` is what follows attempt `i`, every decision but the last is to wait,
/// and the last is to stop.
pub open spec fn is_episode<R, E>(
    outcomes: Seq<OperationResult<R, E>>,
    delays: Seq<nat>,
    decisions: Seq<Decision<R, E>>,
) -> bool {
    &&& outcomes.len() > 0
    &&& decisions.len() == outcomes.len()
    &&& forall|i: int|
        0 <= i < decisions.len() ==> follows(
            outcomes[i],
            pulled_at(delays, i),
            #[trigger] decisions[i],
        )
    &&& forall|i: int| 0 <= i < decisions.len() - 1 ==> #[trigger] decisions[i] is Wait
    &&& decisions.last() is Done
}

/// An episode whose attempts are followed by what [`retry_step`] decides
/// takes the course that [`course`] gives: one invocation for each outcome,
/// the waits that were decided, and the result of the last decision.
pub proof fn lemma_episode_takes_its_course<R, E>(
    outcomes: Seq<OperationResult<R, E>>,
    delays: Seq<nat>,
    decisions: Seq<Decision<R, E>>,
)
    requires
        is_episode(outcomes, delays, decisions),
    ensures
        course(outcomes, delays).invocations == outcomes.len(),
        course(outcomes, delays).result == Some(decisions.last()->Done_0),
        course(outcomes, delays).waits.len() == decisions.len() - 1,
        forall|i: int|
            0 <= i < decisions.len() - 1 ==> #[trigger] course(outcomes, delays).waits[i]
                == decisions[i]->Wait_0@,
    decreases outcomes.len(),
{
    let first = decisions[0];
    assert(follows(outcomes[0], pulled_at(delays, 0), first));
    if outcomes.len() > 1 {
        assert(first is Wait);
        let later = decisions.skip(1);
        assert forall|i: int| 0 <= i < later.len() implies follows(
            outcomes.skip(1)[i],
            pulled_at(delays.skip(1), i),
            #[trigger] later[i],
        ) by {
            assert(later[i] == decisions[i + 1]);
            assert(pulled_at(delays.skip(1), i) == pulled_at(delays, i + 1));
        }
        assert forall|i: int| 0 <= i < later.len() - 1 implies #[trigger] later[i] is Wait by {
            assert(later[i] == decisions[i + 1]);
        }
        assert(later.last() == decisions.last());
        lemma_episode_takes_its_course(outcomes.skip(1), delays.skip(1), later);
        let rest = course(outcomes.skip(1), delays.skip(1));
        assert forall|i: int| 0 <= i < decisions.len() - 1 implies #[trigger] course(
            outcomes,
            delays,
        ).waits[i] == decisions[i]->Wait_0@ by {
            if i > 0 {
                assert(rest.waits[i - 1] == later[i - 1]->Wait_0@);
            }
        }
    }
}

/// The outcomes of an operation that fails transiently with each of `errors`
/// in turn and then succeeds with `value`.
pub open spec fn transient_then_success<R, E>(errors: Seq<E>, value: R) -> Seq<
    OperationResult<R, E>,
> {
    Seq::new(errors.len(), |i: int| OperationResult::Retry(errors[i])).push(
        OperationResult::Success(value),
    )
}

/// An operation that fails transiently `k` times and then succeeds is invoked
/// `k + 1` times and ends in success where the delay sequence has `k` delays
/// or more: the first `k` of them are waited for. Where the sequence has fewer,
/// every delay is waited for, and the episode ends with the transient error
/// of the attempt that found the sequence at its end.
pub proof fn lemma_transient_then_success<R, E>(errors: Seq<E>, value: R, delays: Seq<nat>)
    ensures
        errors.len() <= delays.len() ==> {
            let run = course(transient_then_success(errors, value), delays);
            &&& run.invocations == errors.len() + 1
            &&& run.result == Some(Ok::<R, E>(value))
            &&& run.waits == delays.take(errors.len() as int)
        },
        errors.len() > delays.len() ==> {
            let run = course(transient_then_success(errors, value), delays);
            &&& run.invocations == delays.len() + 1
            &&& run.result == Some(Err::<R, E>(errors[delays.len() as int]))
            &&& run.waits == delays
        },
    decreases errors.len(),
{
    let outcomes = transient_then_success(errors, value);
    if errors.len() == 0 {
        assert(delays.take(0) == Seq::<nat>::empty());
    } else if delays.len() == 0 {
        assert(delays == Seq::<nat>::empty());
    } else {
        lemma_transient_then_success(errors.skip(1), value, delays.skip(1));
        assert(outcomes.skip(1) == transient_then_success(errors.skip(1), value));
        let rest = course(outcomes.skip(1), delays.skip(1));
        if errors.len() <= delays.len() {
            assert(seq![delays[0]] + delays.skip(1).take(errors.len() as int - 1) == delays.take(
                errors.len() as int,
            ));
        } else {
            assert(seq![delays[0]] + delays.skip(1) == delays);
        }
    }
}

/// A permanent failure on the first attempt ends the episode after that one
/// invocation, with its error and without a wait, whatever the delay
/// sequence holds.
pub proof fn lemma_permanent_failure_stops<R, E>(
    error: E,
    later: Seq<OperationResult<R, E>>,
    delays: Seq<nat>,
)
    ensures
        ({
            let run = course(seq![OperationResult::Fatal(error)] + later, delays);
            &&& run.invocations == 1
            &&& run.result == Some(Err::<R, E>(error))
            &&& run.waits == Seq::<nat>::empty()
        }),
{
}

} // verus!
