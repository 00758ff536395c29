//! Retries whose status is recorded, so that they can be taken up again.
//!
//! A [`RetryHandle`] holds the injector that records the status of every
//! episode, and the delay sequence that every episode starts from.
//! [`RetryHandle::begin`] hands out the status to save first and the
//! [`Episode`]. After each attempt [`Episode::attempted`] says whether to
//! sleep and try again, or to save the last status. Loading, saving,
//! invoking and sleeping are left to the caller.

use vstd::prelude::*;

use crate::delay::DelaySequence;
use crate::duration::Duration;
use crate::{retry_step, verdict, Decision, OperationResult};

verus! {

/// Status of a persistent retry.
#[derive(Debug)]
pub enum Status<O, E> {
    Pending,
    Success(O),
    Failure(E),
}

/// The status that records `result`, the end of an episode.
pub open spec fn terminal<O, E>(result: Result<O, E>) -> Status<O, E> {
    match result {
        Ok(output) => Status::Success(output),
        Err(error) => Status::Failure(error),
    }
}

impl<O, E> Status<O, E> {
    /// The status that records the end of an episode.
    pub fn of(result: Result<O, E>) -> (status: Self)
        ensures
            status == terminal(result),
    {
        match result {
            Ok(output) => Status::Success(output),
            Err(error) => Status::Failure(error),
        }
    }
}

/// Persistent retry handle.
pub struct RetryHandle<Inj, Dur> {
    injector: Inj,
    durations: Dur,
}

impl<Inj, Dur> RetryHandle<Inj, Dur> {
    /// The injector of the handle.
    pub closed spec fn injector(self) -> Inj {
        self.injector
    }

    /// The delay sequence that every episode starts from.
    pub closed spec fn durations(self) -> Dur {
        self.durations
    }

    /// Create a new persistent retry handle from an injector and a cloneable
    /// delay sequence.
    pub fn new(injector: Inj, durations: Dur) -> (handle: Self)
        ensures
            handle.injector() == injector,
            handle.durations() == durations,
    {
        Self { injector, durations }
    }

    /// The injector, to load and save with.
    pub fn injector_mut(&mut self) -> (injector: &mut Inj)
        ensures
            *injector == old(self).injector(),
            final(self).injector() == *final(injector),
            final(self).durations() == old(self).durations(),
    {
        &mut self.injector
    }
}

/// One episode of retries: what is left of its delay sequence.
#[derive(Debug)]
pub struct Episode<D> {
    delays: D,
}

/// How an episode goes on after an attempt.
#[derive(Debug)]
pub enum Progress<D, O, E> {
    /// Suspend for the delay, then invoke the operation again and hand its
    /// outcome to the episode.
    Sleep(Duration, Episode<D>),
    /// Save this status. The episode is over.
    Close(Status<O, E>),
}

/// Whether `progress` is what follows an attempt with `outcome`, where
/// `pulled` is what the delay sequence yielded and `left` what is left of it:
/// to close with the status of the result where [`verdict`] gives one, else to
/// sleep for the pulled delay and go on with what is left.
pub open spec fn proceeds<D, O, E>(
    outcome: OperationResult<O, E>,
    pulled: Option<nat>,
    left: D,
    progress: Progress<D, O, E>,
) -> bool {
    match progress {
        Progress::Close(status) => verdict(outcome, pulled) matches Some(result) && status
            == terminal(result),
        Progress::Sleep(delay, next) => {
            &&& verdict(outcome, pulled) is None
            &&& pulled == Some(delay@)
            &&& next.delays() == left
        },
    }
}

impl<Inj, Dur: DelaySequence + Clone> RetryHandle<Inj, Dur> {
    /// Starts an episode: the status to save before the first attempt, which
    /// is `Pending`, and the episode, with a copy of the delay sequence of its
    /// own.
    pub fn begin<O, E>(&self) -> (start: (Status<O, E>, Episode<Dur>))
        ensures
            start.0 == Status::<O, E>::Pending,
            cloned(self.durations(), start.1.delays()),
    {
        (Status::Pending, Episode { delays: self.durations.clone() })
    }
}

impl<D> Episode<D> {
    /// What is left of the delay sequence.
    pub closed spec fn delays(self) -> D {
        self.delays
    }
}

impl<D: DelaySequence> Episode<D> {
    /// Takes the outcome of an attempt and says how the episode goes on. The
    /// delay sequence is pulled once where the attempt failed transiently, and
    /// is left as it is otherwise.
    pub fn attempted<O, E>(self, outcome: OperationResult<O, E>) -> (progress: Progress<D, O, E>)
        ensures
            outcome is Retry ==> exists|pulled: Option<nat>, left: D|
                #[trigger] D::pulls(self.delays(), left, pulled) && proceeds(
                    outcome,
                    pulled,
                    left,
                    progress,
                ),
            !(outcome is Retry) ==> proceeds(outcome, None, self.delays(), progress),
    {
        let mut delays = self.delays;
        let ghost before = delays;
        let decision = retry_step(&mut delays, outcome);
        proof {
            if outcome is Retry {
                let pulled = choose|pulled: Option<nat>|
                    #[trigger] D::pulls(before, delays, pulled) && crate::follows(
                        outcome,
                        pulled,
                        decision,
                    );
                assert(D::pulls(self.delays(), delays, pulled));
            }
        }
        match decision {
            Decision::Wait(delay) => Progress::Sleep(delay, Episode { delays }),
            Decision::Done(result) => Progress::Close(Status::of(result)),
        }
    }
}

/// The statuses that an episode hands out for saving, in order, where the
/// attempts end with `outcomes` and the delay sequence yields `delays` and
/// then ends: `Pending` at the start, and the status of the result once the
/// episode is over.
pub open spec fn record<O, E>(outcomes: Seq<OperationResult<O, E>>, delays: Seq<nat>) -> Seq<
    Status<O, E>,
> {
    match crate::course(outcomes, delays).result {
        Some(result) => seq![Status::Pending, terminal(result)],
        None => seq![Status::Pending],
    }
}

/// The record of an episode starts with `Pending`. An episode that is over
/// has recorded one more status, which is a success or a failure, and no
/// episode records more than that.
pub proof fn lemma_record_of_episode<O, E>(outcomes: Seq<OperationResult<O, E>>, delays: Seq<nat>)
    ensures
        record(outcomes, delays)[0] == Status::<O, E>::Pending,
        crate::course(outcomes, delays).result is None ==> record(outcomes, delays).len() == 1,
        crate::course(outcomes, delays).result is Some ==> {
            &&& record(outcomes, delays).len() == 2
            &&& !(record(outcomes, delays)[1] is Pending)
        },
{
}

} // verus!
