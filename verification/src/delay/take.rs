//! A bound on the number of delays of a sequence.

use vstd::prelude::*;

use crate::delay::{nanos_of, DelaySequence};
use crate::duration::Duration;

verus! {

/// At most a given number of retries, with the delays of the wrapped sequence.
#[derive(Debug)]
pub struct Take<T> {
    inner: T,
    remaining: usize,
}

impl<T: Clone> Clone for Take<T> {
    fn clone(&self) -> (copy: Self)
        ensures
            cloned(self.inner(), copy.inner()),
            copy.remaining() == self.remaining(),
    {
        Take { inner: self.inner.clone(), remaining: self.remaining }
    }
}

impl<T> Take<T> {
    /// The wrapped sequence.
    pub closed spec fn inner(self) -> T {
        self.inner
    }

    /// The number of delays that are still permitted.
    pub closed spec fn remaining(self) -> nat {
        self.remaining as nat
    }
}

impl<T: DelaySequence> Take<T> {
    /// Limits `inner` to its first `count` delays.
    pub fn new(inner: T, count: usize) -> (take: Self)
        ensures
            take.inner() == inner,
            take.remaining() == count,
    {
        Take { inner, remaining: count }
    }
}

impl<T: DelaySequence> DelaySequence for Take<T> {
    open spec fn pulls(pre: Self, post: Self, out: Option<nat>) -> bool {
        if pre.remaining() == 0 {
            &&& out is None
            &&& post.remaining() == 0
            &&& post.inner() == pre.inner()
        } else {
            &&& post.remaining() == pre.remaining() - 1
            &&& T::pulls(pre.inner(), post.inner(), out)
        }
    }

    fn next(&mut self) -> (out: Option<Duration>) {
        if self.remaining != 0 {
            self.remaining = self.remaining - 1;
            self.inner.next()
        } else {
            None
        }
    }
}

} // verus!
