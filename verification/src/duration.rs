//! A verified span of time with nanosecond resolution.
//!
//! [`Duration`] holds whole seconds and a sub-second part, and is viewed as its
//! total number of nanoseconds. Every operation is stated over that number.

use vstd::prelude::*;

verus! {

/// Nanoseconds in one second.
pub const NANOS_PER_SEC: u32 = 1_000_000_000;

/// Nanoseconds in one millisecond.
pub const NANOS_PER_MILLI: u32 = 1_000_000;

/// Milliseconds in one second.
pub const MILLIS_PER_SEC: u64 = 1_000;

/// The largest number of nanoseconds that a [`Duration`] can hold: all the
/// seconds that 64 bits count, and one nanosecond less than a second more.
pub const MAX_NANOS: u128 = 18_446_744_073_709_551_615_999_999_999;

/// The largest number of nanoseconds that a [`Duration`] can hold.
pub open spec fn max_nanos() -> nat {
    (u64::MAX as nat) * 1_000_000_000 + 999_999_999
}

/// The sum of two spans, held at [`max_nanos`] where it would pass it.
pub open spec fn saturating_sum(a: nat, b: nat) -> nat {
    if a + b <= max_nanos() {
        a + b
    } else {
        max_nanos()
    }
}

/// A non-negative span of time: whole seconds and a sub-second part in nanoseconds.
#[derive(Clone, Copy, Debug, PartialEq, Eq, Structural)]
pub struct Duration {
    secs: u64,
    nanos: u32,
}

impl View for Duration {
    type V = nat;

    /// The span in nanoseconds.
    closed spec fn view(&self) -> nat {
        (self.secs as nat) * 1_000_000_000 + (self.nanos as nat)
    }
}

impl Duration {
    /// The sub-second part stays below one second.
    #[verifier::type_invariant]
    pub closed spec fn wf(self) -> bool {
        self.nanos < NANOS_PER_SEC
    }

    /// A well-formed span never passes [`max_nanos`].
    pub proof fn lemma_in_range(self)
        requires
            self.wf(),
        ensures
            self@ <= max_nanos(),
    {
    }

    /// The empty span.
    pub fn zero() -> (d: Duration)
        ensures
            d@ == 0,
    {
        Duration { secs: 0, nanos: 0 }
    }

    /// The longest span that can be held.
    pub fn max() -> (d: Duration)
        ensures
            d@ == max_nanos(),
    {
        Duration { secs: u64::MAX, nanos: 999_999_999 }
    }

    /// A span of `secs` seconds and `nanos` nanoseconds. A sub-second part of one
    /// second or more is carried over into the seconds.
    pub fn new(secs: u64, nanos: u32) -> (d: Duration)
        requires
            secs + nanos / NANOS_PER_SEC <= u64::MAX,
        ensures
            d@ == secs * 1_000_000_000 + nanos,
    {
        let carry: u32 = nanos / NANOS_PER_SEC;
        let rest: u32 = nanos % NANOS_PER_SEC;
        Duration { secs: secs + carry as u64, nanos: rest }
    }

    /// A span of whole seconds.
    pub fn from_secs(secs: u64) -> (d: Duration)
        ensures
            d@ == secs * 1_000_000_000,
    {
        Duration { secs, nanos: 0 }
    }

    /// A span of whole milliseconds.
    pub fn from_millis(millis: u64) -> (d: Duration)
        ensures
            d@ == millis * 1_000_000,
    {
        let secs: u64 = millis / MILLIS_PER_SEC;
        let rest: u32 = (millis % MILLIS_PER_SEC) as u32;
        Duration { secs, nanos: rest * NANOS_PER_MILLI }
    }

    /// A span of whole nanoseconds.
    pub fn from_nanos_u128(nanos: u128) -> (d: Duration)
        requires
            nanos <= max_nanos(),
        ensures
            d@ == nanos,
    {
        let secs: u128 = nanos / 1_000_000_000;
        let rest: u128 = nanos % 1_000_000_000;
        Duration { secs: secs as u64, nanos: rest as u32 }
    }

    /// The whole seconds of the span.
    pub fn as_secs(&self) -> (secs: u64)
        ensures
            secs == self@ / 1_000_000_000,
    {
        proof {
            use_type_invariant(self);
        }
        self.secs
    }

    /// The part of the span below one second, in nanoseconds.
    pub fn subsec_nanos(&self) -> (nanos: u32)
        ensures
            nanos == self@ % 1_000_000_000,
            nanos < NANOS_PER_SEC,
    {
        proof {
            use_type_invariant(self);
        }
        self.nanos
    }

    /// The whole milliseconds of the span.
    pub fn as_millis(&self) -> (millis: u128)
        ensures
            millis == self@ / 1_000_000,
    {
        proof {
            use_type_invariant(self);
        }
        let whole: u128 = self.secs as u128 * 1_000;
        let part: u32 = self.nanos / NANOS_PER_MILLI;
        whole + part as u128
    }

    /// The span in nanoseconds.
    pub fn as_nanos(&self) -> (nanos: u128)
        ensures
            nanos == self@,
            nanos <= max_nanos(),
    {
        proof {
            use_type_invariant(self);
        }
        self.secs as u128 * 1_000_000_000 + self.nanos as u128
    }

    /// Whether this span is no longer than `other`.
    pub fn le(&self, other: &Duration) -> (b: bool)
        ensures
            b == (self@ <= other@),
    {
        proof {
            use_type_invariant(self);
            use_type_invariant(other);
        }
        self.secs < other.secs || (self.secs == other.secs && self.nanos <= other.nanos)
    }

    /// The sum of the two spans, or `None` where it cannot be held.
    pub fn checked_add(self, rhs: Duration) -> (sum: Option<Duration>)
        ensures
            sum is Some <==> self@ + rhs@ <= max_nanos(),
            sum matches Some(d) ==> d@ == self@ + rhs@,
    {
        proof {
            use_type_invariant(self);
            use_type_invariant(rhs);
        }
        let total: u32 = self.nanos + rhs.nanos;
        let carry: u64 = if total >= NANOS_PER_SEC {
            1
        } else {
            0
        };
        let nanos: u32 = if total >= NANOS_PER_SEC {
            total - NANOS_PER_SEC
        } else {
            total
        };
        match self.secs.checked_add(rhs.secs) {
            None => None,
            Some(whole) => match whole.checked_add(carry) {
                None => None,
                Some(secs) => Some(Duration { secs, nanos }),
            },
        }
    }

    /// The span times `factor`, or `None` where it cannot be held.
    pub fn checked_mul(self, factor: u32) -> (product: Option<Duration>)
        ensures
            product is Some <==> self@ * factor <= max_nanos(),
            product matches Some(d) ==> d@ == self@ * factor,
    {
        let nanos: u128 = self.as_nanos();
        assert(nanos * factor <= 0x4000_0000_0000_0000_0000_0000 * 0x1_0000_0000)
            by (nonlinear_arith)
            requires
                nanos <= 0x4000_0000_0000_0000_0000_0000,
                factor <= 0x1_0000_0000,
        ;
        let total: u128 = nanos * factor as u128;
        if total <= MAX_NANOS {
            Some(Duration::from_nanos_u128(total))
        } else {
            None
        }
    }

    /// The sum of the two spans, held at the longest span where it would pass it.
    pub fn saturating_add(self, rhs: Duration) -> (sum: Duration)
        ensures
            sum@ == saturating_sum(self@, rhs@),
    {
        match self.checked_add(rhs) {
            Some(sum) => sum,
            None => Duration::max(),
        }
    }
}

impl Default for Duration {
    /// The empty span.
    fn default() -> (d: Duration)
        ensures
            d@ == 0,
    {
        Duration::zero()
    }
}

} // verus!
