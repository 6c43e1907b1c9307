//! Plain time values: spans and instants counted in whole nanoseconds.
//!
//! The engine never reads a clock. Callers hand it the time that passed and
//! the current instant as values of these types.

use vstd::prelude::*;

verus! {

/// Nanoseconds in one second.
pub const NANOS_PER_SEC: u64 = 1_000_000_000;

/// The longest span, in whole seconds, that a [`Duration`] holds.
pub const MAX_SECS: u64 = 18_446_744_073;

/// A span of time in whole nanoseconds (at most about 584 years).
#[derive(Clone, Copy, Debug, PartialEq, Eq, Structural, PartialOrd, Ord, Hash)]
pub struct Duration {
    pub nanos: u64,
}

impl View for Duration {
    type V = nat;

    /// The span as a number of nanoseconds.
    open spec fn view(&self) -> nat {
        self.nanos as nat
    }
}

impl Duration {
    /// The empty span.
    pub fn zero() -> (d: Duration)
        ensures
            d@ == 0,
    {
        Duration { nanos: 0 }
    }

    /// Whether `secs` seconds and `nanos` nanoseconds together fit in a `Duration`.
    pub open spec fn representable(secs: u64, nanos: u32) -> bool {
        secs * NANOS_PER_SEC + nanos <= u64::MAX
    }

    /// The span of `secs` seconds and `nanos` nanoseconds.
    pub fn new(secs: u64, nanos: u32) -> (d: Duration)
        requires
            Self::representable(secs, nanos),
        ensures
            d@ == secs * NANOS_PER_SEC + nanos,
    {
        Duration { nanos: secs * NANOS_PER_SEC + nanos as u64 }
    }

    /// The span of `secs` seconds and `nanos` nanoseconds, or `None` when it
    /// is too long to represent.
    pub fn checked_new(secs: u64, nanos: u32) -> (r: Option<Duration>)
        ensures
            r.is_some() == Self::representable(secs, nanos),
            r matches Some(d) ==> d@ == secs * NANOS_PER_SEC + nanos,
    {
        if secs > MAX_SECS {
            assert(secs * NANOS_PER_SEC > u64::MAX) by (nonlinear_arith)
                requires
                    secs > MAX_SECS,
            ;
            return None;
        }
        assert(secs * NANOS_PER_SEC <= MAX_SECS * NANOS_PER_SEC) by (nonlinear_arith)
            requires
                secs <= MAX_SECS,
        ;
        let whole: u64 = secs * NANOS_PER_SEC;
        if nanos as u64 > u64::MAX - whole {
            None
        } else {
            Some(Duration { nanos: whole + nanos as u64 })
        }
    }

    /// The span of `nanos` nanoseconds.
    pub fn from_nanos(nanos: u64) -> (d: Duration)
        ensures
            d@ == nanos,
    {
        Duration { nanos }
    }

    /// The span of `secs` whole seconds.
    pub fn from_secs(secs: u64) -> (d: Duration)
        requires
            secs <= MAX_SECS,
        ensures
            d@ == secs * NANOS_PER_SEC,
    {
        assert(secs * NANOS_PER_SEC <= MAX_SECS * NANOS_PER_SEC) by (nonlinear_arith)
            requires
                secs <= MAX_SECS,
        ;
        Duration { nanos: secs * NANOS_PER_SEC }
    }

    /// The whole span in nanoseconds.
    pub fn as_nanos(&self) -> (n: u64)
        ensures
            n == self@,
    {
        self.nanos
    }

    /// The number of whole seconds in the span.
    pub fn as_secs(&self) -> (s: u64)
        ensures
            s == self@ / (NANOS_PER_SEC as nat),
    {
        self.nanos / NANOS_PER_SEC
    }

    /// The part of the span beyond its whole seconds, in nanoseconds.
    pub fn subsec_nanos(&self) -> (n: u32)
        ensures
            n == self@ % (NANOS_PER_SEC as nat),
    {
        (self.nanos % NANOS_PER_SEC) as u32
    }

    /// The sum of two spans, or `None` when it is too long to represent.
    pub fn checked_add(self, rhs: Duration) -> (r: Option<Duration>)
        ensures
            r.is_some() == (self@ + rhs@ <= u64::MAX),
            r matches Some(d) ==> d@ == self@ + rhs@,
    {
        if rhs.nanos > u64::MAX - self.nanos {
            None
        } else {
            Some(Duration { nanos: self.nanos + rhs.nanos })
        }
    }

    /// The span left of `self` once `rhs` is taken away, and zero when `rhs`
    /// is the longer one.
    pub fn saturating_sub(self, rhs: Duration) -> (d: Duration)
        ensures
            d@ == if self@ >= rhs@ { self@ - rhs@ } else { 0 },
    {
        if self.nanos >= rhs.nanos {
            Duration { nanos: self.nanos - rhs.nanos }
        } else {
            Duration { nanos: 0 }
        }
    }
}

/// An instant: nanoseconds since the Unix epoch, negative before it.
#[derive(Clone, Copy, Debug, PartialEq, Eq, Structural, PartialOrd, Ord, Hash)]
pub struct Timestamp {
    pub nanos: i64,
}

impl View for Timestamp {
    type V = int;

    /// The instant as a number of nanoseconds since the epoch.
    open spec fn view(&self) -> int {
        self.nanos as int
    }
}

impl Timestamp {
    /// The instant `nanos` nanoseconds after the epoch.
    pub fn from_nanos(nanos: i64) -> (t: Timestamp)
        ensures
            t@ == nanos,
    {
        Timestamp { nanos }
    }

    /// Nanoseconds since the epoch.
    pub fn as_nanos(&self) -> (n: i64)
        ensures
            n == self@,
    {
        self.nanos
    }

    /// The time from `earlier` to `self`, or `None` when `earlier` is the
    /// later of the two.
    pub fn duration_since(self, earlier: Timestamp) -> (r: Option<Duration>)
        ensures
            r.is_some() == (earlier@ <= self@),
            r matches Some(d) ==> d@ == self@ - earlier@,
    {
        if self.nanos < earlier.nanos {
            None
        } else {
            let span: i128 = self.nanos as i128 - earlier.nanos as i128;
            Some(Duration { nanos: span as u64 })
        }
    }

    /// The instant `span` after `self`, or `None` when it is out of range.
    pub fn checked_add(self, span: Duration) -> (r: Option<Timestamp>)
        ensures
            r.is_some() == (self@ + span@ <= i64::MAX),
            r matches Some(t) ==> t@ == self@ + span@,
    {
        let sum: i128 = self.nanos as i128 + span.nanos as i128;
        if sum > i64::MAX as i128 {
            None
        } else {
            Some(Timestamp { nanos: sum as i64 })
        }
    }
}

} // verus!
