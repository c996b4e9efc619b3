//! Points in time and spans of time, as plain numbers of nanoseconds.
//!
//! The state machines of this crate read no clock: whoever drives them says
//! what time it is. An [`Instant`] counts from an origin that the driver
//! chooses once.

use vstd::prelude::*;

verus! {

/// A span of time.
#[derive(Debug, Clone, Copy, PartialEq, Eq, PartialOrd, Ord, Hash, Structural)]
pub struct Duration {
    pub nanos: u128,
}

impl Duration {
    /// A span of whole seconds.
    pub fn from_secs(secs: u64) -> (d: Self)
        ensures
            d.nanos == secs * 1_000_000_000,
    {
        Duration { nanos: secs as u128 * 1_000_000_000 }
    }

    /// A span of whole milliseconds.
    pub fn from_millis(millis: u64) -> (d: Self)
        ensures
            d.nanos == millis * 1_000_000,
    {
        Duration { nanos: millis as u128 * 1_000_000 }
    }
}

/// A point in time.
#[derive(Debug, Clone, Copy, PartialEq, Eq, PartialOrd, Ord, Hash, Structural)]
pub struct Instant {
    pub nanos: u128,
}

impl Instant {
    /// Whether at least `span` has gone by from `earlier` to `self`. A later
    /// `earlier` counts as no time at all.
    pub open spec fn reached(self, earlier: Instant, span: Duration) -> bool {
        if self.nanos >= earlier.nanos {
            self.nanos - earlier.nanos >= span.nanos
        } else {
            span.nanos == 0
        }
    }

    /// The span from `earlier` to `self`, or nothing when `earlier` is later.
    pub fn saturating_duration_since(self, earlier: Instant) -> (d: Duration)
        ensures
            d.nanos == (if self.nanos >= earlier.nanos {
                self.nanos - earlier.nanos
            } else {
                0
            }),
    {
        if self.nanos >= earlier.nanos {
            Duration { nanos: self.nanos - earlier.nanos }
        } else {
            Duration { nanos: 0 }
        }
    }

    /// Whether at least `span` has gone by since `earlier`.
    pub fn has_reached(self, earlier: Instant, span: Duration) -> (b: bool)
        ensures
            b == self.reached(earlier, span),
    {
        self.saturating_duration_since(earlier).nanos >= span.nanos
    }

    /// The point `span` later, where there is one.
    pub fn checked_add(self, span: Duration) -> (r: Option<Instant>)
        ensures
            match r {
                Some(t) => t.nanos == self.nanos + span.nanos,
                None => self.nanos + span.nanos > u128::MAX,
            },
    {
        match self.nanos.checked_add(span.nanos) {
            Some(nanos) => Some(Instant { nanos }),
            None => None,
        }
    }
}

} // verus!
