use vstd::prelude::*;

verus! {

/// Number of nanoseconds in one second.
pub const NANOS_PER_SEC: u32 = 1_000_000_000;

/// A non-negative span of time: whole seconds plus a sub-second part in
/// nanoseconds.
#[derive(Clone, Copy, Debug, PartialEq, Eq, Structural)]
pub struct Duration {
    pub secs: u64,
    pub nanos: u32,
}

impl Duration {
    /// The sub-second part is below one second.
    pub open spec fn wf(self) -> bool {
        self.nanos < NANOS_PER_SEC
    }

    /// The span as a number of nanoseconds.
    pub open spec fn total(self) -> int {
        self.secs * (NANOS_PER_SEC as int) + self.nanos
    }

    /// Builds a span from its two components.
    pub fn new(secs: u64, nanos: u32) -> (r: Duration)
        requires
            nanos < NANOS_PER_SEC,
        ensures
            r.wf(),
            r.secs == secs,
            r.nanos == nanos,
    {
        Duration { secs, nanos }
    }

    /// A span of whole seconds.
    pub fn from_secs(secs: u64) -> (r: Duration)
        ensures
            r.wf(),
            r.secs == secs,
            r.nanos == 0,
    {
        Duration { secs, nanos: 0 }
    }

    /// The whole-second component.
    pub fn as_secs(&self) -> (r: u64)
        ensures
            r == self.secs,
    {
        self.secs
    }

    /// The sub-second component, in nanoseconds.
    pub fn subsec_nanos(&self) -> (r: u32)
        ensures
            r == self.nanos,
    {
        self.nanos
    }

    /// The span as a number of nanoseconds, when that fits in a `u64`.
    pub fn as_nanos(&self) -> (r: Option<u64>)
        ensures
            r == (if self.total() <= u64::MAX {
                Some(self.total() as u64)
            } else {
                None::<u64>
            }),
    {
        match self.secs.checked_mul(NANOS_PER_SEC as u64) {
            None => None,
            Some(whole) => whole.checked_add(self.nanos as u64),
        }
    }
}

/// A point on a monotonic clock, as nanoseconds since an origin that the
/// caller fixes once for all instants it compares.
#[derive(Clone, Copy, Debug, PartialEq, Eq, Structural)]
pub struct Instant {
    pub nanos: u64,
}

impl Instant {
    /// The instant `nanos` nanoseconds after the origin.
    pub fn from_nanos(nanos: u64) -> (r: Instant)
        ensures
            r.nanos == nanos,
    {
        Instant { nanos }
    }

    /// The instant `d` after this one, unless it lies beyond the clock's range.
    pub fn checked_add(&self, d: Duration) -> (r: Option<Instant>)
        ensures
            r == (if self.nanos + d.total() <= u64::MAX {
                Some(Instant { nanos: (self.nanos + d.total()) as u64 })
            } else {
                None::<Instant>
            }),
    {
        match d.as_nanos() {
            None => None,
            Some(span) => match self.nanos.checked_add(span) {
                None => None,
                Some(n) => Some(Instant { nanos: n }),
            },
        }
    }

    /// Whether this instant is at or after `other`.
    pub fn reached(&self, other: &Instant) -> (r: bool)
        ensures
            r == (self.nanos >= other.nanos),
    {
        self.nanos >= other.nanos
    }
}

} // verus!
