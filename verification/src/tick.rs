//! The discrete tick clock: the logical time base that paces every other
//! component.  A tick identifies one fixed-duration simulation step.

use vstd::prelude::*;

verus! {

/// A discrete simulation step counter, the system's logical clock.
///
/// Ticks strictly increase by exactly one per local step and never decrease;
/// every time-stamped message carries one.
#[derive(Clone, Copy, Debug, PartialEq, Eq, Structural, PartialOrd, Ord, Hash)]
pub struct Tick(pub u64);

impl Tick {
    /// The tick that follows this one.
    pub fn next(self) -> (r: Tick)
        requires
            self.0 < u64::MAX,
        ensures
            r.0 == self.0 + 1,
    {
        Tick(self.0 + 1)
    }

    /// Whether this tick is strictly newer than `other`.
    pub fn is_after(self, other: Tick) -> (r: bool)
        ensures
            r == (self.0 > other.0),
    {
        self.0 > other.0
    }
}

/// The process-wide tick clock.  `advance` is called once per fixed interval
/// by the host's update loop; everything else reads `now`.
pub struct TickClock {
    tick: Tick,
}

impl TickClock {
    /// The tick the clock currently reads, as seen by specifications.
    pub closed spec fn spec_now(&self) -> Tick {
        self.tick
    }

    /// A clock starting at the given tick.
    pub fn new(start: Tick) -> (r: TickClock)
        ensures
            r.spec_now() == start,
    {
        TickClock { tick: start }
    }

    /// The current tick.
    pub fn now(&self) -> (r: Tick)
        ensures
            r == self.spec_now(),
    {
        self.tick
    }

    /// Advance the clock by exactly one step.
    pub fn advance(&mut self)
        requires
            old(self).spec_now().0 < u64::MAX,
        ensures
            final(self).spec_now().0 == old(self).spec_now().0 + 1,
    {
        self.tick = Tick(self.tick.0 + 1);
    }

    /// Advance the clock by `n` steps, one at a time.
    ///
    /// After `n` advances the clock reads the initial tick plus `n`: stepping
    /// is nothing but repeated increment, so no sequence of steps can make
    /// the clock skip or go backwards.
    pub fn advance_by(&mut self, n: u64)
        requires
            old(self).spec_now().0 + n <= u64::MAX,
        ensures
            final(self).spec_now().0 == old(self).spec_now().0 + n,
    {
        let mut i: u64 = 0;
        while i < n
            invariant
                i <= n,
                self.spec_now().0 == old(self).spec_now().0 + i,
                old(self).spec_now().0 + n <= u64::MAX,
            decreases n - i,
        {
            self.advance();
            i = i + 1;
        }
    }
}

} // verus!
