//! Clock synchronization: round-trip estimation and the decision to nudge
//! the local tick rate so that client input reaches the server in time.
//!
//! The client periodically pings the server; each pong yields a round-trip
//! sample that is folded into an exponentially-weighted moving average.
//! From the smoothed estimate the client derives the tick offset it should
//! run ahead of the server, and nudges (never snaps) its tick rate when
//! the measured offset drifts out of a tolerance band.  Time values are
//! plain microsecond counts handed in by the host.

use vstd::prelude::*;

verus! {

/// How the local tick rate should change this interval.
#[derive(Clone, Copy, Debug, PartialEq, Eq, Structural)]
pub enum TickAdjust {
    /// Run slightly slower: the client is too far ahead.
    SlowDown,
    /// Stay at the nominal rate: inside the tolerance band.
    Keep,
    /// Run slightly faster: the client is falling behind.
    SpeedUp,
}

/// The smoothed estimate after one sample: seven parts old, one part new.
pub open spec fn spec_ewma(old_est: u64, sample: u64) -> int {
    (7 * old_est + sample) / 8
}

/// The tick offset the client should run ahead: half the round trip,
/// rounded up to whole ticks, plus a safety margin.
pub open spec fn spec_desired_offset(rtt_us: u64, tick_us: u64, margin_ticks: u64) -> int
    recommends
        tick_us > 0,
{
    (rtt_us / 2 + tick_us - 1) / (tick_us as int) + margin_ticks
}

/// Round-trip estimation and clock-nudge decisions for one connection.
pub struct SyncManager {
    /// Smoothed round-trip time, in microseconds.
    rtt_us: u64,
    /// When the last pong arrived, in microseconds of host time.
    last_pong_us: u64,
    /// Whether the connection is currently considered degraded.
    degraded: bool,
}

impl SyncManager {
    /// The smoothed round-trip estimate.
    pub closed spec fn spec_rtt(&self) -> u64 {
        self.rtt_us
    }

    /// When the last pong arrived.
    pub closed spec fn spec_last_pong(&self) -> u64 {
        self.last_pong_us
    }

    /// Whether the connection is marked degraded.
    pub closed spec fn spec_degraded(&self) -> bool {
        self.degraded
    }

    /// A manager with an initial round-trip guess, healthy as of `now_us`.
    pub fn new(initial_rtt_us: u64, now_us: u64) -> (r: SyncManager)
        ensures
            r.spec_rtt() == initial_rtt_us,
            r.spec_last_pong() == now_us,
            !r.spec_degraded(),
    {
        SyncManager { rtt_us: initial_rtt_us, last_pong_us: now_us, degraded: false }
    }

    /// The smoothed round-trip estimate.
    pub fn rtt_us(&self) -> (r: u64)
        ensures
            r == self.spec_rtt(),
    {
        self.rtt_us
    }

    /// Whether the connection is marked degraded.
    pub fn is_degraded(&self) -> (r: bool)
        ensures
            r == self.spec_degraded(),
    {
        self.degraded
    }

    /// Fold one round-trip sample into the estimate: the matching pong for
    /// a ping arrived at `now_us` after `sample_us` on the wire.  A pong
    /// also clears the degraded flag.
    pub fn on_pong(&mut self, now_us: u64, sample_us: u64)
        requires
            old(self).spec_rtt() <= 0x1000_0000_0000_0000,
            sample_us <= 0x1000_0000_0000_0000,
        ensures
            final(self).spec_rtt() == spec_ewma(old(self).spec_rtt(), sample_us),
            final(self).spec_last_pong() == now_us,
            !final(self).spec_degraded(),
    {
        self.rtt_us = (7 * self.rtt_us + sample_us) / 8;
        self.last_pong_us = now_us;
        self.degraded = false;
    }

    /// No pong within `timeout_multiple` ping intervals marks the
    /// connection degraded; the clock keeps free-running either way.
    /// Returns the degraded state.
    pub fn check_timeout(&mut self, now_us: u64, ping_interval_us: u64, timeout_multiple: u64) -> (r:
        bool)
        requires
            ping_interval_us * timeout_multiple <= u64::MAX,
            old(self).spec_last_pong() <= now_us,
        ensures
            r == (now_us - old(self).spec_last_pong() > ping_interval_us * timeout_multiple),
            final(self).spec_degraded() == (old(self).spec_degraded() || r),
            final(self).spec_rtt() == old(self).spec_rtt(),
            final(self).spec_last_pong() == old(self).spec_last_pong(),
    {
        proof {
            assert(ping_interval_us * timeout_multiple >= 0) by (nonlinear_arith);
        }
        let limit: u64 = ping_interval_us * timeout_multiple;
        let late = now_us - self.last_pong_us > limit;
        if late {
            self.degraded = true;
        }
        late
    }

    /// The tick offset the client should run ahead of the server so that
    /// input for tick T arrives before the server processes tick T.
    pub fn desired_offset_ticks(&self, tick_us: u64, margin_ticks: u64) -> (r: u64)
        requires
            tick_us > 0,
            self.spec_rtt() <= 0x1000_0000_0000_0000,
            tick_us <= 0x1000_0000_0000_0000,
            margin_ticks <= 1000,
        ensures
            r == spec_desired_offset(self.spec_rtt(), tick_us, margin_ticks),
    {
        let half: u64 = self.rtt_us / 2;
        let ceil_div: u64 = (half + (tick_us - 1)) / tick_us;
        ceil_div + margin_ticks
    }
}

/// Whether and how to nudge the local tick rate: inside the tolerance band
/// the clock is left alone, outside it the rate is adjusted by a small
/// bounded factor rather than snapped.
pub fn decide_adjust(current_offset_ticks: u64, desired_offset_ticks: u64, tolerance_ticks: u64) -> (
    r: TickAdjust)
    ensures
        r is SlowDown <==> current_offset_ticks > desired_offset_ticks + tolerance_ticks,
        r is SpeedUp <==> current_offset_ticks + tolerance_ticks < desired_offset_ticks,
        r is Keep <==> (desired_offset_ticks <= current_offset_ticks + tolerance_ticks
            && current_offset_ticks <= desired_offset_ticks + tolerance_ticks),
{
    if current_offset_ticks > desired_offset_ticks && current_offset_ticks - desired_offset_ticks
        > tolerance_ticks {
        TickAdjust::SlowDown
    } else if desired_offset_ticks > current_offset_ticks && desired_offset_ticks
        - current_offset_ticks > tolerance_ticks {
        TickAdjust::SpeedUp
    } else {
        TickAdjust::Keep
    }
}

/// One nudged tick interval: the nominal interval lengthened or shortened
/// by the bounded adjustment `slew_us`, never snapped.
pub fn adjusted_interval_us(nominal_us: u64, slew_us: u64, adjust: TickAdjust) -> (r: u64)
    requires
        slew_us <= nominal_us,
        nominal_us + slew_us <= u64::MAX,
    ensures
        adjust is SlowDown ==> r == nominal_us + slew_us,
        adjust is Keep ==> r == nominal_us,
        adjust is SpeedUp ==> r == nominal_us - slew_us,
{
    match adjust {
        TickAdjust::SlowDown => nominal_us + slew_us,
        TickAdjust::Keep => nominal_us,
        TickAdjust::SpeedUp => nominal_us - slew_us,
    }
}

} // verus!
