//! Interpolation of non-predicted remote objects between the two most
//! recent confirmed snapshots.
//!
//! The buffer retains exactly two tick-stamped position snapshots.  A
//! render-time query returns the field-wise linear interpolation between
//! them at the queried tick, clamped to the snapshot interval; with a
//! single snapshot the value is returned unmodified (no extrapolation).

use vstd::prelude::*;
use crate::tick::Tick;

verus! {

/// An immutable tick-stamped position of one object, as last received from
/// its authority.
#[derive(Clone, Copy, Debug, PartialEq, Eq, Structural)]
pub struct PositionSnapshot {
    /// The tick the authority computed this position at.
    pub tick: Tick,
    /// Position on the first axis.
    pub x: i64,
    /// Position on the second axis.
    pub y: i64,
}

/// `from + (to - from) * num / den`, the linear interpolation of one field
/// at fraction `num / den`, rounded towards `from`.
pub open spec fn spec_lerp(from: i64, to: i64, num: u64, den: u64) -> int
    recommends
        den > 0,
        num <= den,
{
    if to >= from {
        from + ((to - from) * num) / (den as int)
    } else {
        from - ((from - to) * num) / (den as int)
    }
}

/// The interpolation fraction for `render_tick` between `t_prev` and
/// `t_curr`, clamped to the interval.
pub open spec fn spec_clamped_elapsed(render_tick: u64, t_prev: u64, t_curr: u64) -> u64 {
    if render_tick <= t_prev {
        0
    } else if render_tick >= t_curr {
        (t_curr - t_prev) as u64
    } else {
        (render_tick - t_prev) as u64
    }
}

/// Interpolate one field at fraction `num / den`.
fn lerp_i64(from: i64, to: i64, num: u64, den: u64) -> (r: i64)
    requires
        0 < den <= u32::MAX,
        num <= den,
    ensures
        r == spec_lerp(from, to, num, den),
{
    if to >= from {
        let diff: u128 = (to as i128 - from as i128) as u128;
        proof {
            assert(diff == to - from);
            lemma_fraction_bounds(diff as int, num as int, den as int);
        }
        let prod: u128 = diff * (num as u128);
        let scaled: u128 = prod / (den as u128);
        let r: i128 = from as i128 + scaled as i128;
        r as i64
    } else {
        let diff: u128 = (from as i128 - to as i128) as u128;
        proof {
            assert(diff == from - to);
            lemma_fraction_bounds(diff as int, num as int, den as int);
        }
        let prod: u128 = diff * (num as u128);
        let scaled: u128 = prod / (den as u128);
        let r: i128 = from as i128 - scaled as i128;
        r as i64
    }
}

/// A fraction of `diff` stays within `[0, diff]`, and the product that
/// computes it fits a u128.
proof fn lemma_fraction_bounds(diff: int, num: int, den: int)
    requires
        0 < den,
        0 <= num <= den,
        0 <= diff <= u64::MAX,
        den <= u64::MAX,
    ensures
        0 <= diff * num <= u128::MAX,
        0 <= (diff * num) / den <= diff,
{
    assert(diff * num <= diff * den) by (nonlinear_arith)
        requires
            0 <= diff,
            num <= den,
    ;
    assert(diff * den <= u64::MAX * u64::MAX) by (nonlinear_arith)
        requires
            0 <= diff <= u64::MAX,
            0 <= den <= u64::MAX,
    ;
    assert(0 <= diff * num) by (nonlinear_arith)
        requires
            0 <= diff,
            0 <= num,
    ;
    assert((diff * den) / den == diff) by (nonlinear_arith)
        requires
            den > 0,
    ;
    assert((diff * num) / den <= (diff * den) / den) by (nonlinear_arith)
        requires
            den > 0,
            diff * num <= diff * den,
    ;
    assert(0 <= (diff * num) / den) by (nonlinear_arith)
        requires
            den > 0,
            0 <= diff * num,
    ;
}

/// The interpolation buffer of one non-predicted object: the two most
/// recent confirmed snapshots.
pub struct InterpolationBuffer {
    prev: Option<PositionSnapshot>,
    curr: Option<PositionSnapshot>,
}

impl InterpolationBuffer {
    /// The older retained snapshot.
    pub closed spec fn spec_prev(&self) -> Option<PositionSnapshot> {
        self.prev
    }

    /// The newer retained snapshot.
    pub closed spec fn spec_curr(&self) -> Option<PositionSnapshot> {
        self.curr
    }

    /// Both slots are filled or neither is; the older snapshot is not
    /// newer than the younger; and the gap between them is small enough to
    /// interpolate across.
    pub open spec fn wf(&self) -> bool {
        &&& self.spec_prev() is Some <==> self.spec_curr() is Some
        &&& self.spec_prev() is Some && self.spec_curr() is Some
            ==> self.spec_prev()->Some_0.tick.0 <= self.spec_curr()->Some_0.tick.0
            && self.spec_curr()->Some_0.tick.0 - self.spec_prev()->Some_0.tick.0 <= u32::MAX
    }

    /// An empty buffer: no snapshot was received yet.
    pub fn new() -> (r: InterpolationBuffer)
        ensures
            r.wf(),
            r.spec_prev() is None,
            r.spec_curr() is None,
    {
        InterpolationBuffer { prev: None, curr: None }
    }

    /// Record a newly confirmed snapshot.
    ///
    /// On spawn (first snapshot) both slots are seeded with it, so the
    /// first queries do not interpolate from an undefined prior state.
    /// Afterwards the previous newest moves to the older slot.  Snapshots
    /// arrive in tick order, at most `u32::MAX` ticks apart.
    pub fn push(&mut self, snapshot: PositionSnapshot)
        requires
            old(self).wf(),
            old(self).spec_curr() matches Some(c) ==> c.tick.0 <= snapshot.tick.0
                && snapshot.tick.0 - c.tick.0 <= u32::MAX,
        ensures
            final(self).wf(),
            final(self).spec_curr() == Some(snapshot),
            final(self).spec_prev() == (if old(self).spec_curr() is Some {
                old(self).spec_curr()
            } else {
                Some(snapshot)
            }),
    {
        match self.curr {
            Some(c) => {
                self.prev = Some(c);
                self.curr = Some(snapshot);
            },
            None => {
                self.prev = Some(snapshot);
                self.curr = Some(snapshot);
            },
        }
    }

    /// The interpolated position at `render_tick`.
    ///
    /// Between the two snapshots the position is the field-wise linear
    /// interpolation at the elapsed fraction of the snapshot interval;
    /// before the older snapshot it is the older position, and past the
    /// newer one it clamps to the newer position (no extrapolation).
    /// With no snapshot yet there is nothing to return.
    pub fn at(&self, render_tick: Tick) -> (r: Option<(i64, i64)>)
        requires
            self.wf(),
        ensures
            match r {
                Some(pos) => {
                    &&& self.spec_prev() matches Some(p)
                    &&& self.spec_curr() matches Some(c)
                    &&& (if p.tick.0 == c.tick.0 {
                        pos == (c.x, c.y)
                    } else {
                        {
                            let den = (c.tick.0 - p.tick.0) as u64;
                            let num = spec_clamped_elapsed(render_tick.0, p.tick.0, c.tick.0);
                            pos.0 == spec_lerp(p.x, c.x, num, den) && pos.1 == spec_lerp(
                                p.y,
                                c.y,
                                num,
                                den,
                            )
                        }
                    })
                },
                None => self.spec_curr() is None,
            },
    {
        match (self.prev, self.curr) {
            (Some(p), Some(c)) => {
                if p.tick.0 == c.tick.0 {
                    Some((c.x, c.y))
                } else {
                    let den = c.tick.0 - p.tick.0;
                    let num = if render_tick.0 <= p.tick.0 {
                        0
                    } else if render_tick.0 >= c.tick.0 {
                        den
                    } else {
                        render_tick.0 - p.tick.0
                    };
                    Some((lerp_i64(p.x, c.x, num, den), lerp_i64(p.y, c.y, num, den)))
                }
            },
            _ => None,
        }
    }
}

} // verus!
