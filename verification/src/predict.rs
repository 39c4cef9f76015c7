//! Client-side prediction of locally controlled objects: input buffering,
//! speculative stepping, and rollback resimulation when a confirmed
//! authoritative state disagrees with what was predicted.

use vstd::prelude::*;
use crate::tick::Tick;

verus! {

/// The input captured for one controlled object on one tick.
#[derive(Clone, Copy, Debug, PartialEq, Eq, Structural)]
pub struct InputAction {
    /// Move up this tick.
    pub up: bool,
    /// Move down this tick.
    pub down: bool,
    /// Move left this tick.
    pub left: bool,
    /// Move right this tick.
    pub right: bool,
}

/// An input together with the tick it applies to.
#[derive(Clone, Copy, Debug, PartialEq, Eq, Structural)]
pub struct InputRecord {
    /// The tick the input is applied at.
    pub tick: Tick,
    /// The captured action.
    pub action: InputAction,
}

/// The locally simulated state of one controlled object.
#[derive(Clone, Copy, Debug, PartialEq, Eq, Structural)]
pub struct PredictedState {
    /// Position on the first axis.
    pub x: i64,
    /// Position on the second axis.
    pub y: i64,
}

/// `x + d` clamped to the i64 range, for `d` in `{-1, 0, 1}`.
pub open spec fn spec_sat_step(x: i64, d: int) -> i64 {
    if x + d > i64::MAX {
        i64::MAX
    } else if x + d < i64::MIN {
        i64::MIN
    } else {
        (x + d) as i64
    }
}

/// The net movement of an action along one axis: positive minus negative.
pub open spec fn spec_axis(pos: bool, neg: bool) -> int {
    (if pos {
        1int
    } else {
        0int
    }) - (if neg {
        1int
    } else {
        0int
    })
}

/// The deterministic step function: one tick of simulation under one
/// input.  Both peers run exactly this function, which is what lets the
/// client predict the server's result.
pub open spec fn spec_step(s: PredictedState, a: InputAction) -> PredictedState {
    PredictedState {
        x: spec_sat_step(s.x, spec_axis(a.right, a.left)),
        y: spec_sat_step(s.y, spec_axis(a.up, a.down)),
    }
}

/// The state reached by applying `actions` to `s` in order.
pub open spec fn spec_replay(s: PredictedState, actions: Seq<InputAction>) -> PredictedState
    decreases actions.len(),
{
    if actions.len() == 0 {
        s
    } else {
        spec_replay(spec_step(s, actions[0]), actions.drop_first())
    }
}

/// Saturating move of one coordinate by one axis step.
fn sat_step(x: i64, pos: bool, neg: bool) -> (r: i64)
    ensures
        r == spec_sat_step(x, spec_axis(pos, neg)),
{
    if pos && !neg {
        if x == i64::MAX {
            i64::MAX
        } else {
            x + 1
        }
    } else if neg && !pos {
        if x == i64::MIN {
            i64::MIN
        } else {
            x - 1
        }
    } else {
        x
    }
}

/// One tick of the deterministic step function.
pub fn step(s: &PredictedState, a: &InputAction) -> (r: PredictedState)
    ensures
        r == spec_step(*s, *a),
{
    PredictedState { x: sat_step(s.x, a.right, a.left), y: sat_step(s.y, a.up, a.down) }
}

/// The prediction engine of one controlled object.
///
/// It holds the newest authoritative state it knows (the base), and one
/// frame per locally simulated tick after it: the input applied and the
/// state it produced.  The frames are the input buffer and the per-tick
/// prediction history in one: frame `k` belongs to tick `base_tick + k + 1`.
pub struct PredictionEngine {
    base_tick: Tick,
    base_state: PredictedState,
    frames: Vec<(InputAction, PredictedState)>,
}

impl PredictionEngine {
    /// The tick of the newest confirmed state.
    pub closed spec fn spec_base_tick(&self) -> Tick {
        self.base_tick
    }

    /// The newest confirmed state.
    pub closed spec fn spec_base_state(&self) -> PredictedState {
        self.base_state
    }

    /// The simulated frames after the base, oldest first.
    pub closed spec fn frames_seq(&self) -> Seq<(InputAction, PredictedState)> {
        self.frames@
    }

    /// The actions of the buffered frames, oldest first.
    pub open spec fn actions_seq(&self) -> Seq<InputAction> {
        self.frames_seq().map_values(|f: (InputAction, PredictedState)| f.0)
    }

    /// The predicted state of the frame before `k`: the base for the first
    /// frame, the previous frame's result after that.
    pub open spec fn state_before(&self, k: int) -> PredictedState {
        if k == 0 {
            self.spec_base_state()
        } else {
            self.frames_seq()[k - 1].1
        }
    }

    /// Every frame's state is the step function applied to the state
    /// before it, and the tick counter does not overflow.
    pub open spec fn wf(&self) -> bool {
        &&& forall|k: int|
            0 <= k < self.frames_seq().len() ==> (#[trigger] self.frames_seq()[k]).1 == spec_step(
                self.state_before(k),
                self.frames_seq()[k].0,
            )
        &&& self.spec_base_tick().0 + self.frames_seq().len() <= u64::MAX
    }

    /// The tick of the newest predicted state.
    pub closed spec fn spec_current_tick(&self) -> int {
        self.base_tick.0 + self.frames@.len()
    }

    /// The newest predicted state.
    pub open spec fn spec_current(&self) -> PredictedState {
        self.state_before(self.frames_seq().len() as int)
    }

    /// An engine seeded with the authoritative state at `tick`.
    pub fn new(tick: Tick, state: PredictedState) -> (r: PredictionEngine)
        ensures
            r.wf(),
            r.spec_base_tick() == tick,
            r.spec_base_state() == state,
            r.frames_seq().len() == 0,
            r.spec_current() == state,
            r.spec_current_tick() == tick.0,
    {
        PredictionEngine { base_tick: tick, base_state: state, frames: Vec::new() }
    }

    /// The newest predicted state.
    pub fn current(&self) -> (r: PredictedState)
        ensures
            r == self.spec_current(),
    {
        if self.frames.len() == 0 {
            self.base_state
        } else {
            self.frames[self.frames.len() - 1].1
        }
    }

    /// The tick the newest predicted state belongs to.
    pub fn current_tick(&self) -> (r: Tick)
        requires
            self.wf(),
        ensures
            r.0 == self.spec_current_tick(),
    {
        Tick(self.base_tick.0 + self.frames.len() as u64)
    }

    /// Advance the prediction one tick: apply `action` to the newest
    /// predicted state and remember the frame.
    pub fn predict(&mut self, action: InputAction)
        requires
            old(self).wf(),
            old(self).spec_current_tick() + 1 <= u64::MAX,
        ensures
            final(self).wf(),
            final(self).spec_base_tick() == old(self).spec_base_tick(),
            final(self).spec_base_state() == old(self).spec_base_state(),
            final(self).frames_seq() =~= old(self).frames_seq().push(
                (action, spec_step(old(self).spec_current(), action)),
            ),
            final(self).spec_current() == spec_step(old(self).spec_current(), action),
            final(self).spec_current_tick() == old(self).spec_current_tick() + 1,
    {
        let next = step(&self.current(), &action);
        self.frames.push((action, next));
    }

    /// Take in the authoritative state for `tick` and reconcile.
    ///
    /// If the state this engine predicted for `tick` equals the confirmed
    /// one, the inputs up to `tick` are simply discarded (confirmed, no
    /// correction needed) and the newest predicted state does not change.
    /// Otherwise the prediction is reset to the confirmed state and every
    /// buffered input newer than `tick` is re-applied in tick order.
    /// Either way, afterwards the newest predicted state equals the result
    /// of applying all inputs after `tick` to the confirmed state directly,
    /// and the engine's base is the confirmed state.
    ///
    /// Returns true if the prediction matched (no visible correction).
    #[verifier::rlimit(60)]
    pub fn confirm(&mut self, tick: Tick, confirmed: PredictedState) -> (matched: bool)
        requires
            old(self).wf(),
            old(self).spec_base_tick().0 <= tick.0,
            tick.0 <= old(self).spec_current_tick(),
        ensures
            final(self).wf(),
            final(self).spec_base_tick() == tick,
            final(self).spec_base_state() == confirmed,
            final(self).actions_seq() =~= old(self).actions_seq().skip(
                tick.0 - old(self).spec_base_tick().0,
            ),
            final(self).spec_current() == spec_replay(
                confirmed,
                old(self).actions_seq().skip(tick.0 - old(self).spec_base_tick().0),
            ),
            matched == (old(self).predicted_at(tick.0 as int) == confirmed),
            matched ==> final(self).spec_current() == old(self).spec_current(),
            final(self).spec_current_tick() == old(self).spec_current_tick(),
    {
        proof {
            assert(tick.0 - self.base_tick.0 <= self.frames@.len());
        }
        let j: usize = (tick.0 - self.base_tick.0) as usize;
        let predicted_then = if j == 0 {
            self.base_state
        } else {
            self.frames[j - 1].1
        };
        let matched = predicted_then == confirmed;
        if matched {
            // The prediction was right: drop the confirmed prefix and
            // rebase on the confirmed state.
            let ghost oldself = *self;
            let mut rest: Vec<(InputAction, PredictedState)> = Vec::new();
            let mut k: usize = j;
            let n = self.frames.len();
            while k < n
                invariant
                    j <= k <= n,
                    n == self.frames@.len(),
                    *self == oldself,
                    rest@ =~= self.frames@.subrange(j as int, k as int),
                decreases n - k,
            {
                rest.push((self.frames[k].0, self.frames[k].1));
                k = k + 1;
            }
            proof {
                assert(rest@ =~= self.frames@.skip(j as int));
            }
            self.base_tick = tick;
            self.base_state = confirmed;
            self.frames = rest;
            proof {
                lemma_suffix_wf(oldself, *self, j as int);
                assert(self.actions_seq() =~= oldself.actions_seq().skip(j as int));
                lemma_replay_of_frames(*self);
            }
            true
        } else {
            // Rollback: rebuild every frame after the confirmed tick from
            // the confirmed state.
            let ghost oldself = *self;
            let mut rest: Vec<(InputAction, PredictedState)> = Vec::new();
            let mut state = confirmed;
            let mut k: usize = j;
            let n = self.frames.len();
            while k < n
                invariant
                    j <= k <= n,
                    n == self.frames@.len(),
                    *self == oldself,
                    rest@.len() == k - j,
                    forall|m: int|
                        0 <= m < rest@.len() ==> (#[trigger] rest@[m]).0 == self.frames@[j + m].0,
                    forall|m: int|
                        0 <= m < rest@.len() ==> (#[trigger] rest@[m]).1 == spec_step(
                            if m == 0 {
                                confirmed
                            } else {
                                rest@[m - 1].1
                            },
                            rest@[m].0,
                        ),
                    state == (if rest@.len() == 0 {
                        confirmed
                    } else {
                        rest@[rest@.len() - 1].1
                    }),
                decreases n - k,
            {
                let action = self.frames[k].0;
                state = step(&state, &action);
                rest.push((action, state));
                k = k + 1;
            }
            self.base_tick = tick;
            self.base_state = confirmed;
            self.frames = rest;
            proof {
                assert(self.actions_seq() =~= oldself.actions_seq().skip(j as int));
                lemma_replay_of_frames(*self);
            }
            false
        }
    }

    /// The state this engine predicted for `t` when it simulated it: the
    /// base state at the base tick, the frame results after it.
    pub open spec fn predicted_at(&self, t: int) -> PredictedState {
        if t <= self.spec_base_tick().0 {
            self.spec_base_state()
        } else {
            self.frames_seq()[t - self.spec_base_tick().0 - 1].1
        }
    }
}

/// Keeping a suffix of well-formed frames, rebased on the state just
/// before the suffix, stays well-formed.
proof fn lemma_suffix_wf(before: PredictionEngine, after: PredictionEngine, j: int)
    requires
        before.wf(),
        0 <= j <= before.frames_seq().len(),
        after.frames_seq() =~= before.frames_seq().skip(j),
        after.spec_base_state() == before.state_before(j),
        after.spec_base_tick().0 + after.frames_seq().len() <= u64::MAX,
    ensures
        after.wf(),
        after.spec_current() == before.spec_current(),
{
    assert forall|k: int| 0 <= k < after.frames_seq().len() implies (
    #[trigger] after.frames_seq()[k]).1 == spec_step(
        after.state_before(k),
        after.frames_seq()[k].0,
    ) by {
        assert(after.frames_seq()[k] == before.frames_seq()[j + k]);
        if k == 0 {
        } else {
            assert(after.frames_seq()[k - 1] == before.frames_seq()[j + k - 1]);
        }
    }
    if after.frames_seq().len() == 0 {
    } else {
        assert(after.frames_seq()[after.frames_seq().len() - 1] == before.frames_seq()[
            before.frames_seq().len() - 1]);
    }
}

/// In a well-formed engine the newest predicted state is exactly the
/// replay of the buffered actions from the base state: prediction is
/// nothing but the deterministic step function folded over the inputs.
pub proof fn lemma_replay_of_frames(e: PredictionEngine)
    requires
        e.wf(),
    ensures
        e.spec_current() == spec_replay(e.spec_base_state(), e.actions_seq()),
{
    assert(e.actions_seq().skip(0) =~= e.actions_seq());
    lemma_replay_skip(e, 0);
}

/// Replaying the actions of a well-formed engine from the state its frame
/// `j - 1` produced reaches the newest predicted state.
proof fn lemma_replay_skip(e: PredictionEngine, j: int)
    requires
        e.wf(),
        0 <= j <= e.frames_seq().len(),
    ensures
        spec_replay(e.state_before(j), e.actions_seq().skip(j)) == e.spec_current(),
    decreases e.frames_seq().len() - j,
{
    if j == e.frames_seq().len() {
        assert(e.actions_seq().skip(j).len() == 0);
    } else {
        let s = e.state_before(j);
        let acts = e.actions_seq().skip(j);
        assert(acts[0] == e.frames_seq()[j].0);
        assert(e.frames_seq()[j].1 == spec_step(s, e.frames_seq()[j].0));
        assert(acts.drop_first() =~= e.actions_seq().skip(j + 1));
        lemma_replay_skip(e, j + 1);
    }
}

} // verus!
