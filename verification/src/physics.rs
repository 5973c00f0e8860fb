//! The per-frame physics of the demo.
//!
//! Each frame the velocity first decays by the factor 9/10, then any held
//! direction key overrides the matching component with the constant speed
//! 1/100 (signed by direction; when opposing keys are both held, right
//! beats left and up beats down, matching the order in which the flags
//! are examined).  The position then advances by the resulting velocity.
//! There is no clamping: the position may drift arbitrarily far.

use crate::frac::{added, coarsened, decayed, frac_wf, spec_added, spec_coarsened, spec_decayed, Frac};
use crate::input::{spec_no_keys, Keys};
use vstd::prelude::*;

verus! {

/// The whole mutable state of the simulation: position, velocity and the
/// currently held keys.
#[derive(Clone, Copy, Debug, PartialEq, Eq, Structural)]
pub struct SimState {
    pub x: Frac,
    pub y: Frac,
    pub x_speed: Frac,
    pub y_speed: Frac,
    pub keys: Keys,
}

/// Well-formedness: every scalar is a well-formed fraction.
pub open spec fn state_wf(s: SimState) -> bool {
    frac_wf(s.x) && frac_wf(s.y) && frac_wf(s.x_speed) && frac_wf(s.y_speed)
}

/// The movement speed a held key imposes: 1/100 of a screen unit per frame.
pub open spec fn spec_speed() -> Frac {
    Frac { num: 1, den: 100 }
}

/// The same speed in the negative direction.
pub open spec fn spec_speed_neg() -> Frac {
    Frac { num: -1i64, den: 100 }
}

/// One axis of the velocity update: a held key in the positive direction
/// wins over one in the negative direction (it is examined last), and
/// with no key held the old component decays by 9/10.
pub open spec fn spec_axis_speed(v: Frac, neg_held: bool, pos_held: bool) -> Option<Frac> {
    if pos_held {
        Some(spec_speed())
    } else if neg_held {
        Some(spec_speed_neg())
    } else {
        spec_decayed(v)
    }
}

/// One whole physics step: both velocity components are updated, then the
/// position advances by exactly the updated velocity.  `None` when a
/// decayed velocity or a summed position is no longer representable.
pub open spec fn spec_step_physics(s: SimState) -> Option<SimState> {
    let vx = spec_axis_speed(s.x_speed, s.keys.left, s.keys.right);
    let vy = spec_axis_speed(s.y_speed, s.keys.down, s.keys.up);
    match (vx, vy) {
        (Some(vx), Some(vy)) => match (spec_added(s.x, vx), spec_added(s.y, vy)) {
            (Some(nx), Some(ny)) => Some(
                SimState { x: nx, y: ny, x_speed: vx, y_speed: vy, keys: s.keys },
            ),
            _ => None,
        },
        _ => None,
    }
}

/// The state the demo starts in: position (-1/2, -1/2), velocity zero,
/// no key held.
pub open spec fn spec_initial_state() -> SimState {
    SimState {
        x: Frac { num: -1i64, den: 2 },
        y: Frac { num: -1i64, den: 2 },
        x_speed: Frac { num: 0, den: 1 },
        y_speed: Frac { num: 0, den: 1 },
        keys: spec_no_keys(),
    }
}

/// Build the starting state.
pub fn initial_state() -> (r: SimState)
    ensures
        r == spec_initial_state(),
        state_wf(r),
{
    SimState {
        x: Frac { num: -1, den: 2 },
        y: Frac { num: -1, den: 2 },
        x_speed: Frac { num: 0, den: 1 },
        y_speed: Frac { num: 0, den: 1 },
        keys: Keys { left: false, right: false, up: false, down: false },
    }
}

/// Update one velocity component from its direction flags.
fn axis_speed(v: Frac, neg_held: bool, pos_held: bool) -> (r: Option<Frac>)
    requires
        frac_wf(v),
    ensures
        r == spec_axis_speed(v, neg_held, pos_held),
        r matches Some(f) ==> frac_wf(f),
{
    if pos_held {
        Some(Frac { num: 1, den: 100 })
    } else if neg_held {
        Some(Frac { num: -1, den: 100 })
    } else {
        decayed(v)
    }
}

/// Run one physics step: decay/override the velocity, then move the
/// position by the new velocity.
pub fn step_physics(s: SimState) -> (r: Option<SimState>)
    requires
        state_wf(s),
    ensures
        r == spec_step_physics(s),
        r matches Some(t) ==> state_wf(t) && t.keys == s.keys,
{
    let vx = match axis_speed(s.x_speed, s.keys.left, s.keys.right) {
        Some(v) => v,
        None => {
            return None;
        },
    };
    let vy = match axis_speed(s.y_speed, s.keys.down, s.keys.up) {
        Some(v) => v,
        None => {
            return None;
        },
    };
    let nx = match added(s.x, vx) {
        Some(p) => p,
        None => {
            return None;
        },
    };
    let ny = match added(s.y, vy) {
        Some(p) => p,
        None => {
            return None;
        },
    };
    Some(SimState { x: nx, y: ny, x_speed: vx, y_speed: vy, keys: s.keys })
}

/// Round every scalar of a state toward zero onto denominators of at
/// most `max_den` (see `frac::coarsened`); the key flags are untouched.
/// A driver that runs for long keeps denominators bounded this way,
/// trading exactness below `1 / max_den` for an indefinite run.
pub fn coarsened_state(s: SimState, max_den: u64) -> (r: SimState)
    requires
        state_wf(s),
        max_den >= 1,
    ensures
        state_wf(r),
        r.x == spec_coarsened(s.x, max_den),
        r.y == spec_coarsened(s.y, max_den),
        r.x_speed == spec_coarsened(s.x_speed, max_den),
        r.y_speed == spec_coarsened(s.y_speed, max_den),
        r.keys == s.keys,
        r.x.den <= max_den && r.y.den <= max_den && r.x_speed.den <= max_den && r.y_speed.den
            <= max_den,
{
    SimState {
        x: coarsened(s.x, max_den),
        y: coarsened(s.y, max_den),
        x_speed: coarsened(s.x_speed, max_den),
        y_speed: coarsened(s.y_speed, max_den),
        keys: s.keys,
    }
}

/// Holding a key pins the matching velocity component to exactly the
/// constant speed, whatever the component held before: with `right` held
/// the new horizontal speed is exactly 1/100 (likewise `up` vertically;
/// `left` and `down` give -1/100 when the opposing key is not held), and
/// with no key held on an axis the component is exactly the old one
/// scaled by 9/10.
pub proof fn lemma_held_key_overrides(s: SimState)
    requires
        state_wf(s),
    ensures
        s.keys.right ==> (spec_step_physics(s) matches Some(t) ==> t.x_speed == spec_speed()),
        s.keys.left && !s.keys.right ==> (spec_step_physics(s) matches Some(t) ==> t.x_speed
            == spec_speed_neg()),
        !s.keys.right && !s.keys.left ==> (spec_step_physics(s) matches Some(t) ==>
            Some(t.x_speed) == spec_decayed(s.x_speed)),
        s.keys.up ==> (spec_step_physics(s) matches Some(t) ==> t.y_speed == spec_speed()),
        s.keys.down && !s.keys.up ==> (spec_step_physics(s) matches Some(t) ==> t.y_speed
            == spec_speed_neg()),
        !s.keys.up && !s.keys.down ==> (spec_step_physics(s) matches Some(t) ==>
            Some(t.y_speed) == spec_decayed(s.y_speed)),
{
}

/// The position update is pure addition: the new position is exactly the
/// old position plus the updated velocity of the same step, on both axes.
pub proof fn lemma_position_is_sum(s: SimState)
    requires
        state_wf(s),
    ensures
        spec_step_physics(s) matches Some(t) ==> Some(t.x) == spec_added(s.x, t.x_speed)
            && Some(t.y) == spec_added(s.y, t.y_speed),
{
}

} // verus!
