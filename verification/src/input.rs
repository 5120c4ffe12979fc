use vstd::prelude::*;

use crate::fixed::{clamp, tdiv, UNIT};
use crate::player::{ACCELERATION, Player, SCALE_FACTOR, SCALE_MAX, SCALE_MIN,
    SPIN_ACCELERATION, SPIN_WF_LIMIT, VEL_WF_LIMIT};
use crate::vec2::{in_box, Vec2, Vec2Model};

verus! {

/// Bound on the scale accepted by the per-tick scale input.
pub const SCALE_INPUT_LIMIT: i128 = 1_000_000_000_000;

/// The actions held during one tick, as sampled by the input collaborator.
#[derive(Clone, Copy, PartialEq, Eq, Structural, Debug)]
pub struct InputSnapshot {
    pub move_left: bool,
    pub move_right: bool,
    pub move_up: bool,
    pub move_down: bool,
    pub spin_left: bool,
    pub spin_right: bool,
    pub grow_scale: bool,
    pub shrink_scale: bool,
}

/// A snapshot with nothing held.
pub fn idle_input() -> (inp: InputSnapshot)
    ensures
        !inp.move_left && !inp.move_right && !inp.move_up && !inp.move_down,
        !inp.spin_left && !inp.spin_right && !inp.grow_scale && !inp.shrink_scale,
{
    InputSnapshot {
        move_left: false,
        move_right: false,
        move_up: false,
        move_down: false,
        spin_left: false,
        spin_right: false,
        grow_scale: false,
        shrink_scale: false,
    }
}

/// The velocity after one tick of held movement actions: a fixed increment per
/// held action on the matching axis.
pub open spec fn accelerated_velocity(v: Vec2Model, inp: InputSnapshot) -> Vec2Model {
    Vec2Model {
        x: v.x - (if inp.move_left {
            ACCELERATION as int
        } else {
            0
        }) + (if inp.move_right {
            ACCELERATION as int
        } else {
            0
        }),
        y: v.y + (if inp.move_up {
            ACCELERATION as int
        } else {
            0
        }) - (if inp.move_down {
            ACCELERATION as int
        } else {
            0
        }),
    }
}

/// The spin after one tick of held spin actions.
pub open spec fn accelerated_spin(s: int, inp: InputSnapshot) -> int {
    s + (if inp.spin_left {
        SPIN_ACCELERATION as int
    } else {
        0
    }) - (if inp.spin_right {
        SPIN_ACCELERATION as int
    } else {
        0
    })
}

/// The scale after one tick of held grow and shrink actions: multiplied, then
/// divided, by the per-tick factor, truncating.
pub open spec fn scaled_scale(s: int, inp: InputSnapshot) -> int {
    let grown = if inp.grow_scale {
        tdiv(s * SCALE_FACTOR, UNIT as int)
    } else {
        s
    };
    if inp.shrink_scale {
        tdiv(grown * UNIT, SCALE_FACTOR as int)
    } else {
        grown
    }
}

/// The scale confined to its documented range.
pub open spec fn confined_scale(s: int) -> int {
    clamp(s, SCALE_MIN as int, SCALE_MAX as int)
}

/// Add the fixed acceleration to the velocity for each held movement action.
pub fn player_acceleration(p: &mut Player, input: &InputSnapshot)
    requires
        in_box(old(p)@.velocity, VEL_WF_LIMIT as int),
    ensures
        final(p)@.velocity == accelerated_velocity(old(p)@.velocity, *input),
        final(p)@.position == old(p)@.position,
        final(p)@.rotation == old(p)@.rotation,
        final(p)@.scale == old(p)@.scale,
        final(p)@.spin == old(p)@.spin,
        final(p)@.radius == old(p)@.radius,
{
    let mut vx: i128 = p.velocity.x;
    let mut vy: i128 = p.velocity.y;
    if input.move_left {
        vx = vx - ACCELERATION;
    }
    if input.move_right {
        vx = vx + ACCELERATION;
    }
    if input.move_up {
        vy = vy + ACCELERATION;
    }
    if input.move_down {
        vy = vy - ACCELERATION;
    }
    p.velocity = Vec2 { x: vx, y: vy };
}

/// Add the fixed spin increment for each held spin action.
pub fn player_rotation(p: &mut Player, input: &InputSnapshot)
    requires
        crate::fixed::absi(old(p)@.spin) <= SPIN_WF_LIMIT,
    ensures
        final(p)@.spin == accelerated_spin(old(p)@.spin, *input),
        final(p)@.position == old(p)@.position,
        final(p)@.rotation == old(p)@.rotation,
        final(p)@.scale == old(p)@.scale,
        final(p)@.velocity == old(p)@.velocity,
        final(p)@.radius == old(p)@.radius,
{
    let mut s: i128 = p.spin;
    if input.spin_left {
        s = s + SPIN_ACCELERATION;
    }
    if input.spin_right {
        s = s - SPIN_ACCELERATION;
    }
    p.spin = s;
}

/// Multiply or divide the scale by the per-tick factor for each held scale
/// action.
pub fn player_size(p: &mut Player, input: &InputSnapshot)
    requires
        0 <= old(p)@.scale <= SCALE_INPUT_LIMIT,
    ensures
        final(p)@.scale == scaled_scale(old(p)@.scale, *input),
        final(p)@.position == old(p)@.position,
        final(p)@.rotation == old(p)@.rotation,
        final(p)@.velocity == old(p)@.velocity,
        final(p)@.spin == old(p)@.spin,
        final(p)@.radius == old(p)@.radius,
        0 <= final(p)@.scale <= 2 * SCALE_INPUT_LIMIT,
{
    let s0: i128 = p.scale;
    let s1: i128 = if input.grow_scale {
        let g: i128 = crate::fixed::div_trunc(s0 * SCALE_FACTOR, UNIT);
        proof {
            crate::fixed::lemma_tdiv_bounds(s0 as int * SCALE_FACTOR, UNIT as int);
            assert(g <= 2 * SCALE_INPUT_LIMIT) by (nonlinear_arith)
                requires
                    g * UNIT <= s0 * SCALE_FACTOR,
                    g >= 0,
                    0 <= s0 <= SCALE_INPUT_LIMIT,
                    SCALE_FACTOR == 1_100_000,
                    UNIT == 1_000_000,
                    SCALE_INPUT_LIMIT == 1_000_000_000_000,
            {
            }
        }
        g
    } else {
        s0
    };
    let s2: i128 = if input.shrink_scale {
        let h: i128 = crate::fixed::div_trunc(s1 * UNIT, SCALE_FACTOR);
        proof {
            crate::fixed::lemma_tdiv_bounds(s1 as int * UNIT, SCALE_FACTOR as int);
            assert(h <= s1) by (nonlinear_arith)
                requires
                    h * SCALE_FACTOR <= s1 * UNIT,
                    h >= 0,
                    s1 >= 0,
                    SCALE_FACTOR == 1_100_000,
                    UNIT == 1_000_000,
            {
            }
        }
        h
    } else {
        s1
    };
    p.scale = s2;
}

/// Clamp the scale into its documented range; a pure, idempotent confinement.
pub fn confine_player_size(p: &mut Player)
    ensures
        final(p)@.scale == confined_scale(old(p)@.scale),
        SCALE_MIN <= final(p)@.scale <= SCALE_MAX,
        old(p)@.scale == confined_scale(old(p)@.scale) ==> final(p)@.scale == old(p)@.scale,
        final(p)@.position == old(p)@.position,
        final(p)@.rotation == old(p)@.rotation,
        final(p)@.velocity == old(p)@.velocity,
        final(p)@.spin == old(p)@.spin,
        final(p)@.radius == old(p)@.radius,
{
    if p.scale > SCALE_MAX {
        p.scale = SCALE_MAX;
    }
    if p.scale < SCALE_MIN {
        p.scale = SCALE_MIN;
    }
}

} // verus!
