use vstd::prelude::*;

use crate::fixed::{absi, clamp, isqrt, isqrt_spec, lemma_abs_mul, lemma_sq_nonneg,
    lemma_tdiv_bounds, tdiv, UNIT};
use crate::player::{DT_LIMIT, FULL_TURN, MAX_SPIN, MAX_VELOCITY, Player, POS_LIMIT, SCALE_MAX,
    SCALE_MIN, SPIN_DECAY, SPIN_LIMIT, VEL_LIMIT, VELOCITY_DECAY};
use crate::vec2::{in_box, len_sq, Vec2, Vec2Model};

verus! {

/// Integer square root rounded up: the smallest integer whose square is at
/// least `n`.
pub open spec fn isqrt_up_spec(n: nat) -> int {
    let r = isqrt_spec(n);
    if r * r < n {
        r + 1int
    } else {
        r as int
    }
}

/// The position advanced by the velocity over `dt`, slowed by the scale.
pub open spec fn displaced_position(pos: Vec2Model, v: Vec2Model, dt: int, scale: int)
    -> Vec2Model {
    Vec2Model { x: pos.x + tdiv(v.x * dt, scale), y: pos.y + tdiv(v.y * dt, scale) }
}

/// The velocity rescaled onto the cap when its magnitude exceeds `MAX_VELOCITY`,
/// unchanged otherwise.
pub open spec fn capped_velocity(v: Vec2Model) -> Vec2Model {
    if len_sq(v) > MAX_VELOCITY * MAX_VELOCITY {
        let l = isqrt_up_spec(len_sq(v) as nat);
        Vec2Model { x: tdiv(v.x * MAX_VELOCITY, l), y: tdiv(v.y * MAX_VELOCITY, l) }
    } else {
        v
    }
}

/// The velocity after one tick of multiplicative damping.
pub open spec fn decayed_velocity(v: Vec2Model) -> Vec2Model {
    Vec2Model {
        x: tdiv(v.x * VELOCITY_DECAY, UNIT as int),
        y: tdiv(v.y * VELOCITY_DECAY, UNIT as int),
    }
}

/// An angle reduced into `[0, FULL_TURN)`.
pub open spec fn wrap_angle(a: int) -> int {
    let r = a - tdiv(a, FULL_TURN as int) * FULL_TURN;
    if r < 0 {
        r + FULL_TURN
    } else {
        r
    }
}

/// The largest spin magnitude the integrator leaves in place: `MAX_SPIN`
/// divided by the scale.
pub open spec fn spin_cap(scale: int) -> int {
    tdiv(MAX_SPIN * UNIT, scale)
}

/// The spin clamped to the scale-dependent cap.
pub open spec fn capped_spin(s: int, scale: int) -> int {
    clamp(s, -spin_cap(scale), spin_cap(scale))
}

/// The spin after one tick of multiplicative damping.
pub open spec fn decayed_spin(s: int) -> int {
    tdiv(s * SPIN_DECAY, UNIT as int)
}

/// The whole motion stage as one function on the body model.
pub open spec fn integrated(m: crate::player::PlayerModel, dt: int) -> crate::player::PlayerModel {
    crate::player::PlayerModel {
        position: displaced_position(m.position, m.velocity, dt, m.scale),
        velocity: decayed_velocity(capped_velocity(m.velocity)),
        rotation: wrap_angle(m.rotation + tdiv(m.spin * dt, m.scale)),
        spin: decayed_spin(capped_spin(m.spin, m.scale)),
        ..m
    }
}

/// If each rescaled component, multiplied by `l`, stays under the matching
/// original component times `m`, and `l` dominates the original magnitude,
/// then the rescaled vector's squared length stays under `m` squared.
proof fn lemma_rescale_cap(ax: int, ay: int, cx: int, cy: int, l: int, m: int)
    requires
        l >= 1,
        m >= 0,
        ax >= 0,
        ay >= 0,
        cx >= 0,
        cy >= 0,
        ax * ax + ay * ay <= l * l,
        cx * l <= ax * m,
        cy * l <= ay * m,
    ensures
        cx * cx + cy * cy <= m * m,
{
    assert((cx * cx) * (l * l) <= (ax * ax) * (m * m)) by (nonlinear_arith)
        requires
            0 <= cx * l <= ax * m,
    {
    }
    assert((cy * cy) * (l * l) <= (ay * ay) * (m * m)) by (nonlinear_arith)
        requires
            0 <= cy * l <= ay * m,
    {
    }
    assert((cx * cx + cy * cy) * (l * l) <= (l * l) * (m * m)) by (nonlinear_arith)
        requires
            (cx * cx) * (l * l) <= (ax * ax) * (m * m),
            (cy * cy) * (l * l) <= (ay * ay) * (m * m),
            ax * ax + ay * ay <= l * l,
            m * m >= 0,
    {
    }
    assert(cx * cx + cy * cy <= m * m) by (nonlinear_arith)
        requires
            l >= 1,
            (cx * cx + cy * cy) * (l * l) <= (l * l) * (m * m),
    {
    }
}

/// Shrinking both components of a vector cannot grow its squared length.
proof fn lemma_shrink_sq(ax: int, ay: int, cx: int, cy: int)
    requires
        0 <= cx <= ax,
        0 <= cy <= ay,
    ensures
        cx * cx + cy * cy <= ax * ax + ay * ay,
{
    assert(cx * cx <= ax * ax && cy * cy <= ay * ay) by (nonlinear_arith)
        requires
            0 <= cx <= ax,
            0 <= cy <= ay,
    {
    }
}

/// A component of a vector is bounded by the vector's length.
proof fn lemma_component_le(ax: int, m: int)
    requires
        ax >= 0,
        m >= 0,
        ax * ax <= m * m,
    ensures
        ax <= m,
{
    assert(ax <= m) by (nonlinear_arith)
        requires
            ax >= 0,
            m >= 0,
            ax * ax <= m * m,
    {
    }
}

/// Damping by `VELOCITY_DECAY` or `SPIN_DECAY` over `UNIT` cannot grow a
/// magnitude.
proof fn lemma_decay_le(a: int, c: int)
    requires
        0 <= c <= UNIT,
    ensures
        absi(tdiv(a * c, UNIT as int)) <= absi(a),
        a >= 0 ==> tdiv(a * c, UNIT as int) >= 0,
        a <= 0 ==> tdiv(a * c, UNIT as int) <= 0,
{
    lemma_tdiv_bounds(a * c, UNIT as int);
    lemma_abs_mul(a, c);
    assert(absi(tdiv(a * c, UNIT as int)) * UNIT <= absi(a) * UNIT) by (nonlinear_arith)
        requires
            absi(tdiv(a * c, UNIT as int)) * UNIT <= absi(a) * c,
            absi(a) >= 0,
            0 <= c <= UNIT,
            UNIT == 1_000_000,
    {
    }
    if a >= 0 {
        assert(a * c >= 0) by (nonlinear_arith)
            requires
                a >= 0,
                c >= 0,
        {
        }
    } else {
        assert(a * c <= 0) by (nonlinear_arith)
            requires
                a <= 0,
                c >= 0,
        {
        }
    }
}

/// Advance position and rotation from the velocity and spin, then clamp both
/// rates to their caps and damp them. Displacement and rotation use the
/// pre-clamp, pre-decay rates; the clamps run after integration, the damping
/// last.
pub fn player_movement(p: &mut Player, dt: i128)
    requires
        0 <= dt <= DT_LIMIT,
        SCALE_MIN <= old(p)@.scale <= SCALE_MAX,
        in_box(old(p)@.velocity, VEL_LIMIT as int),
        absi(old(p)@.spin) <= SPIN_LIMIT,
        in_box(old(p)@.position, POS_LIMIT as int),
        0 <= old(p)@.rotation < FULL_TURN,
    ensures
        final(p)@.position == displaced_position(old(p)@.position, old(p)@.velocity, dt as int,
            old(p)@.scale),
        final(p)@.velocity == decayed_velocity(capped_velocity(old(p)@.velocity)),
        final(p)@.rotation == wrap_angle(old(p)@.rotation + tdiv(old(p)@.spin * dt, old(p)@.scale)),
        0 <= final(p)@.rotation < FULL_TURN,
        final(p)@.spin == decayed_spin(capped_spin(old(p)@.spin, old(p)@.scale)),
        final(p)@ == integrated(old(p)@, dt as int),
        len_sq(final(p)@.velocity) <= MAX_VELOCITY * MAX_VELOCITY,
        in_box(final(p)@.velocity, MAX_VELOCITY as int),
        absi(final(p)@.spin) <= spin_cap(old(p)@.scale),
        spin_cap(old(p)@.scale) <= 2 * MAX_SPIN,
        final(p)@.scale == old(p)@.scale,
        final(p)@.radius == old(p)@.radius,
{
    let scale: i128 = p.scale;
    // Position: displacement divides by the scale, using the incoming velocity.
    proof {
        lemma_abs_mul(p@.velocity.x as int, dt as int);
        lemma_abs_mul(p@.velocity.y as int, dt as int);
        assert(absi(p@.velocity.x) * absi(dt as int) <= VEL_LIMIT * DT_LIMIT
            && absi(p@.velocity.y) * absi(dt as int) <= VEL_LIMIT * DT_LIMIT)
            by (nonlinear_arith)
            requires
                0 <= absi(p@.velocity.x) <= VEL_LIMIT,
                0 <= absi(p@.velocity.y) <= VEL_LIMIT,
                0 <= absi(dt as int) <= DT_LIMIT,
        {
        }
        lemma_tdiv_bounds(p@.velocity.x * dt, scale as int);
        lemma_tdiv_bounds(p@.velocity.y * dt, scale as int);
    }
    let dx: i128 = crate::fixed::div_trunc(p.velocity.x * dt, scale);
    let dy: i128 = crate::fixed::div_trunc(p.velocity.y * dt, scale);
    p.position = Vec2 { x: p.position.x + dx, y: p.position.y + dy };

    // Rotation: the spin is still the incoming spin here.
    proof {
        lemma_abs_mul(p@.spin as int, dt as int);
        assert(absi(p@.spin) * absi(dt as int) <= SPIN_LIMIT * DT_LIMIT) by (nonlinear_arith)
            requires
                0 <= absi(p@.spin) <= SPIN_LIMIT,
                0 <= absi(dt as int) <= DT_LIMIT,
        {
        }
        lemma_tdiv_bounds(p@.spin * dt, scale as int);
    }
    let dr: i128 = crate::fixed::div_trunc(p.spin * dt, scale);
    let unwrapped: i128 = p.rotation + dr;
    proof {
        lemma_tdiv_bounds(unwrapped as int, FULL_TURN as int);
    }
    let q: i128 = crate::fixed::div_trunc(unwrapped, FULL_TURN);
    proof {
        lemma_abs_mul(q as int, FULL_TURN as int);
    }
    let rem: i128 = unwrapped - q * FULL_TURN;
    let wrapped: i128 = if rem < 0 {
        rem + FULL_TURN
    } else {
        rem
    };
    proof {
        lemma_wrap_in_range(unwrapped as int);
        assert(wrapped as int == wrap_angle(unwrapped as int));
    }
    p.rotation = wrapped;

    // Velocity: clamp the magnitude onto the cap, then damp.
    proof {
        assert(p@.velocity.x * p@.velocity.x + p@.velocity.y * p@.velocity.y
            <= 2_000_000_000_000_000_000_000_000_000_000_000_000int
            && p@.velocity.x * p@.velocity.x >= 0 && p@.velocity.y * p@.velocity.y >= 0)
            by (nonlinear_arith)
            requires
                absi(p@.velocity.x) <= VEL_LIMIT,
                absi(p@.velocity.y) <= VEL_LIMIT,
                VEL_LIMIT == 1_000_000_000_000_000_000,
        {
        }
    }
    let vsq: i128 = p.velocity.x * p.velocity.x + p.velocity.y * p.velocity.y;
    let vmid: Vec2 = if vsq > MAX_VELOCITY * MAX_VELOCITY {
        let lf: i128 = isqrt(vsq as u128) as i128;
        proof {
            assert(lf * lf <= vsq as int);
            assert(lf <= 2_000_000_000_000_000_000int) by (nonlinear_arith)
                requires
                    lf >= 0,
                    lf * lf <= 2_000_000_000_000_000_000_000_000_000_000_000_000int,
            {
            }
        }
        let l: i128 = if lf * lf < vsq {
            lf + 1
        } else {
            lf
        };
        proof {
            assert(l as int == isqrt_up_spec(vsq as nat));
            assert(l >= 1) by (nonlinear_arith)
                requires
                    (lf + 1) * (lf + 1) > vsq as int,
                    vsq as int > MAX_VELOCITY * MAX_VELOCITY,
                    MAX_VELOCITY == 2_000_000_000,
                    lf >= 0,
                    l >= lf,
                    l * l >= vsq as int,
            {
            }
            lemma_tdiv_bounds(p@.velocity.x * MAX_VELOCITY, l as int);
            lemma_tdiv_bounds(p@.velocity.y * MAX_VELOCITY, l as int);
            lemma_abs_mul(p@.velocity.x, MAX_VELOCITY as int);
            lemma_abs_mul(p@.velocity.y, MAX_VELOCITY as int);
            lemma_abs_mul(p@.velocity.x, p@.velocity.x);
            lemma_abs_mul(p@.velocity.y, p@.velocity.y);
            lemma_sq_nonneg(p@.velocity.x);
            lemma_sq_nonneg(p@.velocity.y);
        }
        let cvx: i128 = crate::fixed::div_trunc(p.velocity.x * MAX_VELOCITY, l);
        let cvy: i128 = crate::fixed::div_trunc(p.velocity.y * MAX_VELOCITY, l);
        proof {
            lemma_rescale_cap(absi(p@.velocity.x), absi(p@.velocity.y), absi(cvx as int),
                absi(cvy as int), l as int, MAX_VELOCITY as int);
            lemma_abs_mul(cvx as int, cvx as int);
            lemma_abs_mul(cvy as int, cvy as int);
            lemma_sq_nonneg(cvx as int);
            lemma_sq_nonneg(cvy as int);
            assert(len_sq(Vec2 { x: cvx, y: cvy }@) <= MAX_VELOCITY * MAX_VELOCITY);
        }
        Vec2 { x: cvx, y: cvy }
    } else {
        p.velocity
    };
    proof {
        assert(vmid@ == capped_velocity(old(p)@.velocity));
        assert(len_sq(vmid@) <= MAX_VELOCITY * MAX_VELOCITY);
        lemma_decay_le(vmid@.x, VELOCITY_DECAY as int);
        lemma_decay_le(vmid@.y, VELOCITY_DECAY as int);
        lemma_shrink_sq(absi(vmid@.x), absi(vmid@.y),
            absi(tdiv(vmid@.x * VELOCITY_DECAY, UNIT as int)),
            absi(tdiv(vmid@.y * VELOCITY_DECAY, UNIT as int)));
        lemma_abs_mul(vmid@.x, vmid@.x);
        lemma_abs_mul(vmid@.y, vmid@.y);
        lemma_sq_nonneg(vmid@.x);
        lemma_sq_nonneg(vmid@.y);
        lemma_abs_mul(tdiv(vmid@.x * VELOCITY_DECAY, UNIT as int),
            tdiv(vmid@.x * VELOCITY_DECAY, UNIT as int));
        lemma_abs_mul(tdiv(vmid@.y * VELOCITY_DECAY, UNIT as int),
            tdiv(vmid@.y * VELOCITY_DECAY, UNIT as int));
        lemma_sq_nonneg(tdiv(vmid@.x * VELOCITY_DECAY, UNIT as int));
        lemma_sq_nonneg(tdiv(vmid@.y * VELOCITY_DECAY, UNIT as int));
    }
    let dvx: i128 = crate::fixed::div_trunc(vmid.x * VELOCITY_DECAY, UNIT);
    let dvy: i128 = crate::fixed::div_trunc(vmid.y * VELOCITY_DECAY, UNIT);
    p.velocity = Vec2 { x: dvx, y: dvy };
    proof {
        lemma_component_le(absi(dvx as int), MAX_VELOCITY as int);
        lemma_component_le(absi(dvy as int), MAX_VELOCITY as int);
    }

    // Spin: clamp to the scale-dependent cap, then damp.
    proof {
        lemma_tdiv_bounds(MAX_SPIN * UNIT, scale as int);
        assert(spin_cap(scale as int) >= 1 && spin_cap(scale as int) <= 2 * MAX_SPIN)
            by (nonlinear_arith)
            requires
                spin_cap(scale as int) * scale <= MAX_SPIN * UNIT,
                (spin_cap(scale as int) + 1) * scale > MAX_SPIN * UNIT,
                spin_cap(scale as int) >= 0,
                SCALE_MIN <= scale <= SCALE_MAX,
                MAX_SPIN == 60_000_000,
                UNIT == 1_000_000,
                SCALE_MIN == 500_000,
                SCALE_MAX == 2_000_000,
        {
        }
    }
    let cap: i128 = crate::fixed::div_trunc(MAX_SPIN * UNIT, scale);
    let smid: i128 = if p.spin > cap {
        cap
    } else if p.spin < -cap {
        -cap
    } else {
        p.spin
    };
    proof {
        assert(smid as int == capped_spin(old(p)@.spin, scale as int));
        lemma_decay_le(smid as int, SPIN_DECAY as int);
    }
    let dspin: i128 = crate::fixed::div_trunc(smid * SPIN_DECAY, UNIT);
    p.spin = dspin;
}

/// `wrap_angle` really lands in `[0, FULL_TURN)`.
pub proof fn lemma_wrap_in_range(a: int)
    ensures
        0 <= wrap_angle(a) < FULL_TURN,
{
    let q = tdiv(a, FULL_TURN as int);
    lemma_tdiv_bounds(a, FULL_TURN as int);
    lemma_abs_mul(q, FULL_TURN as int);
    if a >= 0 {
        assert(q * FULL_TURN <= a < (q + 1) * FULL_TURN) by (nonlinear_arith)
            requires
                q >= 0,
                absi(q) * FULL_TURN <= absi(a),
                (absi(q) + 1) * FULL_TURN > absi(a),
                a >= 0,
                absi(a) == a,
                absi(q) == q,
                FULL_TURN == 6_283_185,
        {
        }
    } else {
        assert(-FULL_TURN < a - q * FULL_TURN <= 0) by (nonlinear_arith)
            requires
                q <= 0,
                (-q) * FULL_TURN <= -a,
                ((-q) + 1) * FULL_TURN > -a,
                FULL_TURN == 6_283_185,
        {
        }
    }
}

} // verus!
