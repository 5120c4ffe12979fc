use vstd::prelude::*;

use crate::fixed::{absi, lemma_abs_mul, lemma_tdiv_bounds, tdiv, UNIT};
use crate::player::{BOUNCE_SPIN_TO_DIRECTION, BOUNCE_VELOCITY_DAMPING, BOUNCE_VELOCITY_TO_SPIN,
    Collision, collision_wf, CollisionModel, Player, PlayerModel, SCALE_MAX, SCALE_MIN, views};
use crate::vec2::{in_box, Vec2, Vec2Model};

verus! {

/// Bound on the velocity snapshot accepted by the responder.
pub const RESPOND_VEL_SNAP_LIMIT: i128 = 1_000_000_000_000;

/// Bound on the spin snapshot accepted by the responder.
pub const RESPOND_SPIN_SNAP_LIMIT: i128 = 1_000_000_000_000;

/// Bound on the position accepted by the responder.
pub const RESPOND_POS_LIMIT: i128 = 10_000_000_000_000;

/// Bound on the number of collisions resolved in one tick.
pub const MAX_COLLISIONS: usize = 4096;

/// Bound on how far one collision can move the position.
pub const RESPOND_POS_DELTA: i128 = 20_000_000_000;

/// Bound on how much one collision can change each velocity component.
pub const RESPOND_VEL_DELTA: i128 = 100_000_000_000_000;

/// Bound on how much one collision can change the spin.
pub const RESPOND_SPIN_DELTA: i128 = 100_000_000_000;

/// The impact speed along the normal, from the pre-collision snapshot.
pub open spec fn bounce_dot(v0: Vec2Model, n: Vec2Model) -> int {
    tdiv(v0.x * n.x + v0.y * n.y, UNIT as int)
}

/// The reflected-speed coefficient: twice the impact speed, damped.
pub open spec fn bounce_coef(v0: Vec2Model, n: Vec2Model) -> int {
    tdiv(2 * bounce_dot(v0, n) * BOUNCE_VELOCITY_DAMPING, UNIT as int)
}

/// The sideways push that the spin snapshot contributes.
pub open spec fn spin_push(s0: int) -> int {
    tdiv(BOUNCE_SPIN_TO_DIRECTION * s0, UNIT as int)
}

/// How much one collision subtracts from the velocity: the damped reflection
/// along the normal plus the spin-driven deflection along its tangent.
pub open spec fn vel_delta(v0: Vec2Model, s0: int, n: Vec2Model) -> Vec2Model {
    Vec2Model {
        x: tdiv(bounce_coef(v0, n) * n.x, UNIT as int) + tdiv(spin_push(s0) * n.y, UNIT as int),
        y: tdiv(bounce_coef(v0, n) * n.y, UNIT as int) + tdiv(spin_push(s0) * (-n.x),
            UNIT as int),
    }
}

/// How much one collision subtracts from the spin: the tangential impact
/// speed, scaled into spin and divided by the body scale.
pub open spec fn spin_delta(v0: Vec2Model, scale: int, n: Vec2Model) -> int {
    tdiv(tdiv(tdiv(v0.x * n.y - v0.y * n.x, UNIT as int) * BOUNCE_VELOCITY_TO_SPIN, UNIT as int)
        * UNIT, scale)
}

/// How much one collision pushes the position out of the obstruction.
pub open spec fn pos_delta(c: CollisionModel) -> Vec2Model {
    Vec2Model {
        x: tdiv(c.overlap * c.surface_normal.x, UNIT as int),
        y: tdiv(c.overlap * c.surface_normal.y, UNIT as int),
    }
}

/// One collision applied to the body state, reading only the pre-collision
/// snapshot `v0`, `s0`.
pub open spec fn apply_collision(m: PlayerModel, v0: Vec2Model, s0: int, c: CollisionModel)
    -> PlayerModel {
    let n = c.surface_normal;
    PlayerModel {
        position: Vec2Model {
            x: m.position.x + pos_delta(c).x,
            y: m.position.y + pos_delta(c).y,
        },
        velocity: Vec2Model {
            x: m.velocity.x - vel_delta(v0, s0, n).x,
            y: m.velocity.y - vel_delta(v0, s0, n).y,
        },
        spin: m.spin - spin_delta(v0, m.scale, n),
        ..m
    }
}

/// The whole collision list applied in order, every impulse reading the same
/// snapshot.
pub open spec fn respond_model(m: PlayerModel, v0: Vec2Model, s0: int, cols: Seq<CollisionModel>)
    -> PlayerModel
    decreases cols.len(),
{
    if cols.len() == 0 {
        m
    } else {
        apply_collision(respond_model(m, v0, s0, cols.drop_last()), v0, s0, cols.last())
    }
}

/// The body after responding to the tick's collisions: the snapshot is the
/// body's own velocity and spin at entry.
pub open spec fn responded(m: PlayerModel, cols: Seq<CollisionModel>) -> PlayerModel {
    respond_model(m, m.velocity, m.spin, cols)
}

/// The per-collision deltas stay within their documented bounds.
proof fn lemma_delta_bounds(v0: Vec2Model, s0: int, scale: int, c: CollisionModel)
    requires
        in_box(v0, RESPOND_VEL_SNAP_LIMIT as int),
        absi(s0) <= RESPOND_SPIN_SNAP_LIMIT,
        SCALE_MIN <= scale <= SCALE_MAX,
        collision_wf(c),
    ensures
        absi(vel_delta(v0, s0, c.surface_normal).x) <= RESPOND_VEL_DELTA,
        absi(vel_delta(v0, s0, c.surface_normal).y) <= RESPOND_VEL_DELTA,
        absi(spin_delta(v0, scale, c.surface_normal)) <= RESPOND_SPIN_DELTA,
        absi(pos_delta(c).x) <= RESPOND_POS_DELTA,
        absi(pos_delta(c).y) <= RESPOND_POS_DELTA,
        absi(v0.x * c.surface_normal.x + v0.y * c.surface_normal.y)
            <= 2_000_000_000_000_000_000int,
        absi(v0.x * c.surface_normal.y - v0.y * c.surface_normal.x)
            <= 2_000_000_000_000_000_000int,
        absi(v0.x * c.surface_normal.x) <= 1_000_000_000_000_000_000int,
        absi(v0.y * c.surface_normal.y) <= 1_000_000_000_000_000_000int,
        absi(v0.x * c.surface_normal.y) <= 1_000_000_000_000_000_000int,
        absi(v0.y * c.surface_normal.x) <= 1_000_000_000_000_000_000int,
        absi(bounce_coef(v0, c.surface_normal) * c.surface_normal.x)
            <= 3_000_000_000_000_000_000int,
        absi(bounce_coef(v0, c.surface_normal) * c.surface_normal.y)
            <= 3_000_000_000_000_000_000int,
        absi(spin_push(s0) * c.surface_normal.y) <= 50_000_000_000_000_000_000int,
        absi(spin_push(s0) * (-c.surface_normal.x)) <= 50_000_000_000_000_000_000int,
        absi(c.overlap * c.surface_normal.x) <= 10_000_000_000_000_000int,
        absi(c.overlap * c.surface_normal.y) <= 10_000_000_000_000_000int,
{
    let n = c.surface_normal;
    lemma_abs_mul(v0.x, n.x);
    lemma_abs_mul(v0.y, n.y);
    lemma_abs_mul(v0.x, n.y);
    lemma_abs_mul(v0.y, n.x);
    assert(absi(v0.x * n.x) <= 1_000_000_000_000_000_000int && absi(v0.y * n.y)
        <= 1_000_000_000_000_000_000int && absi(v0.x * n.y) <= 1_000_000_000_000_000_000int
        && absi(v0.y * n.x) <= 1_000_000_000_000_000_000int) by (nonlinear_arith)
        requires
            absi(v0.x * n.x) == absi(v0.x) * absi(n.x),
            absi(v0.y * n.y) == absi(v0.y) * absi(n.y),
            absi(v0.x * n.y) == absi(v0.x) * absi(n.y),
            absi(v0.y * n.x) == absi(v0.y) * absi(n.x),
            0 <= absi(v0.x) <= 1_000_000_000_000,
            0 <= absi(v0.y) <= 1_000_000_000_000,
            0 <= absi(n.x) <= 1_000_000,
            0 <= absi(n.y) <= 1_000_000,
    {
    }
    // Reflection term.
    let dt0 = bounce_dot(v0, n);
    lemma_tdiv_bounds(v0.x * n.x + v0.y * n.y, UNIT as int);
    assert(absi(dt0) <= 2_000_000_000_000int);
    let coef = bounce_coef(v0, n);
    lemma_tdiv_bounds(2 * dt0 * BOUNCE_VELOCITY_DAMPING, UNIT as int);
    lemma_abs_mul(2 * dt0, BOUNCE_VELOCITY_DAMPING as int);
    assert(absi(coef) <= 3_000_000_000_000int);
    lemma_abs_mul(coef, n.x);
    lemma_abs_mul(coef, n.y);
    assert(absi(coef) * absi(n.x) <= 3_000_000_000_000_000_000int && absi(coef) * absi(n.y)
        <= 3_000_000_000_000_000_000int) by (nonlinear_arith)
        requires
            0 <= absi(coef) <= 3_000_000_000_000,
            0 <= absi(n.x) <= 1_000_000,
            0 <= absi(n.y) <= 1_000_000,
    {
    }
    lemma_tdiv_bounds(coef * n.x, UNIT as int);
    lemma_tdiv_bounds(coef * n.y, UNIT as int);
    // Spin-driven deflection term.
    let push = spin_push(s0);
    lemma_tdiv_bounds(BOUNCE_SPIN_TO_DIRECTION * s0, UNIT as int);
    lemma_abs_mul(BOUNCE_SPIN_TO_DIRECTION as int, s0);
    assert(absi(push) <= 50_000_000_000_000int);
    lemma_abs_mul(push, n.y);
    lemma_abs_mul(push, -n.x);
    assert(absi(push) * absi(n.y) <= 50_000_000_000_000_000_000int && absi(push) * absi(-n.x)
        <= 50_000_000_000_000_000_000int) by (nonlinear_arith)
        requires
            0 <= absi(push) <= 50_000_000_000_000,
            0 <= absi(n.y) <= 1_000_000,
            0 <= absi(-n.x) <= 1_000_000,
    {
    }
    lemma_tdiv_bounds(push * n.y, UNIT as int);
    lemma_tdiv_bounds(push * (-n.x), UNIT as int);
    // Spin change.
    let cross = tdiv(v0.x * n.y - v0.y * n.x, UNIT as int);
    lemma_tdiv_bounds(v0.x * n.y - v0.y * n.x, UNIT as int);
    assert(absi(cross) <= 2_000_000_000_000int);
    let t2 = tdiv(cross * BOUNCE_VELOCITY_TO_SPIN, UNIT as int);
    lemma_tdiv_bounds(cross * BOUNCE_VELOCITY_TO_SPIN, UNIT as int);
    lemma_abs_mul(cross, BOUNCE_VELOCITY_TO_SPIN as int);
    assert(absi(t2) <= 10_000_000_000int);
    let t3 = tdiv(t2 * UNIT, scale);
    lemma_tdiv_bounds(t2 * UNIT, scale);
    lemma_abs_mul(t2, UNIT as int);
    assert(absi(t3) <= RESPOND_SPIN_DELTA) by (nonlinear_arith)
        requires
            absi(t3) * scale <= absi(t2) * UNIT,
            absi(t2) <= 10_000_000_000,
            SCALE_MIN <= scale <= SCALE_MAX,
            absi(t3) >= 0,
            absi(t2) >= 0,
            UNIT == 1_000_000,
            SCALE_MIN == 500_000,
            SCALE_MAX == 2_000_000,
            RESPOND_SPIN_DELTA == 100_000_000_000,
    {
    }
    // Positional correction.
    lemma_abs_mul(c.overlap, n.x);
    lemma_abs_mul(c.overlap, n.y);
    assert(absi(c.overlap) * absi(n.x) <= 10_000_000_000_000_000int && absi(c.overlap) * absi(
        n.y) <= 10_000_000_000_000_000int) by (nonlinear_arith)
        requires
            0 <= absi(c.overlap) <= 10_000_000_000,
            0 <= absi(n.x) <= 1_000_000,
            0 <= absi(n.y) <= 1_000_000,
    {
    }
    lemma_tdiv_bounds(c.overlap * n.x, UNIT as int);
    lemma_tdiv_bounds(c.overlap * n.y, UNIT as int);
}

/// Apply the impulse of every collision gathered this tick, all of them
/// reading the same pre-collision snapshot of velocity and spin; collisions
/// with positive overlap also push the position out along their normal.
pub fn respond_collisions(p: &mut Player, collisions: &Vec<Collision>)
    requires
        in_box(old(p)@.velocity, RESPOND_VEL_SNAP_LIMIT as int),
        absi(old(p)@.spin) <= RESPOND_SPIN_SNAP_LIMIT,
        in_box(old(p)@.position, RESPOND_POS_LIMIT as int),
        SCALE_MIN <= old(p)@.scale <= SCALE_MAX,
        collisions@.len() <= MAX_COLLISIONS,
        forall|i: int| 0 <= i < collisions@.len() ==> collision_wf(#[trigger] collisions@[i]@),
    ensures
        final(p)@ == responded(old(p)@, views(collisions@)),
        absi(final(p)@.position.x) <= absi(old(p)@.position.x) + collisions@.len()
            * RESPOND_POS_DELTA,
        absi(final(p)@.position.y) <= absi(old(p)@.position.y) + collisions@.len()
            * RESPOND_POS_DELTA,
        absi(final(p)@.velocity.x) <= absi(old(p)@.velocity.x) + collisions@.len()
            * RESPOND_VEL_DELTA,
        absi(final(p)@.velocity.y) <= absi(old(p)@.velocity.y) + collisions@.len()
            * RESPOND_VEL_DELTA,
        absi(final(p)@.spin) <= absi(old(p)@.spin) + collisions@.len() * RESPOND_SPIN_DELTA,
        final(p)@.rotation == old(p)@.rotation,
        final(p)@.scale == old(p)@.scale,
        final(p)@.radius == old(p)@.radius,
{
    let v0: Vec2 = p.velocity;
    let s0: i128 = p.spin;
    let scale: i128 = p.scale;
    let n_cols: usize = collisions.len();
    let mut k: usize = 0;
    proof {
        assert(views(collisions@).take(0) =~= Seq::<CollisionModel>::empty());
    }
    while k < n_cols
        invariant
            n_cols == collisions@.len(),
            0 <= k <= n_cols,
            n_cols <= MAX_COLLISIONS,
            v0@ == old(p)@.velocity,
            s0 == old(p)@.spin,
            scale == old(p)@.scale,
            in_box(v0@, RESPOND_VEL_SNAP_LIMIT as int),
            absi(s0 as int) <= RESPOND_SPIN_SNAP_LIMIT,
            in_box(old(p)@.position, RESPOND_POS_LIMIT as int),
            SCALE_MIN <= scale <= SCALE_MAX,
            forall|i: int| 0 <= i < collisions@.len() ==> collision_wf(
                #[trigger] collisions@[i]@),
            p@ == respond_model(old(p)@, v0@, s0 as int, views(collisions@).take(k as int)),
            absi(p@.position.x) <= absi(old(p)@.position.x) + k * RESPOND_POS_DELTA,
            absi(p@.position.y) <= absi(old(p)@.position.y) + k * RESPOND_POS_DELTA,
            absi(p@.velocity.x) <= absi(old(p)@.velocity.x) + k * RESPOND_VEL_DELTA,
            absi(p@.velocity.y) <= absi(old(p)@.velocity.y) + k * RESPOND_VEL_DELTA,
            absi(p@.spin) <= absi(old(p)@.spin) + k * RESPOND_SPIN_DELTA,
            p@.rotation == old(p)@.rotation,
            p@.scale == old(p)@.scale,
            p@.radius == old(p)@.radius,
        decreases n_cols - k,
    {
        let c: Collision = collisions[k];
        let n: Vec2 = c.surface_normal;
        proof {
            assert(collision_wf(collisions@[k as int]@));
            lemma_delta_bounds(v0@, s0 as int, scale as int, c@);
        }
        // Positional correction: a no-op for the zero-overlap wall contacts.
        let px: i128 = p.position.x + crate::fixed::div_trunc(c.overlap * n.x, UNIT);
        let py: i128 = p.position.y + crate::fixed::div_trunc(c.overlap * n.y, UNIT);
        p.position = Vec2 { x: px, y: py };
        // Spin: tangential impact speed turned into spin.
        let cross: i128 = crate::fixed::div_trunc(v0.x * n.y - v0.y * n.x, UNIT);
        let t2: i128 = crate::fixed::div_trunc(cross * BOUNCE_VELOCITY_TO_SPIN, UNIT);
        let t3: i128 = crate::fixed::div_trunc(t2 * UNIT, scale);
        p.spin = p.spin - t3;
        // Velocity: damped reflection plus spin-driven deflection.
        let dt0: i128 = crate::fixed::div_trunc(v0.x * n.x + v0.y * n.y, UNIT);
        let coef: i128 = crate::fixed::div_trunc(2 * dt0 * BOUNCE_VELOCITY_DAMPING, UNIT);
        let push: i128 = crate::fixed::div_trunc(BOUNCE_SPIN_TO_DIRECTION * s0, UNIT);
        let dvx: i128 = crate::fixed::div_trunc(coef * n.x, UNIT) + crate::fixed::div_trunc(
            push * n.y, UNIT);
        let dvy: i128 = crate::fixed::div_trunc(coef * n.y, UNIT) + crate::fixed::div_trunc(
            push * (-n.x), UNIT);
        p.velocity = Vec2 { x: p.velocity.x - dvx, y: p.velocity.y - dvy };
        proof {
            let cols = views(collisions@);
            assert(cols.take(k + 1int).drop_last() =~= cols.take(k as int));
            assert(cols.take(k + 1int).last() == cols[k as int]);
            assert(cols[k as int] == collisions@[k as int]@);
            assert(p@ == apply_collision(respond_model(old(p)@, v0@, s0 as int, cols.take(
                k as int)), v0@, s0 as int, cols[k as int]));
        }
        k = k + 1;
    }
    proof {
        assert(views(collisions@).take(n_cols as int) =~= views(collisions@));
    }
}

} // verus!
