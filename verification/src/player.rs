use vstd::prelude::*;

use crate::fixed::{absi, tdiv, UNIT};
use crate::vec2::{in_box, Vec2, Vec2Model};

verus! {

/// Base collision radius of the body, before scaling (50 world units).
pub const SPRITE_RADIUS: i128 = 50_000_000;

/// Velocity gained per tick on each axis for a held movement action (50 units).
pub const ACCELERATION: i128 = 50_000_000;

/// Spin gained per tick for a held spin action (0.1 per second).
pub const SPIN_ACCELERATION: i128 = 100_000;

/// Per-tick multiplicative factor for a held grow or shrink action (1.1).
pub const SCALE_FACTOR: i128 = 1_100_000;

/// Smallest allowed body scale (0.5).
pub const SCALE_MIN: i128 = 500_000;

/// Largest allowed body scale (2.0).
pub const SCALE_MAX: i128 = 2_000_000;

/// Largest allowed velocity magnitude (2000 units per second).
pub const MAX_VELOCITY: i128 = 2_000_000_000;

/// Largest allowed spin magnitude before division by the scale (60 per second).
pub const MAX_SPIN: i128 = 60_000_000;

/// Multiplicative damping applied to the velocity every tick (0.99).
pub const VELOCITY_DECAY: i128 = 990_000;

/// Multiplicative damping applied to the spin every tick (0.99).
pub const SPIN_DECAY: i128 = 990_000;

/// Fraction of the reflected velocity kept by a bounce (0.7).
pub const BOUNCE_VELOCITY_DAMPING: i128 = 700_000;

/// How strongly tangential impact speed turns into spin (0.005).
pub const BOUNCE_VELOCITY_TO_SPIN: i128 = 5_000;

/// How strongly spin at impact deflects the velocity (50).
pub const BOUNCE_SPIN_TO_DIRECTION: i128 = 50_000_000;

/// One full turn of the rotation angle (two pi, in millionths of a radian).
pub const FULL_TURN: i128 = 6_283_185;

/// Half of one fixed-point step per world unit, used for rounding to units.
pub const HALF_UNIT: i128 = 500_000;

/// Bound on the base radius accepted by the simulation (1000 world units).
pub const RADIUS_LIMIT: i128 = 1_000_000_000;

/// Bound on position components between ticks.
pub const POS_LIMIT: i128 = 100_000_000_000_000;

/// Bound on velocity components between ticks.
pub const VEL_WF_LIMIT: i128 = 500_000_000_000_000_000;

/// Bound on velocity components accepted by the motion integrator.
pub const VEL_LIMIT: i128 = 1_000_000_000_000_000_000;

/// Bound on the spin between ticks.
pub const SPIN_WF_LIMIT: i128 = 1_000_000_000_000_000;

/// Bound on the spin accepted by the motion integrator.
pub const SPIN_LIMIT: i128 = 1_000_000_000_000_000_000;

/// Bound on the per-tick elapsed time (1000 seconds).
pub const DT_LIMIT: i128 = 1_000_000_000;

/// Bound on any world-space coordinate handled by the collision tests.
pub const GEOM_LIMIT: i128 = 1_000_000_000_000;

/// Bound on the arena corner coordinates.
pub const LEVEL_LIMIT: i128 = 100_000_000_000;

/// Bound on the penetration depth of a collision.
pub const OVERLAP_LIMIT: i128 = 10_000_000_000;

/// The single simulated body: a circle under player control.
#[derive(Clone, Copy, PartialEq, Eq, Structural, Debug)]
pub struct Player {
    /// Center of the body in world space.
    pub position: Vec2,
    /// Orientation angle, kept reduced to one full turn.
    pub rotation: i128,
    /// Uniform size multiplier.
    pub scale: i128,
    /// Linear velocity in world units per second.
    pub velocity: Vec2,
    /// Angular rate in radians per second.
    pub spin: i128,
    /// Base collision radius, before scaling.
    pub radius: i128,
}

/// The mathematical value of a `Player`: unbounded integers throughout.
pub struct PlayerModel {
    pub position: Vec2Model,
    pub rotation: int,
    pub scale: int,
    pub velocity: Vec2Model,
    pub spin: int,
    pub radius: int,
}

impl View for Player {
    type V = PlayerModel;

    open spec fn view(&self) -> PlayerModel {
        PlayerModel {
            position: self.position@,
            rotation: self.rotation as int,
            scale: self.scale as int,
            velocity: self.velocity@,
            spin: self.spin as int,
            radius: self.radius as int,
        }
    }
}

/// The body's effective collision radius: base radius times scale.
pub open spec fn effective_radius(m: PlayerModel) -> int {
    tdiv(m.radius * m.scale, UNIT as int)
}

/// Well-formedness of a body between ticks: radius and scale in their
/// documented ranges, the other quantities within generous machine bounds.
pub open spec fn player_wf(m: PlayerModel) -> bool {
    &&& 0 < m.radius <= RADIUS_LIMIT
    &&& SCALE_MIN <= m.scale <= SCALE_MAX
    &&& in_box(m.position, POS_LIMIT as int)
    &&& in_box(m.velocity, VEL_WF_LIMIT as int)
    &&& absi(m.spin) <= SPIN_WF_LIMIT
    &&& 0 <= m.rotation < FULL_TURN
}

/// One contact found during a tick: how deep the body sits in the obstruction
/// and the unit direction from the obstruction into free space.
#[derive(Clone, Copy, PartialEq, Eq, Structural, Debug)]
pub struct Collision {
    pub overlap: i128,
    pub surface_normal: Vec2,
}

/// The mathematical value of a `Collision`.
pub struct CollisionModel {
    pub overlap: int,
    pub surface_normal: Vec2Model,
}

impl View for Collision {
    type V = CollisionModel;

    open spec fn view(&self) -> CollisionModel {
        CollisionModel { overlap: self.overlap as int, surface_normal: self.surface_normal@ }
    }
}

/// The models of a list of collisions.
pub open spec fn views(s: Seq<Collision>) -> Seq<CollisionModel> {
    s.map_values(|c: Collision| c@)
}

/// The largest effective radius a well-formed body can have.
pub const EFFECTIVE_RADIUS_LIMIT: i128 = 2_000_000_000;

/// The body's effective collision radius, computed: base radius times scale.
pub fn scaled_radius(p: &Player) -> (r: i128)
    requires
        0 < p@.radius <= RADIUS_LIMIT,
        SCALE_MIN <= p@.scale <= SCALE_MAX,
    ensures
        r == effective_radius(p@),
        0 <= r <= EFFECTIVE_RADIUS_LIMIT,
{
    proof {
        let rad = p@.radius;
        let sc = p@.scale;
        crate::fixed::lemma_tdiv_bounds(rad * sc, UNIT as int);
        crate::fixed::lemma_abs_mul(rad, sc);
        assert(absi(rad) * absi(sc) <= 2_000_000_000_000_000int) by (nonlinear_arith)
            requires
                0 < rad <= RADIUS_LIMIT,
                SCALE_MIN <= sc <= SCALE_MAX,
                RADIUS_LIMIT == 1_000_000_000,
                SCALE_MIN == 500_000,
                SCALE_MAX == 2_000_000,
                absi(rad) == rad,
                absi(sc) == sc,
        {
        }
    }
    crate::fixed::div_trunc(p.radius * p.scale, UNIT)
}

/// A collision the responder accepts: a non-negative bounded overlap and a
/// normal no longer than unit on each axis.
pub open spec fn collision_wf(c: CollisionModel) -> bool {
    &&& 0 <= c.overlap <= OVERLAP_LIMIT
    &&& absi(c.surface_normal.x) <= UNIT
    &&& absi(c.surface_normal.y) <= UNIT
}

/// Create the body as it exists at the start of a session: base radius, scale
/// one, at rest at the origin.
pub fn spawn_player() -> (p: Player)
    ensures
        p@.radius == SPRITE_RADIUS,
        p@.scale == UNIT,
        p@.position == (Vec2Model { x: 0, y: 0 }),
        p@.velocity == (Vec2Model { x: 0, y: 0 }),
        p@.spin == 0,
        p@.rotation == 0,
        player_wf(p@),
{
    Player {
        position: Vec2 { x: 0, y: 0 },
        rotation: 0,
        scale: UNIT,
        velocity: Vec2 { x: 0, y: 0 },
        spin: 0,
        radius: SPRITE_RADIUS,
    }
}

/// Rounding of a fixed-point scalar to the nearest whole world unit, halves
/// rounding away from zero.
pub open spec fn to_whole_units(a: int) -> int {
    if a >= 0 {
        tdiv(a + HALF_UNIT, UNIT as int)
    } else {
        tdiv(a - HALF_UNIT, UNIT as int)
    }
}

/// The body's position rounded to whole world units, as shown by the
/// coordinate overlay.
pub fn coordinate_display_values(p: &Player) -> (r: (i128, i128))
    requires
        in_box(p@.position, POS_LIMIT as int),
    ensures
        r.0 == to_whole_units(p@.position.x),
        r.1 == to_whole_units(p@.position.y),
{
    let x: i128 = if p.position.x >= 0 {
        crate::fixed::div_trunc(p.position.x + HALF_UNIT, UNIT)
    } else {
        crate::fixed::div_trunc(p.position.x - HALF_UNIT, UNIT)
    };
    let y: i128 = if p.position.y >= 0 {
        crate::fixed::div_trunc(p.position.y + HALF_UNIT, UNIT)
    } else {
        crate::fixed::div_trunc(p.position.y - HALF_UNIT, UNIT)
    };
    (x, y)
}

} // verus!
