use vstd::prelude::*;

use crate::fixed::{clamp, UNIT};
use crate::level::{Level, level_wf, LevelModel};
use crate::player::{Collision, collision_wf, CollisionModel, effective_radius, Player,
    RADIUS_LIMIT, SCALE_MAX, SCALE_MIN, views};
use crate::vec2::{len_sq, Vec2, Vec2Model};

verus! {

/// The position clamped into the arena shrunk by the effective radius `r`.
pub open spec fn confined_position(pos: Vec2Model, lv: LevelModel, r: int) -> Vec2Model {
    Vec2Model {
        x: clamp(pos.x, lv.min.x + r, lv.max.x - r),
        y: clamp(pos.y, lv.min.y + r, lv.max.y - r),
    }
}

/// The wall contacts a position produces: one per violated axis, with zero
/// overlap and an exactly unit normal pointing back into the arena, the x axis
/// reported before the y axis.
pub open spec fn wall_collisions(pos: Vec2Model, lv: LevelModel, r: int) -> Seq<CollisionModel> {
    let sx = if pos.x < lv.min.x + r {
        seq![CollisionModel { overlap: 0, surface_normal: Vec2Model { x: UNIT as int, y: 0 } }]
    } else if pos.x > lv.max.x - r {
        seq![CollisionModel { overlap: 0, surface_normal: Vec2Model { x: -(UNIT as int), y: 0 } }]
    } else {
        Seq::empty()
    };
    let sy = if pos.y < lv.min.y + r {
        seq![CollisionModel { overlap: 0, surface_normal: Vec2Model { x: 0, y: UNIT as int } }]
    } else if pos.y > lv.max.y - r {
        seq![CollisionModel { overlap: 0, surface_normal: Vec2Model { x: 0, y: -(UNIT as int) } }]
    } else {
        Seq::empty()
    };
    sx + sy
}

/// Clamp the body's position to the arena bounds, reporting one collision per
/// violated axis; the contacts are collected, not resolved here.
pub fn confine_player_movement(p: &mut Player, level: &Level) -> (collisions: Vec<Collision>)
    requires
        level_wf(level@),
        0 < old(p)@.radius <= RADIUS_LIMIT,
        SCALE_MIN <= old(p)@.scale <= SCALE_MAX,
        level@.min.x + 2 * effective_radius(old(p)@) <= level@.max.x,
        level@.min.y + 2 * effective_radius(old(p)@) <= level@.max.y,
    ensures
        final(p)@.position == confined_position(old(p)@.position, level@,
            effective_radius(old(p)@)),
        views(collisions@) == wall_collisions(old(p)@.position, level@,
            effective_radius(old(p)@)),
        level@.min.x + effective_radius(old(p)@) <= final(p)@.position.x <= level@.max.x
            - effective_radius(old(p)@),
        level@.min.y + effective_radius(old(p)@) <= final(p)@.position.y <= level@.max.y
            - effective_radius(old(p)@),
        old(p)@.position == confined_position(old(p)@.position, level@,
            effective_radius(old(p)@)) ==> final(p)@.position == old(p)@.position
            && collisions@.len() == 0,
        forall|i: int| 0 <= i < collisions@.len() ==> collision_wf(#[trigger] collisions@[i]@)
            && len_sq(collisions@[i]@.surface_normal) == UNIT * UNIT,
        collisions@.len() <= 2,
        final(p)@.rotation == old(p)@.rotation,
        final(p)@.scale == old(p)@.scale,
        final(p)@.velocity == old(p)@.velocity,
        final(p)@.spin == old(p)@.spin,
        final(p)@.radius == old(p)@.radius,
{
    proof {
        let rad = old(p)@.radius;
        let sc = old(p)@.scale;
        crate::fixed::lemma_tdiv_bounds(rad * sc, UNIT as int);
        crate::fixed::lemma_abs_mul(rad, sc);
        assert(crate::fixed::absi(rad) * crate::fixed::absi(sc) <= 2_000_000_000_000_000int)
            by (nonlinear_arith)
            requires
                0 < rad <= RADIUS_LIMIT,
                SCALE_MIN <= sc <= SCALE_MAX,
                RADIUS_LIMIT == 1_000_000_000,
                SCALE_MIN == 500_000,
                SCALE_MAX == 2_000_000,
                crate::fixed::absi(rad) == rad,
                crate::fixed::absi(sc) == sc,
        {
        }
    }
    let r: i128 = crate::fixed::div_trunc(p.radius * p.scale, UNIT);
    let x_min: i128 = level.min.x + r;
    let x_max: i128 = level.max.x - r;
    let y_min: i128 = level.min.y + r;
    let y_max: i128 = level.max.y - r;

    let mut collisions: Vec<Collision> = Vec::new();
    let mut x: i128 = p.position.x;
    let mut y: i128 = p.position.y;

    if x < x_min {
        x = x_min;
        collisions.push(Collision { overlap: 0, surface_normal: Vec2 { x: UNIT, y: 0 } });
    } else if x > x_max {
        x = x_max;
        collisions.push(Collision { overlap: 0, surface_normal: Vec2 { x: -UNIT, y: 0 } });
    }
    if y < y_min {
        y = y_min;
        collisions.push(Collision { overlap: 0, surface_normal: Vec2 { x: 0, y: UNIT } });
    } else if y > y_max {
        y = y_max;
        collisions.push(Collision { overlap: 0, surface_normal: Vec2 { x: 0, y: -UNIT } });
    }
    p.position = Vec2 { x, y };
    proof {
        assert(views(collisions@) =~= wall_collisions(old(p)@.position, level@,
            effective_radius(old(p)@)));
        assert forall|i: int| 0 <= i < collisions@.len() implies collision_wf(
            #[trigger] collisions@[i]@) && len_sq(collisions@[i]@.surface_normal)
            == UNIT * UNIT by {
            let c = collisions@[i]@;
            assert(c == views(collisions@)[i]);
            assert(c.surface_normal.x * c.surface_normal.x + c.surface_normal.y
                * c.surface_normal.y == UNIT * UNIT) by (nonlinear_arith)
                requires
                    (c.surface_normal.x == UNIT && c.surface_normal.y == 0) || (c.surface_normal.x
                        == -(UNIT as int) && c.surface_normal.y == 0) || (c.surface_normal.x == 0
                        && c.surface_normal.y == UNIT) || (c.surface_normal.x == 0
                        && c.surface_normal.y == -(UNIT as int)),
            {
            }
        }
    }
    collisions
}

/// Confinement is idempotent: run on an already confined position it moves
/// nothing and reports no collision. This is the two-call reading of the
/// boundary stage: a second run with no motion in between leaves the position
/// identical and the collision list empty.
pub proof fn lemma_confinement_idempotent(pos: Vec2Model, lv: LevelModel, r: int)
    requires
        lv.min.x + 2 * r <= lv.max.x,
        lv.min.y + 2 * r <= lv.max.y,
    ensures
        confined_position(confined_position(pos, lv, r), lv, r) == confined_position(pos, lv, r),
        wall_collisions(confined_position(pos, lv, r), lv, r) == Seq::<CollisionModel>::empty(),
{
    let q = confined_position(pos, lv, r);
    assert(lv.min.x + r <= q.x <= lv.max.x - r);
    assert(lv.min.y + r <= q.y <= lv.max.y - r);
    assert(wall_collisions(q, lv, r) =~= Seq::<CollisionModel>::empty());
}

} // verus!
