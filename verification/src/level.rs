use vstd::prelude::*;

use crate::fixed::{tdiv, UNIT};
use crate::player::{GEOM_LIMIT, LEVEL_LIMIT, Player, POS_LIMIT};
use crate::vec2::{in_box, Vec2, Vec2Model};

verus! {

/// Bound on an obstacle's local vertex coordinates (1000 world units).
pub const OBSTACLE_VERTEX_LIMIT: i128 = 1_000_000_000;

/// Bound on an obstacle's uniform scale factor (500 times).
pub const OBSTACLE_SCALE_LIMIT: i128 = 500_000_000;

/// Bound on an obstacle's position coordinates.
pub const OBSTACLE_POS_LIMIT: i128 = 500_000_000_000;

/// The arena: an axis-aligned rectangle the body is confined to.
#[derive(Clone, Copy, PartialEq, Eq, Structural, Debug)]
pub struct Level {
    pub min: Vec2,
    pub max: Vec2,
}

/// The mathematical value of a `Level`.
pub struct LevelModel {
    pub min: Vec2Model,
    pub max: Vec2Model,
}

impl View for Level {
    type V = LevelModel;

    open spec fn view(&self) -> LevelModel {
        LevelModel { min: self.min@, max: self.max@ }
    }
}

/// The arena corners are bounded and ordered.
pub open spec fn level_wf(lv: LevelModel) -> bool {
    &&& in_box(lv.min, LEVEL_LIMIT as int)
    &&& in_box(lv.max, LEVEL_LIMIT as int)
    &&& lv.min.x <= lv.max.x
    &&& lv.min.y <= lv.max.y
}

/// A convex triangle in some winding order.
#[derive(Clone, Copy, PartialEq, Eq, Structural, Debug)]
pub struct Triangle {
    pub a: Vec2,
    pub b: Vec2,
    pub c: Vec2,
}

/// The mathematical value of a `Triangle`.
pub struct TriangleModel {
    pub a: Vec2Model,
    pub b: Vec2Model,
    pub c: Vec2Model,
}

impl View for Triangle {
    type V = TriangleModel;

    open spec fn view(&self) -> TriangleModel {
        TriangleModel { a: self.a@, b: self.b@, c: self.c@ }
    }
}

/// All three vertices of a triangle model lie within `m` of the origin on both
/// axes.
pub open spec fn triangle_in_box(t: TriangleModel, m: int) -> bool {
    &&& in_box(t.a, m)
    &&& in_box(t.b, m)
    &&& in_box(t.c, m)
}

/// A static obstacle: a triangle given in local coordinates, placed in the
/// world by a position and a uniform scale.
#[derive(Clone, Copy, PartialEq, Eq, Structural, Debug)]
pub struct Obstacle {
    pub local_vertices: Triangle,
    pub position: Vec2,
    pub scale: i128,
}

/// The mathematical value of an `Obstacle`.
pub struct ObstacleModel {
    pub local_vertices: TriangleModel,
    pub position: Vec2Model,
    pub scale: int,
}

impl View for Obstacle {
    type V = ObstacleModel;

    open spec fn view(&self) -> ObstacleModel {
        ObstacleModel {
            local_vertices: self.local_vertices@,
            position: self.position@,
            scale: self.scale as int,
        }
    }
}

/// Obstacle data as the level-setup collaborator must author it: bounded local
/// vertices, a positive bounded scale, and a bounded position.
pub open spec fn obstacle_wf(o: ObstacleModel) -> bool {
    &&& triangle_in_box(o.local_vertices, OBSTACLE_VERTEX_LIMIT as int)
    &&& 0 < o.scale <= OBSTACLE_SCALE_LIMIT
    &&& in_box(o.position, OBSTACLE_POS_LIMIT as int)
}

/// One local vertex carried into world space: position plus the scaled vertex.
pub open spec fn world_vertex(v: Vec2Model, pos: Vec2Model, scale: int) -> Vec2Model {
    Vec2Model {
        x: pos.x + tdiv(v.x * scale, UNIT as int),
        y: pos.y + tdiv(v.y * scale, UNIT as int),
    }
}

/// The obstacle's triangle in world space.
pub open spec fn world_triangle(o: ObstacleModel) -> TriangleModel {
    TriangleModel {
        a: world_vertex(o.local_vertices.a, o.position, o.scale),
        b: world_vertex(o.local_vertices.b, o.position, o.scale),
        c: world_vertex(o.local_vertices.c, o.position, o.scale),
    }
}

/// A bounded local vertex under a bounded transform lands within the collision
/// tests' coordinate bound.
pub proof fn lemma_world_vertex_in_box(v: Vec2Model, pos: Vec2Model, scale: int)
    requires
        in_box(v, OBSTACLE_VERTEX_LIMIT as int),
        0 < scale <= OBSTACLE_SCALE_LIMIT,
        in_box(pos, OBSTACLE_POS_LIMIT as int),
    ensures
        in_box(world_vertex(v, pos, scale), GEOM_LIMIT as int),
        crate::fixed::absi(v.x * scale) <= 500_000_000_000_000_000,
        crate::fixed::absi(v.y * scale) <= 500_000_000_000_000_000,
{
    crate::fixed::lemma_tdiv_bounds(v.x * scale, UNIT as int);
    crate::fixed::lemma_tdiv_bounds(v.y * scale, UNIT as int);
    crate::fixed::lemma_abs_mul(v.x, scale);
    crate::fixed::lemma_abs_mul(v.y, scale);
    assert(crate::fixed::absi(v.x) * crate::fixed::absi(scale)
        <= 500_000_000_000_000_000int) by (nonlinear_arith)
        requires
            0 <= crate::fixed::absi(v.x) <= OBSTACLE_VERTEX_LIMIT,
            0 <= crate::fixed::absi(scale) <= OBSTACLE_SCALE_LIMIT,
            OBSTACLE_VERTEX_LIMIT == 1_000_000_000,
            OBSTACLE_SCALE_LIMIT == 500_000_000,
    {
    }
    assert(crate::fixed::absi(v.y) * crate::fixed::absi(scale)
        <= 500_000_000_000_000_000int) by (nonlinear_arith)
        requires
            0 <= crate::fixed::absi(v.y) <= OBSTACLE_VERTEX_LIMIT,
            0 <= crate::fixed::absi(scale) <= OBSTACLE_SCALE_LIMIT,
            OBSTACLE_VERTEX_LIMIT == 1_000_000_000,
            OBSTACLE_SCALE_LIMIT == 500_000_000,
    {
    }
    assert(crate::fixed::absi(tdiv(v.x * scale, UNIT as int)) * (UNIT as int)
        <= 500_000_000_000_000_000int);
}

/// One local vertex placed into world space.
fn place_vertex(v: Vec2, pos: Vec2, scale: i128) -> (w: Vec2)
    requires
        in_box(v@, OBSTACLE_VERTEX_LIMIT as int),
        0 < scale <= OBSTACLE_SCALE_LIMIT,
        in_box(pos@, OBSTACLE_POS_LIMIT as int),
    ensures
        w@ == world_vertex(v@, pos@, scale as int),
        in_box(w@, GEOM_LIMIT as int),
{
    proof {
        lemma_world_vertex_in_box(v@, pos@, scale as int);
        crate::fixed::lemma_tdiv_bounds(v@.x * scale, UNIT as int);
        crate::fixed::lemma_tdiv_bounds(v@.y * scale, UNIT as int);
    }
    let wx: i128 = pos.x + crate::fixed::div_trunc(v.x * scale, UNIT);
    let wy: i128 = pos.y + crate::fixed::div_trunc(v.y * scale, UNIT);
    Vec2 { x: wx, y: wy }
}

/// The obstacle's triangle carried into world space: position plus each scaled
/// local vertex.
pub fn world_transform(o: &Obstacle) -> (t: Triangle)
    requires
        obstacle_wf(o@),
    ensures
        t@ == world_triangle(o@),
        triangle_in_box(t@, GEOM_LIMIT as int),
{
    Triangle {
        a: place_vertex(o.local_vertices.a, o.position, o.scale),
        b: place_vertex(o.local_vertices.b, o.position, o.scale),
        c: place_vertex(o.local_vertices.c, o.position, o.scale),
    }
}

/// Place the body at the center of the arena, as the session start does.
pub fn init_position_player(p: &mut Player, level: &Level)
    requires
        level_wf(level@),
    ensures
        final(p)@.position.x == tdiv(level@.min.x + level@.max.x, 2),
        final(p)@.position.y == tdiv(level@.min.y + level@.max.y, 2),
        in_box(final(p)@.position, POS_LIMIT as int),
        final(p)@.rotation == old(p)@.rotation,
        final(p)@.scale == old(p)@.scale,
        final(p)@.velocity == old(p)@.velocity,
        final(p)@.spin == old(p)@.spin,
        final(p)@.radius == old(p)@.radius,
{
    let x: i128 = crate::fixed::div_trunc(level.min.x + level.max.x, 2);
    let y: i128 = crate::fixed::div_trunc(level.min.y + level.max.y, 2);
    proof {
        crate::fixed::lemma_tdiv_bounds(level@.min.x + level@.max.x, 2);
        crate::fixed::lemma_tdiv_bounds(level@.min.y + level@.max.y, 2);
    }
    p.position = Vec2 { x, y };
}

} // verus!
