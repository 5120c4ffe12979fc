use vstd::prelude::*;

use crate::fixed::{absi, isqrt, isqrt_spec, lemma_abs_mul, lemma_tdiv_bounds, tdiv};
use crate::level::{Obstacle, obstacle_wf, ObstacleModel, Triangle, triangle_in_box,
    TriangleModel, world_transform, world_triangle};
use crate::player::{Collision, collision_wf, CollisionModel, effective_radius,
    EFFECTIVE_RADIUS_LIMIT, GEOM_LIMIT, Player, RADIUS_LIMIT, SCALE_MAX, SCALE_MIN,
    scaled_radius, views};
use crate::vec2::{dot, dot_vec, in_box, len_sq, len_sq_vec, MIN_NORM_SQ, near_unit, normalize,
    normalized, perp, perp_dot, perp_dot_vec, sub_vec, Vec2, Vec2Model, vsub};

verus! {

/// Whether a point lies inside (or on the border of) a triangle: the cross
/// product of each directed edge with the vector to the point carries the same
/// sign, zero allowed.
pub open spec fn point_in_triangle_spec(p: Vec2Model, t: TriangleModel) -> bool {
    let p_ab = perp_dot(vsub(t.b, t.a), vsub(p, t.a));
    let p_bc = perp_dot(vsub(t.c, t.b), vsub(p, t.b));
    let p_ca = perp_dot(vsub(t.a, t.c), vsub(p, t.c));
    (p_ab >= 0 && p_bc >= 0 && p_ca >= 0) || (p_ab <= 0 && p_bc <= 0 && p_ca <= 0)
}

/// Half-plane containment test of a point against a triangle.
pub fn point_in_triangle(p: Vec2, triangle: &Triangle) -> (r: bool)
    requires
        in_box(p@, GEOM_LIMIT as int),
        triangle_in_box(triangle@, GEOM_LIMIT as int),
    ensures
        r == point_in_triangle_spec(p@, triangle@),
{
    let p_ab: i128 = perp_dot_vec(sub_vec(triangle.b, triangle.a), sub_vec(p, triangle.a));
    let p_bc: i128 = perp_dot_vec(sub_vec(triangle.c, triangle.b), sub_vec(p, triangle.b));
    let p_ca: i128 = perp_dot_vec(sub_vec(triangle.a, triangle.c), sub_vec(p, triangle.c));
    (p_ab >= 0 && p_bc >= 0 && p_ca >= 0) || (p_ab <= 0 && p_bc <= 0 && p_ca <= 0)
}

/// How deep a circle sits past a segment: the circle's radius minus the
/// distance from the center to the closest point of the segment. Positive
/// exactly when they overlap; a degenerate segment reports no overlap.
pub open spec fn segment_overlap(c: Vec2Model, r: int, p1: Vec2Model, p2: Vec2Model) -> int {
    let line = vsub(p2, p1);
    let to_center = vsub(c, p1);
    if len_sq(line) == 0 {
        0
    } else {
        let dv = dot(to_center, line);
        let closest = if dv < 0 {
            p1
        } else if dv > len_sq(line) {
            p2
        } else {
            Vec2Model {
                x: p1.x + tdiv(line.x * dv, len_sq(line)),
                y: p1.y + tdiv(line.y * dv, len_sq(line)),
            }
        };
        r - isqrt_spec(len_sq(vsub(closest, c)) as nat)
    }
}

/// Project the circle center onto the segment, clamp to its ends, and report
/// the radius minus the distance to that closest point.
pub fn circle_intersects_line_segment(center: Vec2, radius: i128, p1: Vec2, p2: Vec2)
    -> (overlap: i128)
    requires
        in_box(center@, GEOM_LIMIT as int),
        in_box(p1@, GEOM_LIMIT as int),
        in_box(p2@, GEOM_LIMIT as int),
        0 <= radius <= EFFECTIVE_RADIUS_LIMIT,
    ensures
        overlap == segment_overlap(center@, radius as int, p1@, p2@),
        overlap <= radius,
{
    let line: Vec2 = sub_vec(p2, p1);
    let to_center: Vec2 = sub_vec(center, p1);
    let lsq: i128 = len_sq_vec(line);
    if lsq == 0 {
        return 0;
    }
    proof {
        assert(lsq <= 8_000_000_000_000_000_000_000_000int) by (nonlinear_arith)
            requires
                lsq == line@.x * line@.x + line@.y * line@.y,
                -2_000_000_000_000 <= line@.x <= 2_000_000_000_000,
                -2_000_000_000_000 <= line@.y <= 2_000_000_000_000,
        {
        }
    }
    let dv: i128 = dot_vec(to_center, line);
    let closest: Vec2 = if dv < 0 {
        p1
    } else if dv > lsq {
        p2
    } else {
        proof {
            lemma_abs_mul(line@.x, dv as int);
            lemma_abs_mul(line@.y, dv as int);
            assert(absi(line@.x * dv) <= absi(line@.x) * lsq && absi(line@.y * dv)
                <= absi(line@.y) * lsq && absi(line@.x) * lsq
                <= 16_000_000_000_000_000_000_000_000_000_000_000_000int && absi(line@.y) * lsq
                <= 16_000_000_000_000_000_000_000_000_000_000_000_000int) by (nonlinear_arith)
                requires
                    0 <= dv <= lsq,
                    absi(line@.x * dv) == absi(line@.x) * absi(dv as int),
                    absi(line@.y * dv) == absi(line@.y) * absi(dv as int),
                    absi(line@.x) <= 2_000_000_000_000,
                    absi(line@.y) <= 2_000_000_000_000,
                    lsq <= 8_000_000_000_000_000_000_000_000int,
                    absi(dv as int) == dv,
            {
            }
            lemma_tdiv_bounds(line@.x * dv, lsq as int);
            lemma_tdiv_bounds(line@.y * dv, lsq as int);
            assert(absi(tdiv(line@.x * dv, lsq as int)) <= absi(line@.x) && absi(tdiv(line@.y
                * dv, lsq as int)) <= absi(line@.y)) by (nonlinear_arith)
                requires
                    lsq >= 1,
                    absi(tdiv(line@.x * dv, lsq as int)) * lsq <= absi(line@.x * dv),
                    absi(tdiv(line@.y * dv, lsq as int)) * lsq <= absi(line@.y * dv),
                    absi(line@.x * dv) <= absi(line@.x) * lsq,
                    absi(line@.y * dv) <= absi(line@.y) * lsq,
                    absi(tdiv(line@.x * dv, lsq as int)) >= 0,
                    absi(tdiv(line@.y * dv, lsq as int)) >= 0,
                    absi(line@.x) >= 0,
                    absi(line@.y) >= 0,
            {
            }
        }
        let cx: i128 = p1.x + crate::fixed::div_trunc(line.x * dv, lsq);
        let cy: i128 = p1.y + crate::fixed::div_trunc(line.y * dv, lsq);
        Vec2 { x: cx, y: cy }
    };
    let dvec: Vec2 = sub_vec(closest, center);
    let dsq: i128 = len_sq_vec(dvec);
    let d: i128 = isqrt(dsq as u128) as i128;
    proof {
        assert(d >= 0);
        assert(d as nat == isqrt_spec(dsq as nat));
    }
    radius - d
}

/// The length-squared of a vector does not change under a quarter turn.
proof fn lemma_perp_len_sq(v: Vec2Model)
    ensures
        len_sq(perp(v)) == len_sq(v),
{
    assert((-v.y) * (-v.y) == v.y * v.y) by (nonlinear_arith) {}
}

/// The collisions one directed edge contributes: a single contact when the
/// circle overlaps the segment, whose normal is the normalized perpendicular
/// of `p1 - p2`.
pub open spec fn edge_collisions(c: Vec2Model, r: int, p1: Vec2Model, p2: Vec2Model)
    -> Seq<CollisionModel> {
    let o = segment_overlap(c, r, p1, p2);
    if o > 0 {
        seq![CollisionModel { overlap: o, surface_normal: normalized(perp(vsub(p1, p2))) }]
    } else {
        Seq::empty()
    }
}

/// The collisions a triangle contributes: none when the center is contained,
/// else whatever each of the three directed edges contributes, in order.
pub open spec fn triangle_collisions(c: Vec2Model, r: int, t: TriangleModel)
    -> Seq<CollisionModel> {
    if point_in_triangle_spec(c, t) {
        Seq::empty()
    } else {
        edge_collisions(c, r, t.a, t.b) + edge_collisions(c, r, t.b, t.c) + edge_collisions(c, r,
            t.c, t.a)
    }
}

/// Every edge of the triangle is at least a tenth of a world unit long, the
/// floor from which emitted normals are guaranteed near unit length.
pub open spec fn triangle_edges_stout(t: TriangleModel) -> bool {
    &&& len_sq(vsub(t.a, t.b)) >= MIN_NORM_SQ
    &&& len_sq(vsub(t.b, t.c)) >= MIN_NORM_SQ
    &&& len_sq(vsub(t.c, t.a)) >= MIN_NORM_SQ
}

/// The contact of the circle with one directed edge, if any.
fn edge_collision(center: Vec2, radius: i128, p1: Vec2, p2: Vec2) -> (r: Option<Collision>)
    requires
        in_box(center@, GEOM_LIMIT as int),
        in_box(p1@, GEOM_LIMIT as int),
        in_box(p2@, GEOM_LIMIT as int),
        0 <= radius <= EFFECTIVE_RADIUS_LIMIT,
    ensures
        match r {
            Some(c) => edge_collisions(center@, radius as int, p1@, p2@)
                =~= seq![c@] && collision_wf(c@) && (len_sq(vsub(p1@, p2@)) >= MIN_NORM_SQ
                ==> near_unit(c@.surface_normal)),
            None => edge_collisions(center@, radius as int, p1@, p2@) =~= Seq::empty(),
        },
{
    let o: i128 = circle_intersects_line_segment(center, radius, p1, p2);
    if o > 0 {
        let d: Vec2 = sub_vec(p1, p2);
        proof {
            if len_sq(d@) == 0 {
                assert(vsub(p2@, p1@).x == 0 && vsub(p2@, p1@).y == 0) by (nonlinear_arith)
                    requires
                        d@.x * d@.x + d@.y * d@.y == 0,
                        d@.x == p1@.x - p2@.x,
                        d@.y == p1@.y - p2@.y,
                        vsub(p2@, p1@).x == p2@.x - p1@.x,
                        vsub(p2@, p1@).y == p2@.y - p1@.y,
                {
                }
                assert(len_sq(vsub(p2@, p1@)) == 0);
                assert(false);
            }
            lemma_perp_len_sq(d@);
            crate::fixed::lemma_sq_nonneg(d@.x);
            crate::fixed::lemma_sq_nonneg(d@.y);
        }
        let pd: Vec2 = Vec2 { x: -d.y, y: d.x };
        proof {
            assert(pd@ == perp(d@));
            assert(d@ == vsub(p1@, p2@));
            assert(len_sq(pd@) >= 1);
        }
        let n: Vec2 = normalize(pd);
        Some(Collision { overlap: o, surface_normal: n })
    } else {
        None
    }
}

/// Narrow-phase test of the circle against one triangle: nothing when the
/// center is contained, else one contact per overlapped edge, all collected
/// before any resolution.
pub fn circle_triangle_collision(circle_center: Vec2, radius: i128, triangle: &Triangle)
    -> (collisions: Vec<Collision>)
    requires
        in_box(circle_center@, GEOM_LIMIT as int),
        triangle_in_box(triangle@, GEOM_LIMIT as int),
        0 <= radius <= EFFECTIVE_RADIUS_LIMIT,
    ensures
        views(collisions@) == triangle_collisions(circle_center@, radius as int, triangle@),
        point_in_triangle_spec(circle_center@, triangle@) ==> collisions@.len() == 0,
        forall|i: int| 0 <= i < collisions@.len() ==> collision_wf(#[trigger] collisions@[i]@),
        triangle_edges_stout(triangle@) ==> forall|i: int| 0 <= i < collisions@.len()
            ==> near_unit(#[trigger] collisions@[i]@.surface_normal),
        collisions@.len() <= 3,
{
    let mut collisions: Vec<Collision> = Vec::new();
    if point_in_triangle(circle_center, triangle) {
        proof {
            assert(views(collisions@) =~= triangle_collisions(circle_center@, radius as int,
                triangle@));
        }
        return collisions;
    }
    let e1: Option<Collision> = edge_collision(circle_center, radius, triangle.a, triangle.b);
    if let Some(c) = e1 {
        collisions.push(c);
    }
    let e2: Option<Collision> = edge_collision(circle_center, radius, triangle.b, triangle.c);
    if let Some(c) = e2 {
        collisions.push(c);
    }
    let e3: Option<Collision> = edge_collision(circle_center, radius, triangle.c, triangle.a);
    if let Some(c) = e3 {
        collisions.push(c);
    }
    proof {
        assert(views(collisions@) =~= triangle_collisions(circle_center@, radius as int,
            triangle@));
        assert forall|i: int| 0 <= i < collisions@.len() implies collision_wf(
            #[trigger] collisions@[i]@) && (triangle_edges_stout(triangle@) ==> near_unit(
            collisions@[i]@.surface_normal)) by {
            assert(collisions@[i]@ == views(collisions@)[i]);
        }
    }
    collisions
}

/// The models of a list of obstacles.
pub open spec fn obstacle_views(s: Seq<Obstacle>) -> Seq<ObstacleModel> {
    s.map_values(|o: Obstacle| o@)
}

/// Every obstacle in the list is well formed.
pub open spec fn obstacles_wf(obs: Seq<ObstacleModel>) -> bool {
    forall|i: int| 0 <= i < obs.len() ==> obstacle_wf(#[trigger] obs[i])
}

/// Every obstacle's world triangle has only stout edges.
pub open spec fn obstacles_stout(obs: Seq<ObstacleModel>) -> bool {
    forall|i: int| 0 <= i < obs.len() ==> triangle_edges_stout(world_triangle(#[trigger] obs[i]))
}

/// The collisions the whole obstacle list contributes, obstacle by obstacle in
/// order.
pub open spec fn obstacle_collisions(c: Vec2Model, r: int, obs: Seq<ObstacleModel>)
    -> Seq<CollisionModel>
    decreases obs.len(),
{
    if obs.len() == 0 {
        Seq::empty()
    } else {
        obstacle_collisions(c, r, obs.drop_last()) + triangle_collisions(c, r, world_triangle(
            obs.last()))
    }
}

/// Test the body against every obstacle's world triangle and collect all the
/// contacts; nothing is resolved here.
pub fn collide_obstacles(p: &Player, obstacles: &Vec<Obstacle>) -> (collisions: Vec<Collision>)
    requires
        in_box(p@.position, GEOM_LIMIT as int),
        0 < p@.radius <= RADIUS_LIMIT,
        SCALE_MIN <= p@.scale <= SCALE_MAX,
        obstacles_wf(obstacle_views(obstacles@)),
    ensures
        views(collisions@) == obstacle_collisions(p@.position, effective_radius(p@),
            obstacle_views(obstacles@)),
        forall|i: int| 0 <= i < collisions@.len() ==> collision_wf(#[trigger] collisions@[i]@),
        obstacles_stout(obstacle_views(obstacles@)) ==> forall|i: int| 0 <= i
            < collisions@.len() ==> near_unit(#[trigger] collisions@[i]@.surface_normal),
        collisions@.len() <= 3 * obstacles@.len(),
{
    let radius: i128 = scaled_radius(p);
    let mut collisions: Vec<Collision> = Vec::new();
    let ghost obs_models = obstacle_views(obstacles@);
    proof {
        assert(views(collisions@) =~= obstacle_collisions(p@.position, effective_radius(p@),
            obs_models.take(0)));
    }
    let n: usize = obstacles.len();
    let mut k: usize = 0;
    while k < n
        invariant
            n == obstacles@.len(),
            0 <= k <= n,
            obs_models == obstacle_views(obstacles@),
            in_box(p@.position, GEOM_LIMIT as int),
            0 < p@.radius <= RADIUS_LIMIT,
            SCALE_MIN <= p@.scale <= SCALE_MAX,
            radius == effective_radius(p@),
            0 <= radius <= EFFECTIVE_RADIUS_LIMIT,
            obstacles_wf(obs_models),
            views(collisions@) == obstacle_collisions(p@.position, effective_radius(p@),
                obs_models.take(k as int)),
            forall|i: int| 0 <= i < collisions@.len() ==> collision_wf(
                #[trigger] collisions@[i]@),
            obstacles_stout(obs_models) ==> forall|i: int| 0 <= i < collisions@.len()
                ==> near_unit(#[trigger] collisions@[i]@.surface_normal),
            collisions@.len() <= 3 * k,
        decreases n - k,
    {
        let obstacle: &Obstacle = &obstacles[k];
        proof {
            assert(obstacle@ == obs_models[k as int]);
        }
        let tri: Triangle = world_transform(obstacle);
        let mut found: Vec<Collision> = circle_triangle_collision(p.position, radius, &tri);
        let ghost found_snapshot = found@;
        collisions.append(&mut found);
        proof {
            assert(obs_models.take(k + 1int).drop_last() =~= obs_models.take(k as int));
            assert(obs_models.take(k + 1int).last() == obs_models[k as int]);
            assert(views(collisions@) =~= obstacle_collisions(p@.position, effective_radius(p@),
                obs_models.take(k as int)) + views(found_snapshot));
            assert(views(collisions@) =~= obstacle_collisions(p@.position, effective_radius(p@),
                obs_models.take(k + 1int)));
            assert forall|i: int| 0 <= i < collisions@.len() implies collision_wf(
                #[trigger] collisions@[i]@) && (obstacles_stout(obs_models) ==> near_unit(
                collisions@[i]@.surface_normal)) by {
                if i >= obstacle_collisions(p@.position, effective_radius(p@),
                    obs_models.take(k as int)).len() {
                    let j = i - obstacle_collisions(p@.position, effective_radius(p@),
                        obs_models.take(k as int)).len();
                    assert(collisions@[i] == found_snapshot[j]);
                }
            }
        }
        k = k + 1;
    }
    proof {
        assert(obs_models.take(n as int) =~= obs_models);
    }
    collisions
}

} // verus!
