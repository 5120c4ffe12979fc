use vstd::prelude::*;

use crate::boundary::{confine_player_movement, confined_position, wall_collisions};
use crate::fixed::{lemma_tdiv_mono, tdiv, UNIT};
use crate::input::{accelerated_spin, accelerated_velocity, confine_player_size, confined_scale,
    InputSnapshot, player_acceleration, player_rotation, player_size, scaled_scale};
use crate::level::{Level, level_wf, LevelModel, Obstacle, ObstacleModel};
use crate::motion::{integrated, player_movement};
use crate::obstacles::{collide_obstacles, obstacle_collisions, obstacle_views, obstacles_stout,
    obstacles_wf};
use crate::player::{Collision, collision_wf, CollisionModel, DT_LIMIT, effective_radius,
    Player, player_wf, PlayerModel, SCALE_MAX, views};
use crate::response::{respond_collisions, responded};
use crate::vec2::{len_sq, near_unit};

verus! {

/// Bound on the number of obstacles one tick tests.
pub const MAX_OBSTACLES: usize = 1000;

/// The body after the input stage: velocity, spin and scale take their per-tick
/// increments, everything else is untouched.
pub open spec fn input_applied(m: PlayerModel, inp: InputSnapshot) -> PlayerModel {
    PlayerModel {
        velocity: accelerated_velocity(m.velocity, inp),
        spin: accelerated_spin(m.spin, inp),
        scale: scaled_scale(m.scale, inp),
        ..m
    }
}

/// The body after the scale confiner.
pub open spec fn scale_confined(m: PlayerModel) -> PlayerModel {
    PlayerModel { scale: confined_scale(m.scale), ..m }
}

/// The body after the boundary confiner.
pub open spec fn boundary_confined(m: PlayerModel, lv: LevelModel) -> PlayerModel {
    PlayerModel { position: confined_position(m.position, lv, effective_radius(m)), ..m }
}

/// Every collision one tick collects: the wall contacts first, then the
/// obstacle contacts, both found after integration and confinement.
pub open spec fn tick_collisions(m: PlayerModel, inp: InputSnapshot, dt: int, lv: LevelModel,
    obs: Seq<ObstacleModel>) -> Seq<CollisionModel> {
    let m3 = integrated(scale_confined(input_applied(m, inp)), dt);
    let m4 = boundary_confined(m3, lv);
    wall_collisions(m3.position, lv, effective_radius(m3)) + obstacle_collisions(m4.position,
        effective_radius(m4), obs)
}

/// One full simulation tick on the body model: input, scale confinement,
/// motion integration, boundary confinement, obstacle tests, and the shared
/// collision response, in this fixed order.
pub open spec fn tick_model(m: PlayerModel, inp: InputSnapshot, dt: int, lv: LevelModel,
    obs: Seq<ObstacleModel>) -> PlayerModel {
    let m4 = boundary_confined(integrated(scale_confined(input_applied(m, inp)), dt), lv);
    responded(m4, tick_collisions(m, inp, dt, lv, obs))
}

/// Run one simulation tick: accelerate from the input, confine the scale,
/// integrate motion, confine to the arena, test every obstacle, and respond to
/// all collected collisions from one snapshot. Returns the tick's collisions.
pub fn tick(p: &mut Player, level: &Level, obstacles: &Vec<Obstacle>, input: &InputSnapshot,
    dt: i128) -> (collisions: Vec<Collision>)
    requires
        player_wf(old(p)@),
        level_wf(level@),
        0 <= dt <= DT_LIMIT,
        obstacles_wf(obstacle_views(obstacles@)),
        obstacles@.len() <= MAX_OBSTACLES,
        level@.min.x + 2 * tdiv(old(p)@.radius * SCALE_MAX, UNIT as int) <= level@.max.x,
        level@.min.y + 2 * tdiv(old(p)@.radius * SCALE_MAX, UNIT as int) <= level@.max.y,
    ensures
        final(p)@ == tick_model(old(p)@, *input, dt as int, level@, obstacle_views(obstacles@)),
        player_wf(final(p)@),
        views(collisions@) == tick_collisions(old(p)@, *input, dt as int, level@,
            obstacle_views(obstacles@)),
        forall|i: int| 0 <= i < collisions@.len() ==> collision_wf(#[trigger] collisions@[i]@),
        obstacles_stout(obstacle_views(obstacles@)) ==> forall|i: int| 0 <= i
            < collisions@.len() ==> near_unit(#[trigger] collisions@[i]@.surface_normal),
{
    player_acceleration(p, input);
    player_rotation(p, input);
    player_size(p, input);
    proof {
        assert(p@ == input_applied(old(p)@, *input));
    }
    confine_player_size(p);
    proof {
        assert(p@ == scale_confined(input_applied(old(p)@, *input)));
    }
    player_movement(p, dt);
    let ghost m3 = p@;
    proof {
        assert(m3 == integrated(scale_confined(input_applied(old(p)@, *input)), dt as int));
        // The effective radius under any confined scale fits the arena.
        assert(m3.radius * m3.scale <= m3.radius * SCALE_MAX && m3.radius * m3.scale >= 0)
            by (nonlinear_arith)
            requires
                0 < m3.radius,
                500_000 <= m3.scale <= SCALE_MAX,
                SCALE_MAX == 2_000_000,
        {
        }
        lemma_tdiv_mono(m3.radius * m3.scale, m3.radius * (SCALE_MAX as int), UNIT as int);
    }
    let mut collisions: Vec<Collision> = confine_player_movement(p, level);
    let ghost m4 = p@;
    proof {
        assert(m4 == boundary_confined(m3, level@));
    }
    let mut found: Vec<Collision> = collide_obstacles(p, obstacles);
    let ghost wall_part = collisions@;
    let ghost obstacle_part = found@;
    collisions.append(&mut found);
    proof {
        assert(views(collisions@) =~= views(wall_part) + views(obstacle_part));
        assert(views(collisions@) =~= tick_collisions(old(p)@, *input, dt as int, level@,
            obstacle_views(obstacles@)));
        assert(collisions@.len() <= 2 + 3 * obstacles@.len());
        assert forall|i: int| 0 <= i < collisions@.len() implies collision_wf(
            #[trigger] collisions@[i]@) && (obstacles_stout(obstacle_views(obstacles@))
            ==> near_unit(collisions@[i]@.surface_normal)) by {
            if i < wall_part.len() {
                assert(collisions@[i] == wall_part[i]);
                assert(len_sq(wall_part[i]@.surface_normal) == UNIT * UNIT);
                assert((UNIT - 10) * (UNIT - 10) <= UNIT * UNIT <= (UNIT + 10) * (UNIT + 10))
                    by (nonlinear_arith)
                    requires
                        UNIT == 1_000_000,
                {
                }
            } else {
                assert(collisions@[i] == obstacle_part[i - wall_part.len()]);
            }
        }
    }
    respond_collisions(p, &collisions);
    proof {
        assert(p@ == tick_model(old(p)@, *input, dt as int, level@, obstacle_views(obstacles@)));
        assert(player_wf(p@));
    }
    collisions
}

/// One tick on a body that may not have been spawned yet: before the body
/// exists every stage is a silent no-op, a transient startup condition rather
/// than an error.
pub fn tick_optional(body: Option<Player>, level: &Level, obstacles: &Vec<Obstacle>,
    input: &InputSnapshot, dt: i128) -> (r: (Option<Player>, Vec<Collision>))
    requires
        level_wf(level@),
        0 <= dt <= DT_LIMIT,
        obstacles_wf(obstacle_views(obstacles@)),
        obstacles@.len() <= MAX_OBSTACLES,
        body matches Some(b) ==> player_wf(b@) && level@.min.x + 2 * tdiv(b@.radius * SCALE_MAX,
            UNIT as int) <= level@.max.x && level@.min.y + 2 * tdiv(b@.radius * SCALE_MAX,
            UNIT as int) <= level@.max.y,
    ensures
        body is None ==> r.0 is None && r.1@.len() == 0,
        body matches Some(b) ==> r.0 matches Some(nb) && nb@ == tick_model(b@, *input, dt as int,
            level@, obstacle_views(obstacles@)) && player_wf(nb@) && views(r.1@)
            == tick_collisions(b@, *input, dt as int, level@, obstacle_views(obstacles@)),
{
    match body {
        Some(mut b) => {
            let collisions = tick(&mut b, level, obstacles, input, dt);
            (Some(b), collisions)
        },
        None => (None, Vec::new()),
    }
}

} // verus!
