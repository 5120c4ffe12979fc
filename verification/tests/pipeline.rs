use arena_bounce::fixed::UNIT;
use arena_bounce::input::{idle_input, InputSnapshot};
use arena_bounce::level::{init_position_player, Level, Obstacle, Triangle, world_transform};
use arena_bounce::player::{coordinate_display_values, spawn_player, Player};
use arena_bounce::tick::{tick, tick_optional};
use arena_bounce::vec2::Vec2;

fn arena() -> Level {
    Level {
        min: Vec2 { x: 0, y: 0 },
        max: Vec2 { x: 1_920_000_000, y: 1_080_000_000 },
    }
}

#[test]
fn spawn_starts_at_rest_with_base_radius() {
    let p = spawn_player();
    assert_eq!(p.radius, 50_000_000);
    assert_eq!(p.scale, UNIT);
    assert_eq!(p.velocity.x, 0);
    assert_eq!(p.velocity.y, 0);
    assert_eq!(p.spin, 0);
    assert_eq!(p.rotation, 0);
}

#[test]
fn init_position_centers_the_body() {
    let level = arena();
    let mut p = spawn_player();
    init_position_player(&mut p, &level);
    assert_eq!(p.position.x, 960_000_000);
    assert_eq!(p.position.y, 540_000_000);
}

#[test]
fn coordinate_display_rounds_to_whole_units() {
    let mut p = spawn_player();
    p.position = Vec2 { x: 960_400_000, y: -2_500_000 };
    let (x, y) = coordinate_display_values(&p);
    assert_eq!(x, 960);
    assert_eq!(y, -3);
}

#[test]
fn world_transform_places_and_scales_vertices() {
    let obstacle = Obstacle {
        local_vertices: Triangle {
            a: Vec2 { x: 866_025, y: -500_000 },
            b: Vec2 { x: 0, y: 1_000_000 },
            c: Vec2 { x: -866_025, y: -500_000 },
        },
        position: Vec2 { x: 480_000_000, y: 270_000_000 },
        scale: 100_000_000,
    };
    let tri = world_transform(&obstacle);
    assert_eq!(tri.a.x, 566_602_500);
    assert_eq!(tri.a.y, 220_000_000);
    assert_eq!(tri.b.x, 480_000_000);
    assert_eq!(tri.b.y, 370_000_000);
    assert_eq!(tri.c.x, 393_397_500);
    assert_eq!(tri.c.y, 220_000_000);
}

#[test]
fn idle_tick_keeps_a_resting_body_still() {
    let level = arena();
    let obstacles: Vec<Obstacle> = Vec::new();
    let mut p = spawn_player();
    init_position_player(&mut p, &level);
    let collisions = tick(&mut p, &level, &obstacles, &idle_input(), 16_667);
    assert_eq!(collisions.len(), 0);
    assert_eq!(p.position.x, 960_000_000);
    assert_eq!(p.position.y, 540_000_000);
    assert_eq!(p.velocity.x, 0);
    assert_eq!(p.spin, 0);
}

#[test]
fn tick_confines_and_bounces_off_the_wall() {
    // 1500 units per second to the left for a full second: the body would land
    // far outside, is clamped to the wall, and the bounce reverses part of the
    // decayed velocity: -1485 - 2 * -1485 * 0.7 = 594.
    let level = arena();
    let obstacles: Vec<Obstacle> = Vec::new();
    let mut p = spawn_player();
    init_position_player(&mut p, &level);
    p.velocity = Vec2 { x: -1_500_000_000, y: 0 };
    let collisions = tick(&mut p, &level, &obstacles, &idle_input(), 1_000_000);
    assert_eq!(collisions.len(), 1);
    assert_eq!(collisions[0].surface_normal.x, UNIT);
    assert_eq!(p.position.x, 50_000_000);
    assert_eq!(p.position.y, 540_000_000);
    assert_eq!(p.velocity.x, 594_000_000);
    assert_eq!(p.velocity.y, 0);
}

#[test]
fn tick_stays_within_bounds_under_held_input() {
    // Hold left for many ticks: whatever the speed reached, right after each
    // tick without obstacles the center stays within the shrunken arena.
    let level = arena();
    let obstacles: Vec<Obstacle> = Vec::new();
    let mut p = spawn_player();
    init_position_player(&mut p, &level);
    let input = InputSnapshot {
        move_left: true,
        move_right: false,
        move_up: false,
        move_down: false,
        spin_left: false,
        spin_right: false,
        grow_scale: false,
        shrink_scale: false,
    };
    for _ in 0..240 {
        tick(&mut p, &level, &obstacles, &input, 16_667);
        let r = p.radius * p.scale / UNIT;
        assert!(p.position.x >= level.min.x + r);
        assert!(p.position.x <= level.max.x - r);
        assert!(p.position.y >= level.min.y + r);
        assert!(p.position.y <= level.max.y - r);
        // The velocity cap holds after every integration step; the bounce may
        // add to it, but it must stay well within the working bound.
        assert!(p.velocity.x.abs() <= 500_000_000_000_000_000);
    }
}

#[test]
fn absent_body_makes_the_tick_a_no_op() {
    let level = arena();
    let obstacles: Vec<Obstacle> = Vec::new();
    let (body, collisions) = tick_optional(None, &level, &obstacles, &idle_input(), 16_667);
    assert!(body.is_none());
    assert_eq!(collisions.len(), 0);

    let mut spawned = spawn_player();
    init_position_player(&mut spawned, &level);
    let (body, _) = tick_optional(Some(spawned), &level, &obstacles, &idle_input(), 16_667);
    let body = body.unwrap();
    assert_eq!(body.position.x, 960_000_000);
    assert_eq!(body.position.y, 540_000_000);
}

#[test]
fn tick_resolves_an_obstacle_contact() {
    // An obstacle square in the body's path: after the tick the contact has
    // been reported and the body pushed back out along the normal.
    let level = arena();
    let obstacles = vec![Obstacle {
        local_vertices: Triangle {
            a: Vec2 { x: 0, y: 0 },
            b: Vec2 { x: 100_000_000, y: 0 },
            c: Vec2 { x: 50_000_000, y: 100_000_000 },
        },
        position: Vec2 { x: 910_000_000, y: 645_000_000 },
        scale: UNIT,
    }];
    let mut p = spawn_player();
    init_position_player(&mut p, &level);
    // At (960, 540) against the edge from (910, 645) to (1010, 645): the
    // closest point is (960, 645), distance 105, the scaled radius is 50: no
    // contact yet. Move up by 60 units in one tick: distance 45, overlap 5.
    p.velocity = Vec2 { x: 0, y: 60_000_000 };
    let collisions = tick(&mut p, &level, &obstacles, &idle_input(), 1_000_000);
    assert_eq!(collisions.len(), 1);
    assert_eq!(collisions[0].overlap, 5_000_000);
    assert_eq!(collisions[0].surface_normal.x, 0);
    assert_eq!(collisions[0].surface_normal.y, -UNIT);
    // The positional correction moves the center back out by the overlap.
    assert_eq!(p.position.y, 595_000_000);
}
