use arena_bounce::boundary::confine_player_movement;
use arena_bounce::fixed::UNIT;
use arena_bounce::input::{confine_player_size, idle_input, InputSnapshot, player_acceleration,
    player_rotation, player_size};
use arena_bounce::level::Level;
use arena_bounce::player::Player;
use arena_bounce::vec2::Vec2;

fn arena() -> Level {
    // 1920 by 1080 world units, origin at the lower left corner.
    Level {
        min: Vec2 { x: 0, y: 0 },
        max: Vec2 { x: 1_920_000_000, y: 1_080_000_000 },
    }
}

fn body_at(x: i128, y: i128) -> Player {
    Player {
        position: Vec2 { x, y },
        rotation: 0,
        scale: UNIT,
        velocity: Vec2 { x: 0, y: 0 },
        spin: 0,
        radius: 50_000_000,
    }
}

#[test]
fn low_x_wall_clamps_and_reports() {
    let level = arena();
    let mut p = body_at(-10_000_000, 540_000_000);
    let collisions = confine_player_movement(&mut p, &level);
    // Effective radius 50: clamped to x = 50, inward-pointing unit normal.
    assert_eq!(p.position.x, 50_000_000);
    assert_eq!(p.position.y, 540_000_000);
    assert_eq!(collisions.len(), 1);
    assert_eq!(collisions[0].overlap, 0);
    assert_eq!(collisions[0].surface_normal.x, UNIT);
    assert_eq!(collisions[0].surface_normal.y, 0);
}

#[test]
fn high_walls_clamp_and_report() {
    let level = arena();
    let mut p = body_at(2_000_000_000, 1_100_000_000);
    let collisions = confine_player_movement(&mut p, &level);
    assert_eq!(p.position.x, 1_870_000_000);
    assert_eq!(p.position.y, 1_030_000_000);
    assert_eq!(collisions.len(), 2);
    assert_eq!(collisions[0].surface_normal.x, -UNIT);
    assert_eq!(collisions[0].surface_normal.y, 0);
    assert_eq!(collisions[1].surface_normal.x, 0);
    assert_eq!(collisions[1].surface_normal.y, -UNIT);
}

#[test]
fn corner_contact_yields_two_collisions() {
    let level = arena();
    let mut p = body_at(-10_000_000, -10_000_000);
    let collisions = confine_player_movement(&mut p, &level);
    assert_eq!(p.position.x, 50_000_000);
    assert_eq!(p.position.y, 50_000_000);
    assert_eq!(collisions.len(), 2);
    assert_eq!(collisions[0].surface_normal.x, UNIT);
    assert_eq!(collisions[1].surface_normal.y, UNIT);
}

#[test]
fn interior_position_is_untouched() {
    let level = arena();
    let mut p = body_at(960_000_000, 540_000_000);
    let collisions = confine_player_movement(&mut p, &level);
    assert_eq!(p.position.x, 960_000_000);
    assert_eq!(p.position.y, 540_000_000);
    assert_eq!(collisions.len(), 0);
}

#[test]
fn confinement_is_idempotent() {
    // A second run with no motion in between moves nothing and reports nothing.
    let level = arena();
    let mut p = body_at(-10_000_000, 1_100_000_000);
    let first = confine_player_movement(&mut p, &level);
    assert_eq!(first.len(), 2);
    let held = p.position;
    let second = confine_player_movement(&mut p, &level);
    assert_eq!(second.len(), 0);
    assert_eq!(p.position.x, held.x);
    assert_eq!(p.position.y, held.y);
}

#[test]
fn scaled_radius_narrows_the_allowed_band() {
    // At scale 2 the effective radius doubles to 100 world units.
    let level = arena();
    let mut p = body_at(60_000_000, 540_000_000);
    p.scale = 2_000_000;
    let collisions = confine_player_movement(&mut p, &level);
    assert_eq!(p.position.x, 100_000_000);
    assert_eq!(collisions.len(), 1);
}

#[test]
fn held_movement_keys_add_fixed_acceleration() {
    let mut p = body_at(0, 0);
    let input = InputSnapshot {
        move_left: true,
        move_right: false,
        move_up: true,
        move_down: false,
        spin_left: false,
        spin_right: false,
        grow_scale: false,
        shrink_scale: false,
    };
    player_acceleration(&mut p, &input);
    assert_eq!(p.velocity.x, -50_000_000);
    assert_eq!(p.velocity.y, 50_000_000);
    // Opposite keys held together cancel.
    let both = InputSnapshot { move_right: true, move_up: false, ..input };
    let mut q = body_at(0, 0);
    player_acceleration(&mut q, &both);
    assert_eq!(q.velocity.x, 0);
    assert_eq!(q.velocity.y, 0);
}

#[test]
fn held_spin_keys_add_fixed_increment() {
    let mut p = body_at(0, 0);
    let mut input = idle_input();
    input.spin_left = true;
    player_rotation(&mut p, &input);
    assert_eq!(p.spin, 100_000);
    input.spin_left = false;
    input.spin_right = true;
    player_rotation(&mut p, &input);
    assert_eq!(p.spin, 0);
}

#[test]
fn scale_keys_multiply_and_divide() {
    let mut p = body_at(0, 0);
    let mut input = idle_input();
    input.grow_scale = true;
    player_size(&mut p, &input);
    assert_eq!(p.scale, 1_100_000);
    input.grow_scale = false;
    input.shrink_scale = true;
    player_size(&mut p, &input);
    assert_eq!(p.scale, 1_000_000);
    // Shrinking from scale one truncates.
    player_size(&mut p, &input);
    assert_eq!(p.scale, 909_090);
}

#[test]
fn scale_confiner_clamps_to_range() {
    let mut p = body_at(0, 0);
    p.scale = 2_500_000;
    confine_player_size(&mut p);
    assert_eq!(p.scale, 2_000_000);
    p.scale = 400_000;
    confine_player_size(&mut p);
    assert_eq!(p.scale, 500_000);
    p.scale = 1_500_000;
    confine_player_size(&mut p);
    assert_eq!(p.scale, 1_500_000);
}
