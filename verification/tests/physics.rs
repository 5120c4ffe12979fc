use arena_bounce::fixed::UNIT;
use arena_bounce::motion::player_movement;
use arena_bounce::player::{Collision, Player};
use arena_bounce::response::respond_collisions;
use arena_bounce::vec2::Vec2;

fn body_at_rest() -> Player {
    Player {
        position: Vec2 { x: 0, y: 0 },
        rotation: 0,
        scale: UNIT,
        velocity: Vec2 { x: 0, y: 0 },
        spin: 0,
        radius: 50_000_000,
    }
}

#[test]
fn velocity_above_cap_is_rescaled() {
    // 3000 units per second is over the 2000 cap: rescaled to exactly 2000 in
    // the same direction, then damped by 0.99.
    let mut p = body_at_rest();
    p.velocity = Vec2 { x: 3_000_000_000, y: 0 };
    player_movement(&mut p, 0);
    assert_eq!(p.velocity.x, 1_980_000_000);
    assert_eq!(p.velocity.y, 0);
}

#[test]
fn velocity_cap_keeps_direction() {
    // A 3-4-5 velocity of magnitude 5000 lands on (1200, 1600), then decays.
    let mut p = body_at_rest();
    p.velocity = Vec2 { x: 3_000_000_000, y: 4_000_000_000 };
    player_movement(&mut p, 0);
    assert_eq!(p.velocity.x, 1_188_000_000);
    assert_eq!(p.velocity.y, 1_584_000_000);
}

#[test]
fn velocity_under_cap_only_decays() {
    let mut p = body_at_rest();
    p.velocity = Vec2 { x: 100_000_000, y: 0 };
    player_movement(&mut p, 0);
    assert_eq!(p.velocity.x, 99_000_000);
}

#[test]
fn displacement_divides_by_scale() {
    // 100 units per second over half a second at scale 1: 50 units; at scale 2
    // the same step moves half as far.
    let mut p = body_at_rest();
    p.velocity = Vec2 { x: 100_000_000, y: 0 };
    player_movement(&mut p, 500_000);
    assert_eq!(p.position.x, 50_000_000);

    let mut q = body_at_rest();
    q.scale = 2_000_000;
    q.velocity = Vec2 { x: 100_000_000, y: 0 };
    player_movement(&mut q, 500_000);
    assert_eq!(q.position.x, 25_000_000);
}

#[test]
fn spin_above_cap_is_clamped() {
    // Cap at scale 1 is 60; 1000 clamps to 60, then decays to 59.4.
    let mut p = body_at_rest();
    p.spin = 1_000_000_000;
    player_movement(&mut p, 0);
    assert_eq!(p.spin, 59_400_000);

    let mut q = body_at_rest();
    q.spin = -1_000_000_000;
    player_movement(&mut q, 0);
    assert_eq!(q.spin, -59_400_000);
}

#[test]
fn spin_cap_grows_as_scale_shrinks() {
    // Cap at scale 0.5 is 120.
    let mut p = body_at_rest();
    p.scale = 500_000;
    p.spin = 200_000_000;
    player_movement(&mut p, 0);
    assert_eq!(p.spin, 118_800_000);
}

#[test]
fn rotation_integrates_and_wraps() {
    // 1 radian per second for one second.
    let mut p = body_at_rest();
    p.spin = 1_000_000;
    player_movement(&mut p, 1_000_000);
    assert_eq!(p.rotation, 1_000_000);

    // 7 radians in one tick wraps past a full turn of ~6.283185.
    let mut q = body_at_rest();
    q.spin = 7_000_000;
    player_movement(&mut q, 1_000_000);
    assert_eq!(q.rotation, 716_815);
}

#[test]
fn bounce_reflects_and_damps() {
    // velocity (100, 0) against normal (1, 0) with damping 0.7:
    // 100 - 2*100*1*0.7 = -40, and zero spin stays zero.
    let mut p = body_at_rest();
    p.velocity = Vec2 { x: 100_000_000, y: 0 };
    let collisions = vec![Collision {
        overlap: 0,
        surface_normal: Vec2 { x: UNIT, y: 0 },
    }];
    respond_collisions(&mut p, &collisions);
    assert_eq!(p.velocity.x, -40_000_000);
    assert_eq!(p.velocity.y, 0);
    assert_eq!(p.spin, 0);
    assert_eq!(p.position.x, 0);
    assert_eq!(p.position.y, 0);
}

#[test]
fn bounce_turns_tangential_speed_into_spin() {
    // Tangential velocity (100, 0) against normal (0, 1): the cross term is
    // 100, scaled by 0.005 into a spin change of -0.5.
    let mut p = body_at_rest();
    p.velocity = Vec2 { x: 100_000_000, y: 0 };
    let collisions = vec![Collision {
        overlap: 0,
        surface_normal: Vec2 { x: 0, y: UNIT },
    }];
    respond_collisions(&mut p, &collisions);
    assert_eq!(p.spin, -500_000);
    // No normal component of velocity: the reflection term vanishes.
    assert_eq!(p.velocity.x, 100_000_000);
    assert_eq!(p.velocity.y, 0);
}

#[test]
fn bounce_spin_deflects_velocity() {
    // Spin 1 against normal (0, 1): the deflection is 50 * (spin * n.y, 0).
    let mut p = body_at_rest();
    p.spin = 1_000_000;
    let collisions = vec![Collision {
        overlap: 0,
        surface_normal: Vec2 { x: 0, y: UNIT },
    }];
    respond_collisions(&mut p, &collisions);
    assert_eq!(p.velocity.x, -50_000_000);
    assert_eq!(p.velocity.y, 0);
}

#[test]
fn bounce_overlap_pushes_position_out() {
    let mut p = body_at_rest();
    let collisions = vec![Collision {
        overlap: 5_000_000,
        surface_normal: Vec2 { x: 0, y: -UNIT },
    }];
    respond_collisions(&mut p, &collisions);
    assert_eq!(p.position.x, 0);
    assert_eq!(p.position.y, -5_000_000);
}

#[test]
fn simultaneous_contacts_read_one_snapshot() {
    // Two opposite wall contacts in one tick: both impulses read the same
    // pre-collision velocity of 100, so each one subtracts the same
    // 2 * 100 * 0.7 = 140 regardless of the other's effect.
    let mut p = body_at_rest();
    p.velocity = Vec2 { x: 100_000_000, y: 0 };
    let collisions = vec![
        Collision { overlap: 0, surface_normal: Vec2 { x: UNIT, y: 0 } },
        Collision { overlap: 0, surface_normal: Vec2 { x: -UNIT, y: 0 } },
    ];
    respond_collisions(&mut p, &collisions);
    assert_eq!(p.velocity.x, -180_000_000);
    assert_eq!(p.velocity.y, 0);
}
