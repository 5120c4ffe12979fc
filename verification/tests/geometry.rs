use arena_bounce::fixed::{div_trunc, isqrt, UNIT};
use arena_bounce::level::{Obstacle, Triangle};
use arena_bounce::obstacles::{circle_intersects_line_segment, circle_triangle_collision,
    collide_obstacles, point_in_triangle};
use arena_bounce::player::Player;
use arena_bounce::vec2::{normalize, Vec2};

fn unit_triangle() -> Triangle {
    // Vertices (0, 0), (100, 0), (50, 100) in world units.
    Triangle {
        a: Vec2 { x: 0, y: 0 },
        b: Vec2 { x: 100_000_000, y: 0 },
        c: Vec2 { x: 50_000_000, y: 100_000_000 },
    }
}

#[test]
fn edge_overlap_reported_exactly() {
    // Circle at (50, -5) with radius 10: closest point on the bottom edge is
    // (50, 0), distance 5, so the overlap is exactly 5 world units.
    let center = Vec2 { x: 50_000_000, y: -5_000_000 };
    let tri = unit_triangle();
    let collisions = circle_triangle_collision(center, 10_000_000, &tri);
    assert_eq!(collisions.len(), 1);
    assert_eq!(collisions[0].overlap, 5_000_000);
    // The bottom edge's outward normal points straight down, exactly unit.
    assert_eq!(collisions[0].surface_normal.x, 0);
    assert_eq!(collisions[0].surface_normal.y, -1_000_000);
}

#[test]
fn contained_center_short_circuits() {
    // Center strictly inside: no collision regardless of radius.
    let center = Vec2 { x: 50_000_000, y: 30_000_000 };
    let tri = unit_triangle();
    let collisions = circle_triangle_collision(center, 1_000_000_000, &tri);
    assert_eq!(collisions.len(), 0);
}

#[test]
fn point_in_triangle_cases() {
    let tri = unit_triangle();
    assert!(point_in_triangle(Vec2 { x: 50_000_000, y: 30_000_000 }, &tri));
    assert!(!point_in_triangle(Vec2 { x: 50_000_000, y: -5_000_000 }, &tri));
    // A point exactly on an edge counts as inside.
    assert!(point_in_triangle(Vec2 { x: 50_000_000, y: 0 }, &tri));
}

#[test]
fn segment_overlap_at_endpoints_and_middle() {
    let p1 = Vec2 { x: 0, y: 0 };
    let p2 = Vec2 { x: 100_000_000, y: 0 };
    // Closest point clamped to the p1 end: center at (-30, 40), distance 50.
    let o = circle_intersects_line_segment(Vec2 { x: -30_000_000, y: 40_000_000 }, 60_000_000,
        p1, p2);
    assert_eq!(o, 10_000_000);
    // Closest point in the middle.
    let o = circle_intersects_line_segment(Vec2 { x: 50_000_000, y: -5_000_000 }, 10_000_000,
        p1, p2);
    assert_eq!(o, 5_000_000);
    // No overlap: negative result.
    let o = circle_intersects_line_segment(Vec2 { x: 50_000_000, y: -20_000_000 }, 10_000_000,
        p1, p2);
    assert_eq!(o, -10_000_000);
}

#[test]
fn degenerate_segment_reports_no_overlap() {
    let p = Vec2 { x: 7_000_000, y: 7_000_000 };
    let o = circle_intersects_line_segment(Vec2 { x: 7_000_000, y: 7_000_000 },
        1_000_000_000, p, p);
    assert_eq!(o, 0);
}

#[test]
fn collide_obstacles_finds_edge_contact() {
    // An obstacle at the origin with scale one reproduces the bare triangle.
    let obstacle = Obstacle {
        local_vertices: unit_triangle(),
        position: Vec2 { x: 0, y: 0 },
        scale: UNIT,
    };
    let player = Player {
        position: Vec2 { x: 50_000_000, y: -5_000_000 },
        rotation: 0,
        scale: UNIT,
        velocity: Vec2 { x: 0, y: 0 },
        spin: 0,
        radius: 10_000_000,
    };
    let obstacles = vec![obstacle];
    let collisions = collide_obstacles(&player, &obstacles);
    assert_eq!(collisions.len(), 1);
    assert_eq!(collisions[0].overlap, 5_000_000);
    assert_eq!(collisions[0].surface_normal.y, -1_000_000);
}

#[test]
fn slanted_edge_normal_is_normalized() {
    // An edge from (0,0) to (80,60) (length 100): the circle sits 45 units out
    // along the outward perpendicular (0.6, -0.8) from the edge midpoint, so a
    // radius of 50 overlaps by exactly 5, and the emitted normal is the
    // normalized perpendicular (0.6, -0.8).
    let tri = Triangle {
        a: Vec2 { x: 0, y: 0 },
        b: Vec2 { x: 80_000_000, y: 60_000_000 },
        c: Vec2 { x: -60_000_000, y: 80_000_000 },
    };
    let center = Vec2 { x: 67_000_000, y: -6_000_000 };
    let collisions = circle_triangle_collision(center, 50_000_000, &tri);
    assert_eq!(collisions.len(), 1);
    assert_eq!(collisions[0].overlap, 5_000_000);
    assert_eq!(collisions[0].surface_normal.x, 600_000);
    assert_eq!(collisions[0].surface_normal.y, -800_000);
}

#[test]
fn normalize_lands_on_unit_circle() {
    // A 3-4-5 direction normalizes exactly.
    let n = normalize(Vec2 { x: 3_000_000, y: 4_000_000 });
    assert_eq!(n.x, 600_000);
    assert_eq!(n.y, 800_000);
    let magnitude_sq = n.x * n.x + n.y * n.y;
    assert_eq!(magnitude_sq, 1_000_000_000_000);
}

#[test]
fn isqrt_basics() {
    assert_eq!(isqrt(0), 0);
    assert_eq!(isqrt(3), 1);
    assert_eq!(isqrt(4), 2);
    assert_eq!(isqrt(9_000_000_000_000_000_000), 3_000_000_000);
    assert_eq!(isqrt(u128::MAX), u64::MAX as u128);
}

#[test]
fn div_trunc_rounds_toward_zero() {
    assert_eq!(div_trunc(7, 2), 3);
    assert_eq!(div_trunc(-7, 2), -3);
    assert_eq!(div_trunc(0, 5), 0);
}
