use flowfield::math::{isqrt, scaled, sdiv_exec};
use flowfield::motion::{clamp_velocity, flat_index, wrap_coord};
use flowfield::vec2::Vec2;
use flowfield::{CANVAS_HEIGHT, CANVAS_WIDTH, COLS, ROWS};

#[test]
fn wraparound_left_edge_goes_to_far_edge() {
    // a coordinate of -0.001 pixels wraps to the full canvas width
    assert_eq!(wrap_coord(-1, CANVAS_WIDTH), CANVAS_WIDTH);
    assert_eq!(wrap_coord(-10_001, CANVAS_WIDTH), CANVAS_WIDTH);
}

#[test]
fn wraparound_far_edge_goes_to_zero() {
    assert_eq!(wrap_coord(CANVAS_WIDTH, CANVAS_WIDTH), 0);
    assert_eq!(wrap_coord(CANVAS_WIDTH + 1, CANVAS_WIDTH), 0);
}

#[test]
fn wraparound_keeps_interior_points() {
    assert_eq!(wrap_coord(0, CANVAS_WIDTH), 0);
    assert_eq!(wrap_coord(5, CANVAS_WIDTH), 5);
    assert_eq!(wrap_coord(CANVAS_WIDTH - 1, CANVAS_WIDTH), CANVAS_WIDTH - 1);
}

#[test]
fn index_of_origin_is_zero() {
    assert_eq!(flat_index(Vec2 { x: 0, y: 0 }), 0);
}

#[test]
fn index_of_near_corner() {
    // one thousandth of a pixel inside the far corner: the grid coordinates
    // are scaled by ROWS - 1, so the scaled sum stays just below the last
    // cell's index
    let i = flat_index(Vec2 { x: CANVAS_WIDTH - 1, y: CANVAS_HEIGHT - 1 });
    assert_eq!(i, 2498);
    // the far corner itself (both coordinates freshly wrapped onto the far
    // edges) maps to the last cell
    let i = flat_index(Vec2 { x: CANVAS_WIDTH, y: CANVAS_HEIGHT });
    assert_eq!(i, (ROWS - 1) + (COLS - 1) * ROWS);
}

#[test]
fn index_of_center() {
    assert_eq!(flat_index(Vec2 { x: 450_000, y: 450_000 }), 1249);
}

#[test]
fn clamp_leaves_slow_velocities_alone() {
    let v = Vec2 { x: 30, y: 40 };
    assert_eq!(clamp_velocity(v), v);
    let v = Vec2 { x: -9999, y: 0 };
    assert_eq!(clamp_velocity(v), v);
}

#[test]
fn clamp_rescales_onto_the_limit() {
    // 20 pixels per step straight along one axis halves to exactly 10
    assert_eq!(clamp_velocity(Vec2 { x: 20_000, y: 0 }), Vec2 { x: 10_000, y: 0 });
    assert_eq!(clamp_velocity(Vec2 { x: 0, y: -20_000 }), Vec2 { x: 0, y: -10_000 });
    // a 3-4-5 velocity of magnitude 15 rescales to magnitude 10 exactly
    assert_eq!(clamp_velocity(Vec2 { x: 9000, y: 12_000 }), Vec2 { x: 6000, y: 8000 });
}

#[test]
fn clamp_never_exceeds_the_bound() {
    let samples = [
        Vec2 { x: 10_000, y: 1 },
        Vec2 { x: 9999, y: -9999 },
        Vec2 { x: -123_456, y: 654_321 },
        Vec2 { x: 1_000_000, y: -1_000_000 },
        Vec2 { x: 10_001, y: 0 },
    ];
    for v in samples {
        let c = clamp_velocity(v);
        assert!(c.x * c.x + c.y * c.y <= 100_020_001);
    }
}

#[test]
fn isqrt_small_and_large_values() {
    assert_eq!(isqrt(0), 0);
    assert_eq!(isqrt(1), 1);
    assert_eq!(isqrt(2), 1);
    assert_eq!(isqrt(99), 9);
    assert_eq!(isqrt(100), 10);
    assert_eq!(isqrt(100_962_500), 10_048);
    assert_eq!(isqrt(u64::MAX), 4_294_967_295);
}

#[test]
fn scaling_rounds_toward_zero() {
    assert_eq!(scaled(3000, 100), 300);
    assert_eq!(scaled(-3000, 100), -300);
    assert_eq!(scaled(19, 100), 1);
    assert_eq!(scaled(-19, 100), -1);
    assert_eq!(scaled(9, 100), 0);
    assert_eq!(scaled(-9, 100), 0);
    assert_eq!(sdiv_exec(-7, 2), -3);
    assert_eq!(sdiv_exec(7, 2), 3);
}
