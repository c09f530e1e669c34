use flowfield::field::FlowField;
use flowfield::particles::{integrate, ParticlesSOA};
use flowfield::vec2::Vec2;
use flowfield::{CANVAS_HEIGHT, CANVAS_WIDTH, FIELD_LEN, PARTICLE_COUNT, SPEED_BOUND_SQ};

fn uniform_field(x: i64, y: i64) -> FlowField {
    let mut cells = Vec::new();
    for _ in 0..FIELD_LEN {
        cells.push(Vec2 { x, y });
    }
    FlowField::from_cells(cells).unwrap()
}

fn single_particle(pos: Vec2, vel: Vec2) -> ParticlesSOA {
    ParticlesSOA::with_state(vec![pos], vec![vel]).unwrap()
}

#[test]
fn startup_population_is_at_rest_inside_the_canvas() {
    let particles = ParticlesSOA::new();
    assert_eq!(particles.len(), PARTICLE_COUNT);
    for i in 0..particles.len() {
        let p = particles.position(i);
        assert!(0 <= p.x && p.x < CANVAS_WIDTH);
        assert!(0 <= p.y && p.y < CANVAS_HEIGHT);
        assert_eq!(particles.velocity(i), Vec2 { x: 0, y: 0 });
        assert_eq!(particles.acceleration(i), Vec2 { x: 0, y: 0 });
    }
}

#[test]
fn with_state_rejects_bad_input() {
    assert!(ParticlesSOA::with_state(vec![Vec2 { x: 0, y: 0 }], vec![]).is_none());
    assert!(
        ParticlesSOA::with_state(vec![Vec2 { x: -1, y: 0 }], vec![Vec2 { x: 0, y: 0 }]).is_none()
    );
    assert!(ParticlesSOA::with_state(
        vec![Vec2 { x: 0, y: CANVAS_HEIGHT + 1 }],
        vec![Vec2 { x: 0, y: 0 }]
    )
    .is_none());
    assert!(
        ParticlesSOA::with_state(vec![Vec2 { x: 0, y: 0 }], vec![Vec2 { x: 10_002, y: 0 }])
            .is_none()
    );
    assert!(ParticlesSOA::with_state(
        vec![Vec2 { x: 0, y: 0 }],
        vec![Vec2 { x: 7100, y: -7100 }]
    )
    .is_none());
}

#[test]
fn one_step_from_rest_at_the_center() {
    // a single particle resting at the canvas center, over a field whose
    // cell holds the vector (3, 4) pixels, stepped with dt of a tenth:
    // the acceleration momentarily becomes (0.3, 0.4), the velocity
    // (0.03, 0.04) — far below the clamp — and the position moves to
    // (450.003, 450.004); the accumulator is reset to zero.
    let mut particles = single_particle(Vec2 { x: 450_000, y: 450_000 }, Vec2 { x: 0, y: 0 });
    let field = uniform_field(3000, 4000);
    integrate(&mut particles, &field, 100);
    assert_eq!(particles.velocity(0), Vec2 { x: 30, y: 40 });
    assert_eq!(particles.position(0), Vec2 { x: 450_003, y: 450_004 });
    assert_eq!(particles.acceleration(0), Vec2 { x: 0, y: 0 });
}

#[test]
fn integrate_clamps_a_fast_velocity() {
    // the velocity reaches magnitude 10.0481... pixels per step and is
    // rescaled onto the limit, rounding each component toward zero
    let mut particles = single_particle(Vec2 { x: 450_000, y: 450_000 }, Vec2 { x: 8000, y: 6000 });
    let field = uniform_field(3000, 4000);
    integrate(&mut particles, &field, 100);
    assert_eq!(particles.velocity(0), Vec2 { x: 7991, y: 6011 });
    let v = particles.velocity(0);
    assert!(v.x * v.x + v.y * v.y <= SPEED_BOUND_SQ);
}

#[test]
fn speed_stays_bounded_over_many_steps() {
    let mut particles = ParticlesSOA::new();
    let field = uniform_field(5000, 0);
    for _ in 0..300 {
        integrate(&mut particles, &field, 100);
        for i in 0..particles.len() {
            let v = particles.velocity(i);
            assert!(v.x * v.x + v.y * v.y <= SPEED_BOUND_SQ);
        }
    }
}

#[test]
fn acceleration_is_reset_after_every_step() {
    let mut particles = ParticlesSOA::new();
    let field = uniform_field(-3000, 4000);
    for _ in 0..5 {
        integrate(&mut particles, &field, 100);
        for i in 0..particles.len() {
            assert_eq!(particles.acceleration(i), Vec2 { x: 0, y: 0 });
        }
    }
}

#[test]
fn positions_stay_inside_the_canvas_or_on_its_far_edges() {
    let mut particles = ParticlesSOA::new();
    let field = uniform_field(5000, 0);
    for _ in 0..200 {
        integrate(&mut particles, &field, 100);
        for i in 0..particles.len() {
            let p = particles.position(i);
            assert!(0 <= p.x && p.x <= CANVAS_WIDTH);
            assert!(0 <= p.y && p.y <= CANVAS_HEIGHT);
        }
    }
}

#[test]
fn a_particle_wraps_from_the_right_edge() {
    // fast rightward particle just inside the right edge: one step of 1.0
    // pixel crosses the edge and wraps to the left
    let mut particles = single_particle(
        Vec2 { x: CANVAS_WIDTH - 500, y: 450_000 },
        Vec2 { x: 10_000, y: 0 },
    );
    let field = uniform_field(3000, 4000);
    integrate(&mut particles, &field, 100);
    let p = particles.position(0);
    assert_eq!(p.x, 0);
}
