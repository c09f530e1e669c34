use vstd::prelude::*;

use crate::field::FlowField;
use crate::motion::{
    flat_index, spec_flat_index, spec_step_accel, spec_step_position, spec_step_velocity,
    step_one,
};
use crate::vec2::Vec2;
use crate::{
    ACCEL_LIMIT, CANVAS_HEIGHT, CANVAS_WIDTH, DT_LIMIT, PARTICLE_COUNT, SPEED_BOUND,
    SPEED_BOUND_SQ,
};

verus! {

/// A position within the canvas; the far edge itself is included, since a
/// coordinate that was wrapped from the negative side rests exactly on it
/// until the next step.
pub open spec fn pos_ok(p: Vec2) -> bool {
    0 <= p.x <= CANVAS_WIDTH && 0 <= p.y <= CANVAS_HEIGHT
}

/// A velocity within the clamp's worst-case bound.
pub open spec fn vel_ok(v: Vec2) -> bool {
    v.mag_sq() <= SPEED_BOUND_SQ
}

/// A bounded acceleration accumulator.
pub open spec fn acc_ok(a: Vec2) -> bool {
    -ACCEL_LIMIT <= a.x <= ACCEL_LIMIT && -ACCEL_LIMIT <= a.y <= ACCEL_LIMIT
}

/// The particle population, stored as three parallel arrays (a structure of
/// arrays): one entry per particle in each of position, velocity and
/// acceleration.
pub struct ParticlesSOA {
    positions: Vec<Vec2>,
    velocities: Vec<Vec2>,
    accelerations: Vec<Vec2>,
}

/// Relies on `rand::rng` and `rand::RngExt::random_range`: a uniform draw
/// from a nonempty exclusive integer range lies strictly below the bound.
#[verifier::external_body]
fn random_coord(bound: u64) -> (r: u64)
    requires
        0 < bound,
    ensures
        r < bound,
{
    rand::RngExt::random_range(&mut rand::rng(), 0..bound)
}

impl ParticlesSOA {
    /// The particles' positions.
    pub closed spec fn positions(self) -> Seq<Vec2> {
        self.positions@
    }

    /// The particles' velocities.
    pub closed spec fn velocities(self) -> Seq<Vec2> {
        self.velocities@
    }

    /// The particles' acceleration accumulators.
    pub closed spec fn accelerations(self) -> Seq<Vec2> {
        self.accelerations@
    }

    /// The number of particles.
    pub open spec fn count(self) -> nat {
        self.positions().len()
    }

    /// Well-formedness: the three arrays run in parallel, every position is
    /// within the canvas, every velocity within the speed bound and every
    /// acceleration accumulator bounded.
    pub open spec fn wf(self) -> bool {
        &&& self.velocities().len() == self.count()
        &&& self.accelerations().len() == self.count()
        &&& forall|i: int| 0 <= i < self.count() ==> pos_ok(#[trigger] self.positions()[i])
        &&& forall|i: int| 0 <= i < self.count() ==> vel_ok(#[trigger] self.velocities()[i])
        &&& forall|i: int| 0 <= i < self.count() ==> acc_ok(#[trigger] self.accelerations()[i])
    }

    /// Create the startup population: `PARTICLE_COUNT` particles at uniform
    /// random positions strictly inside the canvas, at rest, with nothing
    /// accumulated.
    pub fn new() -> (r: ParticlesSOA)
        ensures
            r.wf(),
            r.count() == PARTICLE_COUNT,
            forall|i: int|
                0 <= i < PARTICLE_COUNT ==> 0 <= #[trigger] r.positions()[i].x < CANVAS_WIDTH
                    && 0 <= r.positions()[i].y < CANVAS_HEIGHT,
            forall|i: int|
                0 <= i < PARTICLE_COUNT ==> #[trigger] r.velocities()[i] == (Vec2 {
                    x: 0i64,
                    y: 0i64,
                }),
            forall|i: int|
                0 <= i < PARTICLE_COUNT ==> #[trigger] r.accelerations()[i] == (Vec2 {
                    x: 0i64,
                    y: 0i64,
                }),
    {
        let mut positions: Vec<Vec2> = Vec::new();
        let mut velocities: Vec<Vec2> = Vec::new();
        let mut accelerations: Vec<Vec2> = Vec::new();
        let mut i: usize = 0;
        while i < PARTICLE_COUNT
            invariant
                0 <= i <= PARTICLE_COUNT,
                positions@.len() == i,
                velocities@.len() == i,
                accelerations@.len() == i,
                forall|j: int|
                    0 <= j < i ==> 0 <= #[trigger] positions@[j].x < CANVAS_WIDTH && 0
                        <= positions@[j].y < CANVAS_HEIGHT,
                forall|j: int|
                    0 <= j < i ==> #[trigger] velocities@[j] == (Vec2 { x: 0i64, y: 0i64 }),
                forall|j: int|
                    0 <= j < i ==> #[trigger] accelerations@[j] == (Vec2 { x: 0i64, y: 0i64 }),
            decreases PARTICLE_COUNT - i,
        {
            let px = random_coord(CANVAS_WIDTH as u64) as i64;
            let py = random_coord(CANVAS_HEIGHT as u64) as i64;
            positions.push(Vec2 { x: px, y: py });
            velocities.push(Vec2::zero());
            accelerations.push(Vec2::zero());
            i += 1;
        }
        ParticlesSOA { positions, velocities, accelerations }
    }

    /// Build a population from prescribed positions and velocities, with
    /// nothing accumulated yet. Succeeds exactly when the two arrays have
    /// the same length, every position is within the canvas and every
    /// velocity within the speed bound.
    pub fn with_state(positions: Vec<Vec2>, velocities: Vec<Vec2>) -> (r: Option<ParticlesSOA>)
        ensures
            match r {
                Some(p) => p.wf() && p.positions() == positions@ && p.velocities() == velocities@
                    && (forall|i: int|
                    0 <= i < p.count() ==> #[trigger] p.accelerations()[i] == (Vec2 {
                        x: 0i64,
                        y: 0i64,
                    })),
                None => positions@.len() != velocities@.len() || (exists|i: int|
                    0 <= i < positions@.len() && !pos_ok(#[trigger] positions@[i])) || (exists|
                    i: int,
                |
                    0 <= i < velocities@.len() && !vel_ok(#[trigger] velocities@[i])),
            },
    {
        let n = positions.len();
        if velocities.len() != n {
            return None;
        }
        let mut accelerations: Vec<Vec2> = Vec::new();
        let mut i: usize = 0;
        while i < n
            invariant
                0 <= i <= n,
                positions@.len() == n,
                velocities@.len() == n,
                accelerations@.len() == i,
                forall|j: int| 0 <= j < i ==> pos_ok(#[trigger] positions@[j]),
                forall|j: int| 0 <= j < i ==> vel_ok(#[trigger] velocities@[j]),
                forall|j: int|
                    0 <= j < i ==> #[trigger] accelerations@[j] == (Vec2 { x: 0i64, y: 0i64 }),
            decreases n - i,
        {
            let p = positions[i];
            if p.x < 0 || p.x > CANVAS_WIDTH || p.y < 0 || p.y > CANVAS_HEIGHT {
                return None;
            }
            let v = velocities[i];
            if v.x < -SPEED_BOUND || v.x > SPEED_BOUND || v.y < -SPEED_BOUND || v.y > SPEED_BOUND {
                proof {
                    assert(v.x * v.x + v.y * v.y > SPEED_BOUND_SQ) by (nonlinear_arith)
                        requires
                            v.x > 10_001 || v.x < -10_001 || v.y > 10_001 || v.y < -10_001,
                    ;
                }
                return None;
            }
            proof {
                assert(0 <= v.x * v.x <= 200_000_000 && 0 <= v.y * v.y <= 200_000_000)
                    by (nonlinear_arith)
                    requires
                        -10_001 <= v.x <= 10_001,
                        -10_001 <= v.y <= 10_001,
                ;
            }
            let m2 = v.x * v.x + v.y * v.y;
            if m2 > SPEED_BOUND_SQ {
                return None;
            }
            accelerations.push(Vec2::zero());
            i += 1;
        }
        Some(ParticlesSOA { positions, velocities, accelerations })
    }

    /// The number of particles.
    pub fn len(&self) -> (n: usize)
        ensures
            n == self.count(),
    {
        self.positions.len()
    }

    /// The position of one particle.
    pub fn position(&self, i: usize) -> (p: Vec2)
        requires
            i < self.count(),
        ensures
            p == self.positions()[i as int],
    {
        self.positions[i]
    }

    /// The velocity of one particle.
    pub fn velocity(&self, i: usize) -> (v: Vec2)
        requires
            i < self.count(),
            self.wf(),
        ensures
            v == self.velocities()[i as int],
    {
        self.velocities[i]
    }

    /// The acceleration accumulator of one particle.
    pub fn acceleration(&self, i: usize) -> (a: Vec2)
        requires
            i < self.count(),
            self.wf(),
        ensures
            a == self.accelerations()[i as int],
    {
        self.accelerations[i]
    }
}

/// How one particle of the population advances in one step: the field cell
/// under its position feeds the acceleration, the acceleration the velocity
/// (then clamped), the velocity the position (then wrapped), and the
/// acceleration accumulator is reset to zero.
pub open spec fn stepped(
    pre: ParticlesSOA,
    post: ParticlesSOA,
    field: FlowField,
    dt: int,
    i: int,
) -> bool {
    let p = pre.positions()[i];
    let v = pre.velocities()[i];
    let a = pre.accelerations()[i];
    let f = field.cells()[spec_flat_index(p.x as int, p.y as int)];
    let (ax1, ay1) = spec_step_accel(a.x as int, a.y as int, f.x as int, f.y as int, dt);
    let (vx2, vy2) = spec_step_velocity(v.x as int, v.y as int, ax1, ay1, dt);
    let (px2, py2) = spec_step_position(p.x as int, p.y as int, vx2, vy2, dt);
    &&& post.positions()[i].x == px2
    &&& post.positions()[i].y == py2
    &&& post.velocities()[i].x == vx2
    &&& post.velocities()[i].y == vy2
    &&& post.accelerations()[i] == (Vec2 { x: 0i64, y: 0i64 })
}

/// Advance every particle of the population by one step of length `dt`
/// against the current field snapshot, independently and in place.
/// Afterwards every velocity is within the speed bound and every
/// acceleration accumulator is zero again.
pub fn integrate(particles: &mut ParticlesSOA, field: &FlowField, dt: i64)
    requires
        old(particles).wf(),
        field.wf(),
        0 <= dt <= DT_LIMIT,
    ensures
        final(particles).wf(),
        final(particles).count() == old(particles).count(),
        forall|i: int|
            0 <= i < old(particles).count() ==> stepped(
                *old(particles),
                *final(particles),
                *field,
                dt as int,
                i,
            ),
        forall|i: int|
            0 <= i < old(particles).count() ==> #[trigger] final(particles).accelerations()[i]
                == (Vec2 { x: 0i64, y: 0i64 }),
        forall|i: int|
            0 <= i < old(particles).count() ==> (#[trigger] final(particles).velocities()[i]).mag_sq() <= SPEED_BOUND_SQ,
{
    let n = particles.positions.len();
    let mut i: usize = 0;
    while i < n
        invariant
            0 <= i <= n,
            n == old(particles).count(),
            particles.count() == n,
            particles.wf(),
            old(particles).wf(),
            field.wf(),
            0 <= dt <= DT_LIMIT,
            forall|j: int|
                i <= j < n ==> #[trigger] particles.positions()[j] == old(particles).positions()[j],
            forall|j: int|
                i <= j < n ==> #[trigger] particles.velocities()[j] == old(particles).velocities()[j],
            forall|j: int|
                i <= j < n ==> #[trigger] particles.accelerations()[j] == old(particles).accelerations()[j],
            forall|j: int| 0 <= j < i ==> stepped(*old(particles), *particles, *field, dt as int, j),
        decreases n - i,
    {
        let ghost snap: ParticlesSOA = *particles;
        let p = particles.positions[i];
        let v = particles.velocities[i];
        let a = particles.accelerations[i];
        let idx = flat_index(p);
        let f = field.cell(idx);
        let (p2, v2) = step_one(p, v, a, f, dt);
        particles.positions[i] = p2;
        particles.velocities[i] = v2;
        particles.accelerations[i] = Vec2::zero();
        proof {
            assert(particles.positions() == snap.positions().update(i as int, p2));
            assert(particles.velocities() == snap.velocities().update(i as int, v2));
            assert(particles.accelerations() == snap.accelerations().update(
                i as int,
                (Vec2 { x: 0i64, y: 0i64 }),
            ));
            assert forall|j: int| 0 <= j < i + 1 implies stepped(
                *old(particles),
                *particles,
                *field,
                dt as int,
                j,
            ) by {
                if j < i {
                    assert(stepped(*old(particles), snap, *field, dt as int, j));
                    assert(particles.positions()[j] == snap.positions()[j]);
                    assert(particles.velocities()[j] == snap.velocities()[j]);
                    assert(particles.accelerations()[j] == snap.accelerations()[j]);
                } else {
                    assert(particles.positions()[j] == p2);
                    assert(particles.velocities()[j] == v2);
                }
            }
        }
        i += 1;
    }
    proof {
        assert forall|k: int| 0 <= k < old(particles).count() implies #[trigger] particles
            .accelerations()[k] == (Vec2 { x: 0i64, y: 0i64 }) by {
            assert(stepped(*old(particles), *particles, *field, dt as int, k));
        }
    }
}

} // verus!
