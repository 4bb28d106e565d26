//! Semi-implicit Euler integration of a point mass.

use vstd::prelude::*;

use crate::fixed::{div_t, mul_div, mul_div_spec, SCALE};
use crate::geometry::Vec2;

verus! {

/// The acceleration a force produces on a mass: `force / mass` in
/// fixed-point arithmetic.
pub open spec fn accel_of(force: int, mass: int) -> int {
    mul_div_spec(force, SCALE as int, mass)
}

/// The velocity gained over `dt` seconds under acceleration `a`.
pub open spec fn dvel_of(a: int, dt: int) -> int {
    mul_div_spec(a, dt, SCALE as int)
}

/// The position drift over `dt` seconds: the old velocity's contribution
/// plus half the given velocity delta's contribution. The caller chooses
/// which axis's velocity delta feeds the second term (see
/// [`PhysicsPoint::update`]).
pub open spec fn drift_of(v_old: int, dv: int, dt: int) -> int {
    mul_div_spec(v_old, dt, SCALE as int) + div_t(mul_div_spec(dv, dt, SCALE as int), 2)
}

/// All intermediate values of one integration step over state
/// `(px, py, vx, vy)` under force `(fx, fy)` and mass `m` fit in an
/// `i64`: a machine limit, not a physical one.
pub open spec fn step_fits(
    px: int,
    py: int,
    vx: int,
    vy: int,
    fx: int,
    fy: int,
    m: int,
    dt: int,
) -> bool {
    let ax = accel_of(fx, m);
    let ay = accel_of(fy, m);
    let dvx = dvel_of(ax, dt);
    let dvy = dvel_of(ay, dt);
    &&& i64::MIN <= ax <= i64::MAX
    &&& i64::MIN <= ay <= i64::MAX
    &&& i64::MIN <= dvx <= i64::MAX
    &&& i64::MIN <= dvy <= i64::MAX
    &&& i64::MIN <= vx + dvx <= i64::MAX
    &&& i64::MIN <= vy + dvy <= i64::MAX
    &&& i64::MIN <= mul_div_spec(vx, dt, SCALE as int) <= i64::MAX
    &&& i64::MIN <= mul_div_spec(vy, dt, SCALE as int) <= i64::MAX
    &&& i64::MIN <= mul_div_spec(dvx, dt, SCALE as int) <= i64::MAX
    &&& i64::MIN <= drift_of(vx, dvx, dt) <= i64::MAX
    &&& i64::MIN <= drift_of(vy, dvx, dt) <= i64::MAX
    &&& i64::MIN <= px + drift_of(vx, dvx, dt) <= i64::MAX
    &&& i64::MIN <= py + drift_of(vy, dvx, dt) <= i64::MAX
}

/// [`step_fits`] over a body's own state and force.
pub open spec fn update_fits(p: PhysicsPoint, dt: int) -> bool {
    step_fits(
        p.position.x as int,
        p.position.y as int,
        p.velocity.x as int,
        p.velocity.y as int,
        p.force.x as int,
        p.force.y as int,
        p.mass as int,
        dt,
    )
}

/// A point mass: position, velocity, acceleration and the net force applied
/// for the current tick. The mass is a positive fixed-point scalar.
///
/// The force is a per-tick input: [`PhysicsPoint::update`] does not clear
/// it, so the owner sets it anew each tick or the old force persists.
#[derive(Clone, Copy, PartialEq, Eq, Structural, Debug)]
pub struct PhysicsPoint {
    pub position: Vec2,
    pub velocity: Vec2,
    pub acceleration: Vec2,
    pub force: Vec2,
    pub mass: i64,
}

impl PhysicsPoint {
    /// A body at rest at `position`.
    pub fn new(position: Vec2, mass: i64) -> (r: PhysicsPoint)
        ensures
            r.position == position,
            r.velocity.x == 0 && r.velocity.y == 0,
            r.acceleration.x == 0 && r.acceleration.y == 0,
            r.force.x == 0 && r.force.y == 0,
            r.mass == mass,
    {
        PhysicsPoint {
            position,
            velocity: Vec2 { x: 0, y: 0 },
            acceleration: Vec2 { x: 0, y: 0 },
            force: Vec2 { x: 0, y: 0 },
            mass,
        }
    }

    pub fn mass(&self) -> (r: i64)
        ensures
            r == self.mass,
    {
        self.mass
    }

    pub fn force(&self) -> (r: Vec2)
        ensures
            r == self.force,
    {
        self.force
    }

    pub fn acceleration(&self) -> (r: Vec2)
        ensures
            r == self.acceleration,
    {
        self.acceleration
    }

    pub fn velocity(&self) -> (r: Vec2)
        ensures
            r == self.velocity,
    {
        self.velocity
    }

    pub fn position(&self) -> (r: Vec2)
        ensures
            r == self.position,
    {
        self.position
    }

    pub fn mass_mut(&mut self) -> (r: &mut i64)
        ensures
            *r == old(self).mass,
            *final(self) == (PhysicsPoint { mass: *final(r), ..*old(self) }),
    {
        &mut self.mass
    }

    pub fn force_mut(&mut self) -> (r: &mut Vec2)
        ensures
            *r == old(self).force,
            *final(self) == (PhysicsPoint { force: *final(r), ..*old(self) }),
    {
        &mut self.force
    }

    pub fn velocity_mut(&mut self) -> (r: &mut Vec2)
        ensures
            *r == old(self).velocity,
            *final(self) == (PhysicsPoint { velocity: *final(r), ..*old(self) }),
    {
        &mut self.velocity
    }

    pub fn acceleration_mut(&mut self) -> (r: &mut Vec2)
        ensures
            *r == old(self).acceleration,
            *final(self) == (PhysicsPoint { acceleration: *final(r), ..*old(self) }),
    {
        &mut self.acceleration
    }

    pub fn position_mut(&mut self) -> (r: &mut Vec2)
        ensures
            *r == old(self).position,
            *final(self) == (PhysicsPoint { position: *final(r), ..*old(self) }),
    {
        &mut self.position
    }

    /// Add `force` to the net force and recompute the acceleration as
    /// `force / mass`.
    pub fn apply_force(&mut self, force: Vec2)
        requires
            old(self).mass >= 1,
            i64::MIN <= old(self).force.x + force.x <= i64::MAX,
            i64::MIN <= old(self).force.y + force.y <= i64::MAX,
            i64::MIN <= accel_of(old(self).force.x + force.x, old(self).mass as int) <= i64::MAX,
            i64::MIN <= accel_of(old(self).force.y + force.y, old(self).mass as int) <= i64::MAX,
        ensures
            final(self).force.x == old(self).force.x + force.x,
            final(self).force.y == old(self).force.y + force.y,
            final(self).acceleration.x == accel_of(final(self).force.x as int, old(self).mass as int),
            final(self).acceleration.y == accel_of(final(self).force.y as int, old(self).mass as int),
            final(self).position == old(self).position,
            final(self).velocity == old(self).velocity,
            final(self).mass == old(self).mass,
    {
        let f = Vec2 { x: self.force.x + force.x, y: self.force.y + force.y };
        self.set_force(f);
    }

    /// Replace the net force and recompute the acceleration as
    /// `force / mass`.
    pub fn set_force(&mut self, force: Vec2)
        requires
            old(self).mass >= 1,
            i64::MIN <= accel_of(force.x as int, old(self).mass as int) <= i64::MAX,
            i64::MIN <= accel_of(force.y as int, old(self).mass as int) <= i64::MAX,
        ensures
            final(self).force == force,
            final(self).acceleration.x == accel_of(force.x as int, old(self).mass as int),
            final(self).acceleration.y == accel_of(force.y as int, old(self).mass as int),
            final(self).position == old(self).position,
            final(self).velocity == old(self).velocity,
            final(self).mass == old(self).mass,
    {
        self.force = force;
        self.acceleration = Vec2 {
            x: mul_div(self.force.x, SCALE, self.mass),
            y: mul_div(self.force.y, SCALE, self.mass),
        };
    }

    /// Add `velocity` to the current velocity.
    pub fn apply_velocity(&mut self, velocity: Vec2)
        requires
            i64::MIN <= old(self).velocity.x + velocity.x <= i64::MAX,
            i64::MIN <= old(self).velocity.y + velocity.y <= i64::MAX,
        ensures
            final(self).velocity.x == old(self).velocity.x + velocity.x,
            final(self).velocity.y == old(self).velocity.y + velocity.y,
            *final(self) == (PhysicsPoint { velocity: final(self).velocity, ..*old(self) }),
    {
        self.velocity = Vec2 { x: self.velocity.x + velocity.x, y: self.velocity.y + velocity.y };
    }

    /// Replace the current velocity.
    pub fn set_velocity(&mut self, velocity: Vec2)
        ensures
            *final(self) == (PhysicsPoint { velocity, ..*old(self) }),
    {
        self.velocity = velocity;
    }

    /// Move the position by `direction`.
    pub fn translate(&mut self, direction: Vec2)
        requires
            i64::MIN <= old(self).position.x + direction.x <= i64::MAX,
            i64::MIN <= old(self).position.y + direction.y <= i64::MAX,
        ensures
            final(self).position.x == old(self).position.x + direction.x,
            final(self).position.y == old(self).position.y + direction.y,
            *final(self) == (PhysicsPoint { position: final(self).position, ..*old(self) }),
    {
        self.position = Vec2 { x: self.position.x + direction.x, y: self.position.y + direction.y };
    }

    /// Replace the position.
    pub fn set_position(&mut self, position: Vec2)
        ensures
            *final(self) == (PhysicsPoint { position, ..*old(self) }),
    {
        self.position = position;
    }

    /// One semi-implicit Euler step over `dt` seconds (fixed-point):
    /// the acceleration is recomputed as `force / mass`, the velocity
    /// gains `acceleration * dt`, and each position axis gains
    /// `old_velocity * dt + dv * dt / 2`.
    ///
    /// Both position axes take their `dv` term from the x axis's velocity
    /// delta. That asymmetry is a deliberate part of this integrator's
    /// behavior contract; callers relying on exact trajectories must not
    /// correct it.
    pub fn update(&mut self, dt: i64)
        requires
            dt >= 0,
            old(self).mass >= 1,
            update_fits(*old(self), dt as int),
        ensures
            final(self).mass == old(self).mass,
            final(self).force == old(self).force,
            final(self).acceleration.x == accel_of(old(self).force.x as int, old(self).mass as int),
            final(self).acceleration.y == accel_of(old(self).force.y as int, old(self).mass as int),
            final(self).velocity.x == old(self).velocity.x + dvel_of(
                final(self).acceleration.x as int,
                dt as int,
            ),
            final(self).velocity.y == old(self).velocity.y + dvel_of(
                final(self).acceleration.y as int,
                dt as int,
            ),
            final(self).position.x == old(self).position.x + drift_of(
                old(self).velocity.x as int,
                dvel_of(final(self).acceleration.x as int, dt as int),
                dt as int,
            ),
            final(self).position.y == old(self).position.y + drift_of(
                old(self).velocity.y as int,
                dvel_of(final(self).acceleration.x as int, dt as int),
                dt as int,
            ),
    {
        self.acceleration = Vec2 {
            x: mul_div(self.force.x, SCALE, self.mass),
            y: mul_div(self.force.y, SCALE, self.mass),
        };

        let old_velocity = self.velocity;
        let deltavelocity_x = mul_div(self.acceleration.x, dt, SCALE);
        let deltavelocity_y = mul_div(self.acceleration.y, dt, SCALE);

        self.velocity = Vec2 {
            x: self.velocity.x + deltavelocity_x,
            y: self.velocity.y + deltavelocity_y,
        };

        let half_drift = mul_div(mul_div(deltavelocity_x, dt, SCALE), 1, 2);
        self.position = Vec2 {
            x: self.position.x + (mul_div(old_velocity.x, dt, SCALE) + half_drift),
            y: self.position.y + (mul_div(old_velocity.y, dt, SCALE) + half_drift),
        };
    }
}

/// A body at rest under zero net force is a fixed point of the integrator:
/// for any time step, `update` leaves its position and velocity exactly
/// unchanged.
pub proof fn lemma_update_keeps_rest(p: PhysicsPoint, dt: int)
    requires
        p.mass >= 1,
        p.force.x == 0 && p.force.y == 0,
        p.velocity.x == 0 && p.velocity.y == 0,
        dt >= 0,
    ensures
        accel_of(p.force.x as int, p.mass as int) == 0,
        accel_of(p.force.y as int, p.mass as int) == 0,
        p.velocity.x + dvel_of(0, dt) == p.velocity.x,
        p.velocity.y + dvel_of(0, dt) == p.velocity.y,
        p.position.x + drift_of(0, 0, dt) == p.position.x,
        p.position.y + drift_of(0, 0, dt) == p.position.y,
        update_fits(p, dt),
{
    crate::fixed::lemma_div_t_bound(0, p.mass as int);
    crate::fixed::lemma_div_t_bound(0, SCALE as int);
    crate::fixed::lemma_div_t_bound(0, 2);
    assert(mul_div_spec(0, SCALE as int, p.mass as int) == div_t(0, p.mass as int));
    assert(mul_div_spec(0, dt, SCALE as int) == div_t(0, SCALE as int)) by {
        assert(0 * dt == 0) by (nonlinear_arith);
    }
}

} // verus!
