//! A movement controller: discrete input intents become forces and
//! impulses on a dynamic collider, with a speed clamp and linear decay.

use vstd::prelude::*;

use crate::collision::DynamicCollider;
use crate::fixed::{abs_i, div_t, fits_i64, mul_div, mul_div_spec, SCALE};
use crate::geometry::{Rect, Vec2};
use crate::physics::{accel_of, drift_of, dvel_of, step_fits};

verus! {

/// Below this many fixed-point units, a drive force counts as absent and
/// a horizontal speed snaps to exactly zero (avoiding asymptotic creep).
pub const SPEED_EPSILON: i64 = 10_000;

/// A velocity clamped to `[-max, max]`.
pub open spec fn clamp_speed(v: int, max: int) -> int {
    if v > max {
        max
    } else if v < -max {
        -max
    } else {
        v
    }
}

/// Decay applies when the drive force is (nearly) absent or opposes the
/// current horizontal velocity.
pub open spec fn decay_applies(drive: int, v: int) -> bool {
    abs_i(drive) < SPEED_EPSILON || drive * v < 0
}

/// One decay step: speeds below the epsilon snap to zero; otherwise the
/// speed moves toward zero by `decay * dt`.
pub open spec fn decayed(v: int, decay: int, dt: int) -> int {
    if abs_i(v) < SPEED_EPSILON {
        0
    } else if v > 0 {
        v - mul_div_spec(decay, dt, SCALE as int)
    } else {
        v + mul_div_spec(decay, dt, SCALE as int)
    }
}

/// A ground-probe coordinate: the body's center plus half the offset
/// (given in units of the half extent) times the extent.
pub open spec fn probe_coord(center: int, offset: int, extent: int) -> int {
    center + mul_div_spec(div_t(offset, 2), extent, SCALE as int)
}

/// Translates held input directions into a horizontal drive force and a
/// constant downward gravity force on its collider, then clamps and
/// decays the horizontal speed each tick.
pub struct MovementController {
    pub body: DynamicCollider,
    pub move_force: i64,
    pub jump_impulse: i64,
    pub max_speed: i64,
    pub move_speed_decay: i64,
    pub gravity_acceleration: i64,
    pub horizontal_force: i64,
    pub ground_check_offsets: Vec<Vec2>,
}

impl MovementController {
    /// All intermediate values of one [`MovementController::update`] fit
    /// in an `i64`.
    pub open spec fn update_fits(&self, dt: int) -> bool {
        let m = self.body.body.mass as int;
        let g_force = mul_div_spec(self.gravity_acceleration as int, m, SCALE as int);
        let hf = self.horizontal_force as int;
        let ax = accel_of(hf, m);
        let dvx = dvel_of(ax, dt);
        let vx1 = self.body.body.velocity.x + dvx;
        let vx2 = clamp_speed(vx1, self.max_speed as int);
        let decay_amount = mul_div_spec(self.move_speed_decay as int, dt, SCALE as int);
        &&& fits_i64(g_force)
        &&& fits_i64(-g_force)
        &&& step_fits(
            self.body.body.position.x as int,
            self.body.body.position.y as int,
            self.body.body.velocity.x as int,
            self.body.body.velocity.y as int,
            hf,
            -g_force,
            m,
            dt,
        )
        &&& fits_i64(accel_of(-g_force, m))
        &&& fits_i64(decay_amount)
        &&& fits_i64(vx2 - decay_amount)
        &&& fits_i64(vx2 + decay_amount)
    }

    /// Assemble a controller around a dynamic collider; the drive force
    /// starts at zero.
    pub fn from_components(
        body: DynamicCollider,
        move_force: i64,
        jump_impulse: i64,
        max_speed: i64,
        move_speed_decay: i64,
        gravity_acceleration: i64,
        ground_check_offsets: Vec<Vec2>,
    ) -> (r: MovementController)
        ensures
            r.body == body,
            r.move_force == move_force,
            r.jump_impulse == jump_impulse,
            r.max_speed == max_speed,
            r.move_speed_decay == move_speed_decay,
            r.gravity_acceleration == gravity_acceleration,
            r.horizontal_force == 0,
            r.ground_check_offsets == ground_check_offsets,
    {
        MovementController {
            body,
            move_force,
            jump_impulse,
            max_speed,
            move_speed_decay,
            gravity_acceleration,
            horizontal_force: 0,
            ground_check_offsets,
        }
    }

    /// Drive left at the configured force.
    pub fn move_left(&mut self)
        requires
            old(self).move_force != i64::MIN,
        ensures
            *final(self) == (MovementController {
                horizontal_force: final(self).horizontal_force,
                ..*old(self)
            }),
            final(self).horizontal_force == -old(self).move_force,
    {
        self.horizontal_force = -self.move_force;
    }

    /// Drive right at the configured force.
    pub fn move_right(&mut self)
        ensures
            *final(self) == (MovementController {
                horizontal_force: final(self).horizontal_force,
                ..*old(self)
            }),
            final(self).horizontal_force == old(self).move_force,
    {
        self.horizontal_force = self.move_force;
    }

    /// Cut the drive force.
    pub fn stop(&mut self)
        ensures
            *final(self) == (MovementController {
                horizontal_force: final(self).horizontal_force,
                ..*old(self)
            }),
            final(self).horizontal_force == 0,
    {
        self.horizontal_force = 0;
    }

    /// Overwrite the vertical velocity with the configured upward
    /// impulse, unconditionally: checking for ground contact first is the
    /// caller's responsibility (see
    /// [`MovementController::ground_check_points`]).
    pub fn jump(&mut self)
        ensures
            final(self).body.body.velocity.x == old(self).body.body.velocity.x,
            final(self).body.body.velocity.y == old(self).jump_impulse,
            final(self).body.body.position == old(self).body.body.position,
            final(self).body.body.acceleration == old(self).body.body.acceleration,
            final(self).body.body.force == old(self).body.body.force,
            final(self).body.body.mass == old(self).body.body.mass,
            final(self).body.width == old(self).body.width,
            final(self).body.height == old(self).body.height,
            final(self).move_force == old(self).move_force,
            final(self).jump_impulse == old(self).jump_impulse,
            final(self).max_speed == old(self).max_speed,
            final(self).move_speed_decay == old(self).move_speed_decay,
            final(self).gravity_acceleration == old(self).gravity_acceleration,
            final(self).horizontal_force == old(self).horizontal_force,
            final(self).ground_check_offsets == old(self).ground_check_offsets,
    {
        let vx = self.body.body.velocity.x;
        self.body.body.set_velocity(Vec2 { x: vx, y: self.jump_impulse });
    }

    /// Read access to the collider.
    pub fn collider(&self) -> (r: &DynamicCollider)
        ensures
            r == &self.body,
    {
        &self.body
    }

    /// Mutable access to the collider, for external collision resolution
    /// and forced position wraparound.
    pub fn collider_mut(&mut self) -> (r: &mut DynamicCollider)
        ensures
            *r == old(self).body,
            *final(self) == (MovementController { body: *final(r), ..*old(self) }),
    {
        &mut self.body
    }

    /// The collider's current world rectangle.
    pub fn rect(&self) -> (r: Rect)
        ensures
            r == (Rect {
                x: self.body.body.position.x,
                y: self.body.body.position.y,
                w: self.body.width,
                h: self.body.height,
            }),
    {
        self.body.rect()
    }

    /// The world-space floor probes: each configured offset, in units of
    /// the half extent, applied to the collider's current rectangle.
    pub fn ground_check_points(&self) -> (r: Vec<Vec2>)
        requires
            abs_i(self.body.body.position.x as int) <= crate::tilemap::MAX_COORD,
            abs_i(self.body.body.position.y as int) <= crate::tilemap::MAX_COORD,
            abs_i(self.body.width as int) <= crate::tilemap::MAX_COORD,
            abs_i(self.body.height as int) <= crate::tilemap::MAX_COORD,
            forall|k: int|
                0 <= k < self.ground_check_offsets@.len() ==> abs_i(
                    (#[trigger] self.ground_check_offsets@[k]).x as int,
                ) <= crate::tilemap::MAX_COORD && abs_i(self.ground_check_offsets@[k].y as int)
                    <= crate::tilemap::MAX_COORD,
        ensures
            r@.len() == self.ground_check_offsets@.len(),
            forall|k: int|
                0 <= k < r@.len() ==> {
                    let off = self.ground_check_offsets@[k];
                    (#[trigger] r@[k]).x == probe_coord(
                        self.body.body.position.x as int,
                        off.x as int,
                        self.body.width as int,
                    ) && r@[k].y == probe_coord(
                        self.body.body.position.y as int,
                        off.y as int,
                        self.body.height as int,
                    )
                },
    {
        let mut result: Vec<Vec2> = Vec::new();
        let mut k: usize = 0;
        while k < self.ground_check_offsets.len()
            invariant
                k <= self.ground_check_offsets@.len(),
                abs_i(self.body.body.position.x as int) <= crate::tilemap::MAX_COORD,
                abs_i(self.body.body.position.y as int) <= crate::tilemap::MAX_COORD,
                abs_i(self.body.width as int) <= crate::tilemap::MAX_COORD,
                abs_i(self.body.height as int) <= crate::tilemap::MAX_COORD,
                forall|j: int|
                    0 <= j < self.ground_check_offsets@.len() ==> abs_i(
                        (#[trigger] self.ground_check_offsets@[j]).x as int,
                    ) <= crate::tilemap::MAX_COORD && abs_i(self.ground_check_offsets@[j].y as int)
                        <= crate::tilemap::MAX_COORD,
                result@.len() == k,
                forall|j: int|
                    0 <= j < k ==> {
                        let off = self.ground_check_offsets@[j];
                        (#[trigger] result@[j]).x == probe_coord(
                            self.body.body.position.x as int,
                            off.x as int,
                            self.body.width as int,
                        ) && result@[j].y == probe_coord(
                            self.body.body.position.y as int,
                            off.y as int,
                            self.body.height as int,
                        )
                    },
            decreases self.ground_check_offsets@.len() - k,
        {
            let off = self.ground_check_offsets[k];
            proof {
                crate::fixed::lemma_div_t_bound(off.x as int, 2);
                crate::fixed::lemma_div_t_bound(off.y as int, 2);
                crate::fixed::lemma_mul_div_fits(
                    div_t(off.x as int, 2),
                    self.body.width as int,
                    SCALE as int,
                    crate::tilemap::MAX_COORD as int,
                    crate::tilemap::MAX_COORD as int,
                );
                crate::fixed::lemma_mul_div_fits(
                    div_t(off.y as int, 2),
                    self.body.height as int,
                    SCALE as int,
                    crate::tilemap::MAX_COORD as int,
                    crate::tilemap::MAX_COORD as int,
                );
            }
            let px = self.body.body.position.x + mul_div(
                mul_div(off.x, 1, 2),
                self.body.width,
                SCALE,
            );
            let py = self.body.body.position.y + mul_div(
                mul_div(off.y, 1, 2),
                self.body.height,
                SCALE,
            );
            result.push(Vec2 { x: px, y: py });
            k = k + 1;
        }
        result
    }

    /// One controller tick: set the force to (drive, -gravity * mass),
    /// integrate the body, clamp the horizontal speed to the configured
    /// maximum, then decay it toward zero when the drive is absent or
    /// opposing.
    pub fn update(&mut self, dt: i64)
        requires
            dt >= 0,
            old(self).body.body.mass >= 1,
            old(self).max_speed != i64::MIN,
            old(self).update_fits(dt as int),
        ensures
            ({
                let m = old(self).body.body.mass as int;
                let g_force = mul_div_spec(old(self).gravity_acceleration as int, m, SCALE as int);
                let hf = old(self).horizontal_force as int;
                let ax = accel_of(hf, m);
                let ay = accel_of(-g_force, m);
                let dvx = dvel_of(ax, dt as int);
                let vx1 = old(self).body.body.velocity.x + dvx;
                let vy1 = old(self).body.body.velocity.y + dvel_of(ay, dt as int);
                let vx2 = clamp_speed(vx1, old(self).max_speed as int);
                let vx3 = if decay_applies(hf, vx2) {
                    decayed(vx2, old(self).move_speed_decay as int, dt as int)
                } else {
                    vx2
                };
                &&& final(self).body.body.force.x == old(self).horizontal_force
                &&& final(self).body.body.force.y == -g_force
                &&& final(self).body.body.acceleration.x == ax
                &&& final(self).body.body.acceleration.y == ay
                &&& final(self).body.body.velocity.x == vx3
                &&& final(self).body.body.velocity.y == vy1
                &&& final(self).body.body.position.x == old(self).body.body.position.x + drift_of(
                    old(self).body.body.velocity.x as int,
                    dvx,
                    dt as int,
                )
                &&& final(self).body.body.position.y == old(self).body.body.position.y + drift_of(
                    old(self).body.body.velocity.y as int,
                    dvx,
                    dt as int,
                )
            }),
            final(self).body.body.mass == old(self).body.body.mass,
            final(self).body.width == old(self).body.width,
            final(self).body.height == old(self).body.height,
            final(self).move_force == old(self).move_force,
            final(self).jump_impulse == old(self).jump_impulse,
            final(self).max_speed == old(self).max_speed,
            final(self).move_speed_decay == old(self).move_speed_decay,
            final(self).gravity_acceleration == old(self).gravity_acceleration,
            final(self).horizontal_force == old(self).horizontal_force,
            final(self).ground_check_offsets == old(self).ground_check_offsets,
    {
        let g_force = mul_div(self.gravity_acceleration, self.body.body.mass, SCALE);
        let hf = self.horizontal_force;
        self.body.body.set_force(Vec2 { x: hf, y: -g_force });
        self.body.body.update(dt);

        if self.body.body.velocity.x > self.max_speed {
            let vy = self.body.body.velocity.y;
            self.body.body.set_velocity(Vec2 { x: self.max_speed, y: vy });
        } else if self.body.body.velocity.x < -self.max_speed {
            let vy = self.body.body.velocity.y;
            self.body.body.set_velocity(Vec2 { x: -self.max_speed, y: vy });
        }

        let opposing = (hf > 0 && self.body.body.velocity.x < 0) || (hf < 0
            && self.body.body.velocity.x > 0);
        proof {
            assert(opposing == (hf as int * self.body.body.velocity.x < 0)) by (nonlinear_arith)
                requires
                    opposing == ((hf > 0 && self.body.body.velocity.x < 0) || (hf < 0
                        && self.body.body.velocity.x > 0)),
            ;
        }
        let drive_absent = -SPEED_EPSILON < hf && hf < SPEED_EPSILON;
        if drive_absent || opposing {
            let vx = self.body.body.velocity.x;
            let vy = self.body.body.velocity.y;
            if -SPEED_EPSILON < vx && vx < SPEED_EPSILON {
                self.body.body.set_velocity(Vec2 { x: 0, y: vy });
            } else if vx > 0 {
                let decay_amount = mul_div(self.move_speed_decay, dt, SCALE);
                self.body.body.set_velocity(Vec2 { x: vx - decay_amount, y: vy });
            } else {
                let decay_amount = mul_div(self.move_speed_decay, dt, SCALE);
                self.body.body.set_velocity(Vec2 { x: vx + decay_amount, y: vy });
            }
        }
    }
}

} // verus!
