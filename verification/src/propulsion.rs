//! The propulsion and flight state machine: thrust, recovery from a fall, and
//! the blend from powered flight into free fall.

use vstd::prelude::*;
use vstd::math::min;
use crate::config::Config;
use crate::fixed::{SCALE, lemma_floor_sqrt, lemma_component_bound};
use crate::input::InputSnapshot;
use crate::rocket::{FlightState, Rocket, RocketModel};
use crate::rotation::Rotation;
use crate::vector::{Vector2, VectorModel, lemma_scaled_bound};

verus! {

/// The velocity toward which a falling rocket blends: straight down at the
/// terminal speed.
pub open spec fn gravity_vector(cfg: Config) -> VectorModel {
    VectorModel { x: 0, y: -(cfg.gravity as int) }
}

/// The speed of the next boosting tick: the current speed plus the
/// acceleration, capped at the greatest speed.
pub open spec fn boosted_speed(cfg: Config, velocity: VectorModel) -> int {
    min(cfg.max_speed as int, velocity.length() + cfg.acceleration)
}

/// A blend after `dt` more microseconds, capped at one.
pub open spec fn ramped(blend: int, dt: int) -> int {
    min(SCALE as int, blend + dt)
}

/// The velocity after one tick of free fall: the fall speed step is taken off
/// the vertical component while the rocket is slower than the terminal speed,
/// and from then on the rocket drops straight down at the terminal speed.
pub open spec fn ballistic_velocity(cfg: Config, velocity: VectorModel) -> VectorModel {
    if velocity.norm_sq() < cfg.gravity * cfg.gravity {
        VectorModel { x: velocity.x, y: velocity.y - cfg.gravity }
    } else {
        gravity_vector(cfg)
    }
}

impl RocketModel {
    /// The heading after the turn of this tick: unchanged when the rocket does
    /// not turn, else turned by `rot` and brought back to unit length.
    pub open spec fn turned_heading(self, rot: Rotation) -> VectorModel {
        if self.rotation_rate == 0 {
            self.heading
        } else {
            self.heading.turned(rot)
        }
    }

    /// The rocket after the propulsion step.
    ///
    /// With thrust and less than full authority, the velocity is the blend
    /// from the last fall velocity toward the heading at the current
    /// recovery, the recovery then advances by `dt`, and the state stays.
    /// With thrust and full authority the rocket boosts along its heading.
    /// Without thrust a rocket that has left the ground falls. The ballistic
    /// blend starts over whenever thrust is applied.
    pub open spec fn after_boost(
        self,
        cfg: Config,
        input: InputSnapshot,
        dt: int,
        rot: Rotation,
    ) -> RocketModel {
        let heading: VectorModel = self.turned_heading(rot);
        if input.thrust {
            if self.thrust_recovery < SCALE {
                RocketModel {
                    heading,
                    velocity: self.last_fall_velocity.lerp(heading, self.thrust_recovery),
                    thrust_recovery: ramped(self.thrust_recovery, dt),
                    ballistic_blend: 0,
                    ..self
                }
            } else {
                let velocity: VectorModel = heading.scaled(boosted_speed(cfg, self.velocity));
                RocketModel {
                    heading,
                    state: FlightState::Boosting,
                    velocity,
                    last_boost_velocity: velocity,
                    ballistic_blend: 0,
                    ..self
                }
            }
        } else if self.state != FlightState::Grounded {
            RocketModel { heading, state: FlightState::Falling, ..self }
        } else {
            RocketModel { heading, ..self }
        }
    }

    /// The rocket after the fall step, which acts on a falling rocket only
    /// and follows the propulsion step on a tick without thrust.
    ///
    /// Short of fully ballistic, the velocity is the blend from the last boost
    /// velocity toward straight fall at the current blend, and the blend then
    /// advances by `dt`. Fully ballistic, the velocity follows
    /// `ballistic_velocity` and is recorded as the last fall velocity. Either
    /// way thrust authority is lost.
    pub open spec fn after_fall(self, cfg: Config, dt: int) -> RocketModel {
        if self.state == FlightState::Falling {
            if self.ballistic_blend < SCALE {
                RocketModel {
                    velocity: self.last_boost_velocity.lerp(
                        gravity_vector(cfg),
                        self.ballistic_blend,
                    ),
                    ballistic_blend: ramped(self.ballistic_blend, dt),
                    thrust_recovery: 0,
                    ..self
                }
            } else {
                let velocity: VectorModel = ballistic_velocity(cfg, self.velocity);
                RocketModel {
                    velocity,
                    last_fall_velocity: velocity,
                    thrust_recovery: 0,
                    ..self
                }
            }
        } else {
            self
        }
    }
}

/// The boosted speed is never negative and never above the greatest speed.
pub proof fn lemma_boosted_speed_bound(cfg: Config, velocity: VectorModel)
    requires
        cfg.wf(),
    ensures
        0 <= boosted_speed(cfg, velocity) <= cfg.max_speed,
{
    assert(0 <= velocity.norm_sq()) by (nonlinear_arith)
        requires
            velocity.norm_sq() == velocity.x * velocity.x + velocity.y * velocity.y,
    ;
    lemma_floor_sqrt(velocity.norm_sq());
}

fn ramp(blend: i64, dt: u64) -> (r: i64)
    requires
        0 <= blend <= SCALE,
    ensures
        r == ramped(blend as int, dt as int),
        blend <= r <= SCALE,
{
    if dt >= (SCALE - blend) as u64 {
        SCALE
    } else {
        blend + dt as i64
    }
}

fn next_speed(cfg: &Config, velocity: &Vector2) -> (r: i64)
    requires
        cfg.wf(),
    ensures
        r == boosted_speed(*cfg, velocity@),
        0 <= r <= cfg.max_speed,
{
    proof {
        lemma_boosted_speed_bound(*cfg, velocity@);
    }
    let raised: i128 = velocity.length() as i128 + cfg.acceleration as i128;
    if raised < cfg.max_speed as i128 {
        raised as i64
    } else {
        cfg.max_speed
    }
}

fn free_fall(cfg: &Config, velocity: &Vector2) -> (r: Vector2)
    requires
        cfg.wf(),
    ensures
        r@ == ballistic_velocity(*cfg, velocity@),
{
    let g: i64 = cfg.gravity;
    proof {
        assert(0 <= g * g <= 1_000_000_000_000_000 * 1_000_000_000_000_000) by (nonlinear_arith)
            requires
                0 <= g <= 1_000_000_000_000_000,
        ;
    }
    let g2: u128 = (g as u128) * (g as u128);
    if velocity.norm_sq() < g2 {
        proof {
            lemma_component_bound(velocity.x as int, velocity.y as int, g as int);
        }
        Vector2 { x: velocity.x, y: velocity.y - g }
    } else {
        Vector2 { x: 0, y: -g }
    }
}

impl Rocket {
    /// The propulsion step.
    ///
    /// `rot` is the rotation by the angle `self.rotation_rate`; it is applied
    /// to the heading only when that angle is not zero.
    pub fn boost(&mut self, cfg: &Config, input: InputSnapshot, dt: u64, rot: &Rotation)
        requires
            old(self)@.wf(),
            cfg.wf(),
            rot.wf(),
        ensures
            final(self)@ == old(self)@.after_boost(*cfg, input, dt as int, *rot),
            final(self)@.wf(),
            final(self).state == FlightState::Boosting ==> final(self)@.velocity.norm_sq()
                <= cfg.max_speed * cfg.max_speed,
            input.thrust ==> final(self).ballistic_blend == 0 && old(self).thrust_recovery
                <= final(self).thrust_recovery <= SCALE,
            !input.thrust ==> final(self).velocity == old(self).velocity,
    {
        if self.rotation_rate != 0 {
            self.heading = self.heading.turned(rot);
        }
        if input.thrust {
            self.ballistic_blend = 0;
            if self.thrust_recovery < SCALE {
                self.velocity = self.last_fall_velocity.lerp(&self.heading, self.thrust_recovery);
                self.thrust_recovery = ramp(self.thrust_recovery, dt);
            } else {
                let speed: i64 = next_speed(cfg, &self.velocity);
                proof {
                    lemma_scaled_bound(self.heading@, speed as int);
                    assert(speed * speed <= cfg.max_speed * cfg.max_speed) by (nonlinear_arith)
                        requires
                            0 <= speed <= cfg.max_speed,
                    ;
                }
                self.state = FlightState::Boosting;
                self.velocity = self.heading.scaled(speed);
                self.last_boost_velocity = self.velocity;
            }
        } else if self.state != FlightState::Grounded {
            self.state = FlightState::Falling;
        }
    }

    /// The fall step, for a tick without thrust.
    pub fn fall(&mut self, cfg: &Config, dt: u64)
        requires
            old(self)@.wf(),
            cfg.wf(),
        ensures
            final(self)@ == old(self)@.after_fall(*cfg, dt as int),
            final(self)@.wf(),
            old(self).state == FlightState::Falling ==> final(self).thrust_recovery == 0
                && old(self).ballistic_blend <= final(self).ballistic_blend <= SCALE,
            old(self).state != FlightState::Falling ==> *final(self) == *old(self),
    {
        if self.state == FlightState::Falling {
            self.thrust_recovery = 0;
            if self.ballistic_blend < SCALE {
                let down = Vector2 { x: 0, y: -cfg.gravity };
                self.velocity = self.last_boost_velocity.lerp(&down, self.ballistic_blend);
                self.ballistic_blend = ramp(self.ballistic_blend, dt);
            } else {
                let velocity: Vector2 = free_fall(cfg, &self.velocity);
                self.velocity = velocity;
                self.last_fall_velocity = velocity;
            }
        }
    }
}

} // verus!
