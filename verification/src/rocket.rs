//! The rocket: its data, its mathematical model, and what makes it valid.

use vstd::prelude::*;
use crate::fixed::SCALE;
use crate::vector::{Vector2, VectorModel};

verus! {

/// The discrete flight state.
#[derive(Clone, Copy, Debug, PartialEq, Eq, Structural)]
pub enum FlightState {
    /// At rest where it started; it neither turns nor moves until thrust.
    Grounded,
    /// Under full thrust.
    Boosting,
    /// Without thrust, or with thrust that has not yet recovered.
    Falling,
}

impl Default for FlightState {
    fn default() -> (s: FlightState)
        ensures
            s == FlightState::Grounded,
    {
        FlightState::Grounded
    }
}

/// The mathematical value of a `Rocket`: the same fields over unbounded
/// integers.
pub struct RocketModel {
    pub position: VectorModel,
    pub heading: VectorModel,
    pub rotation_rate: int,
    pub velocity: VectorModel,
    pub state: FlightState,
    pub ballistic_blend: int,
    pub thrust_recovery: int,
    pub last_boost_velocity: VectorModel,
    pub last_fall_velocity: VectorModel,
}

impl RocketModel {
    /// What holds of a rocket between any two steps.
    ///
    /// The heading is a unit vector, both blends lie between 0 and 1, thrust
    /// authority is short of full only while falling, and a grounded rocket
    /// is at rest.
    pub open spec fn wf(self) -> bool {
        &&& self.heading.is_unit()
        &&& 0 <= self.ballistic_blend <= SCALE
        &&& 0 <= self.thrust_recovery <= SCALE
        &&& self.state != FlightState::Falling ==> self.thrust_recovery == SCALE
        &&& self.state == FlightState::Grounded ==> self.velocity.is_zero()
    }

    /// The rocket as it is created: grounded, at the origin, at rest, facing
    /// up, with full thrust authority.
    pub open spec fn initial() -> RocketModel {
        RocketModel {
            position: VectorModel::zero(),
            heading: VectorModel { x: 0, y: SCALE as int },
            rotation_rate: 0,
            velocity: VectorModel::zero(),
            state: FlightState::Grounded,
            ballistic_blend: 0,
            thrust_recovery: SCALE as int,
            last_boost_velocity: VectorModel::zero(),
            last_fall_velocity: VectorModel::zero(),
        }
    }
}

/// The single controllable rocket. Scalars count millionths; vectors are in
/// world coordinates with `y` pointing up.
#[derive(Clone, Copy, Debug, PartialEq, Eq, Structural)]
pub struct Rocket {
    /// Where the rocket is.
    pub position: Vector2,
    /// Unit vector along which the rocket faces and thrusts.
    pub heading: Vector2,
    /// Angle, in radians, by which the rocket turns during the current tick.
    pub rotation_rate: i64,
    pub velocity: Vector2,
    pub state: FlightState,
    /// Progress, from 0 to 1, from the last boost velocity to free fall.
    pub ballistic_blend: i64,
    /// Progress, from 0 to 1, from the last fall velocity back to full thrust.
    pub thrust_recovery: i64,
    /// The velocity of the last boosting tick.
    pub last_boost_velocity: Vector2,
    /// The velocity of the last tick of free fall.
    pub last_fall_velocity: Vector2,
}

impl View for Rocket {
    type V = RocketModel;

    open spec fn view(&self) -> RocketModel {
        RocketModel {
            position: self.position@,
            heading: self.heading@,
            rotation_rate: self.rotation_rate as int,
            velocity: self.velocity@,
            state: self.state,
            ballistic_blend: self.ballistic_blend as int,
            thrust_recovery: self.thrust_recovery as int,
            last_boost_velocity: self.last_boost_velocity@,
            last_fall_velocity: self.last_fall_velocity@,
        }
    }
}

impl Rocket {
    /// A rocket at the start of a simulation.
    pub fn new() -> (r: Rocket)
        ensures
            r@ == RocketModel::initial(),
            r@.wf(),
    {
        Rocket {
            position: Vector2 { x: 0, y: 0 },
            heading: Vector2 { x: 0, y: SCALE },
            rotation_rate: 0,
            velocity: Vector2 { x: 0, y: 0 },
            state: FlightState::Grounded,
            ballistic_blend: 0,
            thrust_recovery: SCALE,
            last_boost_velocity: Vector2 { x: 0, y: 0 },
            last_fall_velocity: Vector2 { x: 0, y: 0 },
        }
    }

    /// Whether the rocket is in a state that the steps accept.
    pub fn is_valid(&self) -> (b: bool)
        ensures
            b == self@.wf(),
    {
        self.heading.is_unit() && 0 <= self.ballistic_blend && self.ballistic_blend <= SCALE && 0
            <= self.thrust_recovery && self.thrust_recovery <= SCALE && (self.state
            == FlightState::Falling || self.thrust_recovery == SCALE) && (self.state
            != FlightState::Grounded || self.velocity.is_zero())
    }
}

} // verus!
