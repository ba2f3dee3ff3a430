//! Tunable constants of the flight model.

use vstd::prelude::*;

verus! {

/// Largest value that a configuration parameter may take.
pub const PARAM_LIMIT: i64 = 1_000_000_000_000_000;

/// Speed gained per boosting tick: 2 units.
pub const ROCKET_ACCELERATION: i64 = 2_000_000;

/// Greatest speed under thrust: 300 units per second.
pub const ROCKET_MAX_SPEED: i64 = 300_000_000;

/// Fall speed step and terminal fall speed: 300 units per second.
pub const GRAVITY: i64 = 300_000_000;

/// Turning speed: a quarter turn per second, 90 times 0.01745 radians.
pub const TURNING_SPEED: i64 = 1_570_500;

/// The parameters of the flight model, each a count of millionths.
#[derive(Clone, Copy, Debug, PartialEq, Eq, Structural)]
pub struct Config {
    /// Speed added by one tick of full thrust.
    pub acceleration: i64,
    /// Greatest speed under thrust.
    pub max_speed: i64,
    /// Downward speed added by one tick of free fall, and the terminal speed.
    pub gravity: i64,
    /// Radians turned per second while a turn key is held.
    pub turning_speed: i64,
}

impl Config {
    /// Every parameter lies between zero and `PARAM_LIMIT`.
    pub open spec fn wf(&self) -> bool {
        &&& 0 <= self.acceleration <= PARAM_LIMIT
        &&& 0 <= self.max_speed <= PARAM_LIMIT
        &&& 0 <= self.gravity <= PARAM_LIMIT
        &&& 0 <= self.turning_speed <= PARAM_LIMIT
    }

    /// The parameters that the game ships with.
    pub open spec fn standard() -> Config {
        Config {
            acceleration: ROCKET_ACCELERATION,
            max_speed: ROCKET_MAX_SPEED,
            gravity: GRAVITY,
            turning_speed: TURNING_SPEED,
        }
    }

    /// Whether every parameter lies between zero and `PARAM_LIMIT`.
    pub fn is_valid(&self) -> (b: bool)
        ensures
            b == self.wf(),
    {
        0 <= self.acceleration && self.acceleration <= PARAM_LIMIT && 0 <= self.max_speed
            && self.max_speed <= PARAM_LIMIT && 0 <= self.gravity && self.gravity <= PARAM_LIMIT
            && 0 <= self.turning_speed && self.turning_speed <= PARAM_LIMIT
    }

    /// A configuration with the given parameters, if each lies between zero
    /// and `PARAM_LIMIT`.
    pub fn new(acceleration: i64, max_speed: i64, gravity: i64, turning_speed: i64) -> (r: Option<
        Config,
    >)
        ensures
            r.is_some() <==> (Config { acceleration, max_speed, gravity, turning_speed }).wf(),
            r.is_some() ==> r.unwrap() == (Config {
                acceleration,
                max_speed,
                gravity,
                turning_speed,
            }),
    {
        let c = Config { acceleration, max_speed, gravity, turning_speed };
        if c.is_valid() {
            Some(c)
        } else {
            None
        }
    }
}

impl Default for Config {
    fn default() -> (c: Config)
        ensures
            c == Config::standard(),
            c.wf(),
    {
        Config {
            acceleration: ROCKET_ACCELERATION,
            max_speed: ROCKET_MAX_SPEED,
            gravity: GRAVITY,
            turning_speed: TURNING_SPEED,
        }
    }
}

} // verus!
