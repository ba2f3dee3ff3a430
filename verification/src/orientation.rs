//! The orientation controller: from the turn keys and the elapsed time to
//! the angle by which the rocket turns during the tick.

use vstd::prelude::*;
use crate::config::Config;
use crate::fixed::{rescale, rescale_exec, saturate, saturate_exec};
use crate::input::InputSnapshot;
use crate::rocket::{FlightState, Rocket, RocketModel};

verus! {

/// The angle turned during a tick of `dt` microseconds.
///
/// It is zero when no turn key is held and while the rocket is grounded.
/// Otherwise it is the turning speed times the elapsed time, positive for a
/// left turn and negative for a right turn; left wins when both keys are held.
pub open spec fn turn_rate(cfg: Config, state: FlightState, input: InputSnapshot, dt: int) -> int {
    if !input.turn_left && !input.turn_right {
        0
    } else if state == FlightState::Grounded {
        0
    } else if input.turn_left {
        saturate(rescale(cfg.turning_speed * dt))
    } else {
        -saturate(rescale(cfg.turning_speed * dt))
    }
}

impl RocketModel {
    /// The rocket after the orientation step.
    pub open spec fn after_rotate(self, cfg: Config, input: InputSnapshot, dt: int) -> RocketModel {
        RocketModel { rotation_rate: turn_rate(cfg, self.state, input, dt), ..self }
    }
}

/// The angle, in millionths of a radian, turned during a tick of `dt`
/// microseconds.
pub fn rotation_rate(cfg: &Config, state: FlightState, input: InputSnapshot, dt: u64) -> (r: i64)
    requires
        cfg.wf(),
    ensures
        r == turn_rate(*cfg, state, input, dt as int),
        state == FlightState::Grounded ==> r == 0,
        !input.turn_left && !input.turn_right ==> r == 0,
        input.turn_left ==> r >= 0,
        !input.turn_left ==> r <= 0,
{
    if !input.turn_left && !input.turn_right {
        return 0;
    }
    if state == FlightState::Grounded {
        return 0;
    }
    proof {
        assert(0 <= cfg.turning_speed * dt <= 1_000_000_000_000_000 * 0xffff_ffff_ffff_ffff)
            by (nonlinear_arith)
            requires
                0 <= cfg.turning_speed <= 1_000_000_000_000_000,
                0 <= dt <= 0xffff_ffff_ffff_ffff,
        ;
    }
    let angle: i64 = saturate_exec(rescale_exec((cfg.turning_speed as i128) * (dt as i128)));
    if input.turn_left {
        angle
    } else {
        -angle
    }
}

impl Rocket {
    /// The orientation step: sets the angle by which the rocket turns during
    /// this tick and leaves everything else as it is.
    pub fn rotate(&mut self, cfg: &Config, input: InputSnapshot, dt: u64)
        requires
            cfg.wf(),
        ensures
            final(self)@ == old(self)@.after_rotate(*cfg, input, dt as int),
            old(self)@.wf() ==> final(self)@.wf(),
            old(self).state == FlightState::Grounded ==> final(self).rotation_rate == 0,
    {
        self.rotation_rate = rotation_rate(cfg, self.state, input, dt);
    }
}

} // verus!
