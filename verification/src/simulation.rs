//! One tick of the simulation: orientation, propulsion, integration, in that
//! order. Propulsion hands a rocket without thrust on to the fall step; under
//! thrust the fall step is left out, so that of the ballistic blend and the
//! thrust recovery only one advances in a tick.

use vstd::prelude::*;
use crate::config::Config;
use crate::input::InputSnapshot;
use crate::orientation::turn_rate;
use crate::rocket::{FlightState, Rocket, RocketModel};
use crate::rotation::Rotation;

verus! {

/// One tick of a recorded run: what the player held, the elapsed microseconds,
/// and the rotation by the angle turned during the tick.
#[derive(Clone, Copy, Debug, PartialEq, Eq, Structural)]
pub struct Step {
    pub input: InputSnapshot,
    pub dt: u64,
    pub rot: Rotation,
}

/// Every rotation of the run is a unit pair.
pub open spec fn steps_wf(steps: Seq<Step>) -> bool {
    forall|i: int| 0 <= i < steps.len() ==> (#[trigger] steps[i]).rot.wf()
}

/// In every tick of the run the thrust input is `thrust`.
pub open spec fn steps_thrust(steps: Seq<Step>, thrust: bool) -> bool {
    forall|i: int| 0 <= i < steps.len() ==> (#[trigger] steps[i]).input.thrust == thrust
}

/// The microseconds that the run takes.
pub open spec fn steps_time(steps: Seq<Step>) -> int
    decreases steps.len(),
{
    if steps.len() == 0 {
        0
    } else {
        steps_time(steps.drop_last()) + steps.last().dt
    }
}

impl RocketModel {
    /// The rocket after the ticks of `steps`, taken in order.
    pub open spec fn after_steps(self, cfg: Config, steps: Seq<Step>) -> RocketModel
        decreases steps.len(),
    {
        if steps.len() == 0 {
            self
        } else {
            let last: Step = steps.last();
            self.after_steps(cfg, steps.drop_last()).after_tick(
                cfg,
                last.input,
                last.dt as int,
                last.rot,
            )
        }
    }

    /// The rocket after one whole tick: the orientation step, the propulsion
    /// step, on a tick without thrust the fall step, and the integration
    /// step.
    pub open spec fn after_tick(
        self,
        cfg: Config,
        input: InputSnapshot,
        dt: int,
        rot: Rotation,
    ) -> RocketModel {
        let propelled: RocketModel = self.after_rotate(cfg, input, dt).after_boost(
            cfg,
            input,
            dt,
            rot,
        );
        if input.thrust {
            propelled.after_update(dt)
        } else {
            propelled.after_fall(cfg, dt).after_update(dt)
        }
    }
}

impl Rocket {
    /// Advances the rocket by one tick of `dt` microseconds.
    ///
    /// `rot` is the rotation by the angle that `rotation_rate` gives for this
    /// rocket's state, `input` and `dt`; the caller computes its sine and
    /// cosine. It is not looked at when that angle is zero.
    pub fn tick(&mut self, cfg: &Config, input: InputSnapshot, dt: u64, rot: &Rotation)
        requires
            old(self)@.wf(),
            cfg.wf(),
            rot.wf(),
        ensures
            final(self)@ == old(self)@.after_tick(*cfg, input, dt as int, *rot),
            final(self)@.wf(),
            final(self).rotation_rate == turn_rate(*cfg, old(self).state, input, dt as int),
            final(self).state == FlightState::Boosting ==> final(self)@.velocity.norm_sq()
                <= cfg.max_speed * cfg.max_speed,
    {
        self.rotate(cfg, input, dt);
        self.boost(cfg, input, dt, rot);
        if !input.thrust {
            self.fall(cfg, dt);
        }
        self.update(dt);
    }

    /// Runs the ticks of `steps` in order.
    pub fn replay(&mut self, cfg: &Config, steps: &Vec<Step>)
        requires
            old(self)@.wf(),
            cfg.wf(),
            steps_wf(steps@),
        ensures
            final(self)@ == old(self)@.after_steps(*cfg, steps@),
            final(self)@.wf(),
    {
        let ghost start: RocketModel = self@;
        let mut i: usize = 0;
        while i < steps.len()
            invariant
                i <= steps.len(),
                cfg.wf(),
                steps_wf(steps@),
                self@.wf(),
                self@ == start.after_steps(*cfg, steps@.take(i as int)),
            decreases steps.len() - i,
        {
            let step: Step = steps[i];
            proof {
                let next: Seq<Step> = steps@.take(i + 1);
                assert(next.drop_last() =~= steps@.take(i as int));
                assert(next.last() == steps@[i as int]);
            }
            self.tick(cfg, step.input, step.dt, &step.rot);
            i += 1;
        }
        proof {
            assert(steps@.take(i as int) =~= steps@);
        }
    }
}

} // verus!
