//! The integrator: moves the rocket along its velocity.

use vstd::prelude::*;
use crate::rocket::{Rocket, RocketModel};

verus! {

impl RocketModel {
    /// The rocket after the integration step: a rocket with a velocity other
    /// than zero moves by velocity times elapsed time, each coordinate limited
    /// to 64 bits; a rocket at rest stays where it is.
    pub open spec fn after_update(self, dt: int) -> RocketModel {
        if self.velocity.is_zero() {
            self
        } else {
            RocketModel { position: self.position.advanced(self.velocity, dt), ..self }
        }
    }
}

impl Rocket {
    /// The integration step.
    pub fn update(&mut self, dt: u64)
        ensures
            final(self)@ == old(self)@.after_update(dt as int),
            old(self)@.wf() ==> final(self)@.wf(),
            old(self)@.velocity.is_zero() ==> *final(self) == *old(self),
    {
        if !self.velocity.is_zero() {
            self.position = self.position.advanced(&self.velocity, dt);
        }
    }
}

} // verus!
