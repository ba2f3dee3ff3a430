//! The player's input, sampled once per tick.

use vstd::prelude::*;

verus! {

/// What the player holds down during one tick.
#[derive(Clone, Copy, Debug, PartialEq, Eq, Structural)]
pub struct InputSnapshot {
    /// Any of the thrust buttons is down.
    pub thrust: bool,
    pub turn_left: bool,
    pub turn_right: bool,
}

impl InputSnapshot {
    /// The snapshot for the five logical buttons; the three thrust buttons
    /// count as one.
    pub fn from_buttons(
        thrust_up: bool,
        thrust_down: bool,
        thrust_alt: bool,
        turn_left: bool,
        turn_right: bool,
    ) -> (s: InputSnapshot)
        ensures
            s.thrust == (thrust_up || thrust_down || thrust_alt),
            s.turn_left == turn_left,
            s.turn_right == turn_right,
    {
        InputSnapshot { thrust: thrust_up || thrust_down || thrust_alt, turn_left, turn_right }
    }

    /// Nothing is held.
    pub fn idle() -> (s: InputSnapshot)
        ensures
            !s.thrust,
            !s.turn_left,
            !s.turn_right,
    {
        InputSnapshot { thrust: false, turn_left: false, turn_right: false }
    }
}

} // verus!
