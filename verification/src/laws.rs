//! What holds of the flight model on every input.

use vstd::prelude::*;
use crate::config::Config;
use crate::fixed::{SCALE, lemma_component_bound};
use crate::input::InputSnapshot;
use crate::propulsion::{
    ballistic_velocity, boosted_speed, gravity_vector, lemma_boosted_speed_bound, ramped,
};
use crate::rocket::{FlightState, RocketModel};
use crate::rotation::{Rotation, lemma_turned_is_unit};
use crate::simulation::{Step, steps_wf, steps_thrust, steps_time};
use crate::vector::{VectorModel, lemma_scaled_bound};

verus! {

/// A rocket whose heading is a unit vector has a unit heading after the
/// propulsion step, which is the only step that changes it.
pub proof fn lemma_heading_unit_after_boost(
    r: RocketModel,
    cfg: Config,
    input: InputSnapshot,
    dt: int,
    rot: Rotation,
)
    requires
        r.heading.is_unit(),
        rot.wf(),
    ensures
        r.after_boost(cfg, input, dt, rot).heading.is_unit(),
        r.after_boost(cfg, input, dt, rot).heading == r.turned_heading(rot),
        r.after_rotate(cfg, input, dt).heading == r.heading,
        r.after_fall(cfg, dt).heading == r.heading,
        r.after_update(dt).heading == r.heading,
{
    lemma_turned_is_unit(r.heading, rot);
}

/// A rocket whose heading is a unit vector has a unit heading after a tick.
pub proof fn lemma_heading_unit_after_tick(
    r: RocketModel,
    cfg: Config,
    input: InputSnapshot,
    dt: int,
    rot: Rotation,
)
    requires
        r.heading.is_unit(),
        rot.wf(),
    ensures
        r.after_tick(cfg, input, dt, rot).heading.is_unit(),
{
    lemma_heading_unit_after_boost(r.after_rotate(cfg, input, dt), cfg, input, dt, rot);
}

/// A rocket whose heading is a unit vector has a unit heading after any run
/// of ticks.
pub proof fn lemma_heading_unit_after_steps(r: RocketModel, cfg: Config, steps: Seq<Step>)
    requires
        r.heading.is_unit(),
        steps_wf(steps),
    ensures
        r.after_steps(cfg, steps).heading.is_unit(),
    decreases steps.len(),
{
    if steps.len() > 0 {
        let last: Step = steps.last();
        lemma_heading_unit_after_steps(r, cfg, steps.drop_last());
        lemma_heading_unit_after_tick(
            r.after_steps(cfg, steps.drop_last()),
            cfg,
            last.input,
            last.dt as int,
            last.rot,
        );
    }
}

/// Each step keeps a valid rocket valid.
pub proof fn lemma_steps_keep_wf(
    r: RocketModel,
    cfg: Config,
    input: InputSnapshot,
    dt: int,
    rot: Rotation,
)
    requires
        r.wf(),
        rot.wf(),
        0 <= dt,
    ensures
        r.after_rotate(cfg, input, dt).wf(),
        r.after_boost(cfg, input, dt, rot).wf(),
        r.after_fall(cfg, dt).wf(),
        r.after_update(dt).wf(),
        r.after_tick(cfg, input, dt, rot).wf(),
{
    lemma_turned_is_unit(r.heading, rot);
}

/// Any run of ticks keeps a valid rocket valid.
pub proof fn lemma_run_keeps_wf(r: RocketModel, cfg: Config, steps: Seq<Step>)
    requires
        r.wf(),
        steps_wf(steps),
    ensures
        r.after_steps(cfg, steps).wf(),
    decreases steps.len(),
{
    if steps.len() > 0 {
        let last: Step = steps.last();
        lemma_run_keeps_wf(r, cfg, steps.drop_last());
        lemma_steps_keep_wf(
            r.after_steps(cfg, steps.drop_last()),
            cfg,
            last.input,
            last.dt as int,
            last.rot,
        );
    }
}

/// After the propulsion step, and after a whole tick, a boosting rocket is no
/// faster than the greatest speed.
pub proof fn lemma_boosting_speed_bound(
    r: RocketModel,
    cfg: Config,
    input: InputSnapshot,
    dt: int,
    rot: Rotation,
)
    requires
        r.wf(),
        cfg.wf(),
        rot.wf(),
    ensures
        r.after_boost(cfg, input, dt, rot).state == FlightState::Boosting ==> r.after_boost(
            cfg,
            input,
            dt,
            rot,
        ).velocity.norm_sq() <= cfg.max_speed * cfg.max_speed,
        r.after_tick(cfg, input, dt, rot).state == FlightState::Boosting ==> r.after_tick(
            cfg,
            input,
            dt,
            rot,
        ).velocity.norm_sq() <= cfg.max_speed * cfg.max_speed,
{
    lemma_boost_bound(r, cfg, input, dt, rot);
    lemma_boost_bound(r.after_rotate(cfg, input, dt), cfg, input, dt, rot);
}

/// After any run of at least one tick, a boosting rocket is no faster than
/// the greatest speed.
pub proof fn lemma_boosting_speed_bound_after_steps(r: RocketModel, cfg: Config, steps: Seq<Step>)
    requires
        r.wf(),
        cfg.wf(),
        steps_wf(steps),
        steps.len() > 0,
    ensures
        r.after_steps(cfg, steps).state == FlightState::Boosting ==> r.after_steps(
            cfg,
            steps,
        ).velocity.norm_sq() <= cfg.max_speed * cfg.max_speed,
{
    let last: Step = steps.last();
    lemma_run_keeps_wf(r, cfg, steps.drop_last());
    lemma_boosting_speed_bound(
        r.after_steps(cfg, steps.drop_last()),
        cfg,
        last.input,
        last.dt as int,
        last.rot,
    );
}

proof fn lemma_boost_bound(
    r: RocketModel,
    cfg: Config,
    input: InputSnapshot,
    dt: int,
    rot: Rotation,
)
    requires
        r.wf(),
        cfg.wf(),
        rot.wf(),
    ensures
        r.after_boost(cfg, input, dt, rot).state == FlightState::Boosting ==> r.after_boost(
            cfg,
            input,
            dt,
            rot,
        ).velocity.norm_sq() <= cfg.max_speed * cfg.max_speed,
{
    let after: RocketModel = r.after_boost(cfg, input, dt, rot);
    if after.state == FlightState::Boosting {
        let speed: int = boosted_speed(cfg, r.velocity);
        lemma_turned_is_unit(r.heading, rot);
        lemma_boosted_speed_bound(cfg, r.velocity);
        lemma_scaled_bound(r.turned_heading(rot), speed);
        assert(speed * speed <= cfg.max_speed * cfg.max_speed) by (nonlinear_arith)
            requires
                0 <= speed <= cfg.max_speed,
        ;
    }
}

/// A fully ballistic fall step leaves the rocket slower than twice the
/// terminal speed, and a rocket that drops straight down at the terminal
/// speed keeps doing so.
pub proof fn lemma_ballistic_speed_bound(cfg: Config, velocity: VectorModel)
    requires
        cfg.wf(),
    ensures
        ballistic_velocity(cfg, velocity).norm_sq() <= (2 * cfg.gravity) * (2 * cfg.gravity),
        ballistic_velocity(cfg, gravity_vector(cfg)) == gravity_vector(cfg),
{
    let g: int = cfg.gravity as int;
    let x: int = velocity.x;
    let y: int = velocity.y;
    assert((-g) * (-g) == g * g && 0 * 0 + g * g <= (2 * g) * (2 * g)) by (nonlinear_arith);
    if velocity.norm_sq() < g * g {
        lemma_component_bound(x, y, g);
        assert(x * x + (y - g) * (y - g) <= (2 * g) * (2 * g)) by (nonlinear_arith)
            requires
                x * x + y * y < g * g,
                -g <= y <= g,
                0 <= g,
        ;
    }
}

/// After a fully ballistic fall step the rocket is no faster than the
/// terminal speed, if before the step it was at least that fast or within
/// the terminal speed of straight fall at the terminal speed.
pub proof fn lemma_terminal_velocity_bound(r: RocketModel, cfg: Config, dt: int)
    requires
        r.wf(),
        cfg.wf(),
        r.state == FlightState::Falling,
        r.ballistic_blend == SCALE,
        r.velocity.norm_sq() >= cfg.gravity * cfg.gravity || r.velocity.x * r.velocity.x + (
        r.velocity.y - cfg.gravity) * (r.velocity.y - cfg.gravity) <= cfg.gravity * cfg.gravity,
    ensures
        r.after_fall(cfg, dt).velocity.norm_sq() <= cfg.gravity * cfg.gravity,
        r.after_fall(cfg, dt).last_fall_velocity == r.after_fall(cfg, dt).velocity,
{
    let g: int = cfg.gravity as int;
    assert(0 * 0 + (-g) * (-g) == g * g) by (nonlinear_arith);
}

/// A grounded rocket without thrust does not move and does not turn, whatever
/// the turn keys: after the tick it is still grounded, at rest, where it was
/// and facing as before, and its turn angle is zero.
pub proof fn lemma_grounded_immobility(
    r: RocketModel,
    cfg: Config,
    input: InputSnapshot,
    dt: int,
    rot: Rotation,
)
    requires
        r.wf(),
        r.state == FlightState::Grounded,
        !input.thrust,
    ensures
        r.after_tick(cfg, input, dt, rot).velocity.is_zero(),
        r.after_tick(cfg, input, dt, rot).rotation_rate == 0,
        r.after_tick(cfg, input, dt, rot) == (RocketModel { rotation_rate: 0, ..r }),
{
}

/// Under thrust the recovery never decreases and never passes one, and the
/// ballistic blend starts over.
pub proof fn lemma_thrust_recovery_monotone(
    r: RocketModel,
    cfg: Config,
    input: InputSnapshot,
    dt: int,
    rot: Rotation,
)
    requires
        r.wf(),
        input.thrust,
        0 <= dt,
    ensures
        r.thrust_recovery <= r.after_boost(cfg, input, dt, rot).thrust_recovery <= SCALE,
        r.after_boost(cfg, input, dt, rot).ballistic_blend == 0,
{
}

/// While the rocket falls the ballistic blend never decreases and never
/// passes one, and the recovery starts over.
pub proof fn lemma_ballistic_blend_monotone(r: RocketModel, cfg: Config, dt: int)
    requires
        r.wf(),
        r.state == FlightState::Falling,
        0 <= dt,
    ensures
        r.ballistic_blend <= r.after_fall(cfg, dt).ballistic_blend <= SCALE,
        r.after_fall(cfg, dt).thrust_recovery == 0,
{
}

/// In a whole tick only one of the two blends advances. Under thrust the
/// recovery does not decrease and the ballistic blend starts over; without
/// thrust the ballistic blend of a rocket that has left the ground does not
/// decrease and the recovery starts over. Neither ever passes one.
pub proof fn lemma_tick_blends(
    r: RocketModel,
    cfg: Config,
    input: InputSnapshot,
    dt: int,
    rot: Rotation,
)
    requires
        r.wf(),
        0 <= dt,
    ensures
        input.thrust ==> r.thrust_recovery <= r.after_tick(cfg, input, dt, rot).thrust_recovery
            <= SCALE && r.after_tick(cfg, input, dt, rot).ballistic_blend == 0,
        !input.thrust && r.state != FlightState::Grounded ==> r.ballistic_blend <= r.after_tick(
            cfg,
            input,
            dt,
            rot,
        ).ballistic_blend <= SCALE && r.after_tick(cfg, input, dt, rot).thrust_recovery == 0,
{
}

/// Thrust with full authority makes the rocket boost in the same tick, and
/// thrust with less leaves the state as it is.
pub proof fn lemma_thrust_transitions(
    r: RocketModel,
    cfg: Config,
    input: InputSnapshot,
    dt: int,
    rot: Rotation,
)
    requires
        r.wf(),
        input.thrust,
    ensures
        r.thrust_recovery == SCALE ==> r.after_tick(cfg, input, dt, rot).state
            == FlightState::Boosting,
        r.thrust_recovery < SCALE ==> r.after_tick(cfg, input, dt, rot).state == r.state,
{
}

/// The time of a run is never negative.
pub proof fn lemma_steps_time_nonnegative(steps: Seq<Step>)
    ensures
        0 <= steps_time(steps),
    decreases steps.len(),
{
    if steps.len() > 0 {
        lemma_steps_time_nonnegative(steps.drop_last());
    }
}

/// While thrust is held the recovery advances with the time that passes, up
/// to one: a rocket under thrust for a second in all has full authority again,
/// and its next tick of thrust boosts.
pub proof fn lemma_recovery_under_thrust(r: RocketModel, cfg: Config, steps: Seq<Step>)
    requires
        r.wf(),
        steps_wf(steps),
        steps_thrust(steps, true),
    ensures
        r.after_steps(cfg, steps).thrust_recovery == ramped(r.thrust_recovery, steps_time(steps)),
        steps.len() > 0 ==> r.after_steps(cfg, steps).ballistic_blend == 0,
    decreases steps.len(),
{
    if steps.len() > 0 {
        let last: Step = steps.last();
        let before: RocketModel = r.after_steps(cfg, steps.drop_last());
        lemma_recovery_under_thrust(r, cfg, steps.drop_last());
        lemma_run_keeps_wf(r, cfg, steps.drop_last());
        lemma_steps_time_nonnegative(steps.drop_last());
        assert(before.after_tick(cfg, last.input, last.dt as int, last.rot).thrust_recovery
            == ramped(before.thrust_recovery, last.dt as int));
    }
}

/// While no thrust is held, the ballistic blend of a rocket that has left the
/// ground advances with the time that passes, up to one.
pub proof fn lemma_blend_without_thrust(r: RocketModel, cfg: Config, steps: Seq<Step>)
    requires
        r.wf(),
        r.state != FlightState::Grounded,
        steps_wf(steps),
        steps_thrust(steps, false),
    ensures
        r.after_steps(cfg, steps).ballistic_blend == ramped(r.ballistic_blend, steps_time(steps)),
        steps.len() > 0 ==> r.after_steps(cfg, steps).thrust_recovery == 0 && r.after_steps(
            cfg,
            steps,
        ).state == FlightState::Falling,
        r.after_steps(cfg, steps).state != FlightState::Grounded,
    decreases steps.len(),
{
    if steps.len() > 0 {
        let last: Step = steps.last();
        let before: RocketModel = r.after_steps(cfg, steps.drop_last());
        lemma_blend_without_thrust(r, cfg, steps.drop_last());
        lemma_run_keeps_wf(r, cfg, steps.drop_last());
        lemma_steps_time_nonnegative(steps.drop_last());
        assert(before.after_tick(cfg, last.input, last.dt as int, last.rot).ballistic_blend
            == ramped(before.ballistic_blend, last.dt as int));
    }
}

/// A rocket at rest stays where it is, however much time passes.
pub proof fn lemma_update_at_rest(r: RocketModel, dt: int)
    requires
        r.velocity.is_zero(),
    ensures
        r.after_update(dt) == r,
{
}

} // verus!
