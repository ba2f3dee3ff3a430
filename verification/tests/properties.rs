use rocket_flight::config::Config;
use rocket_flight::fixed::SCALE;
use rocket_flight::input::InputSnapshot;
use rocket_flight::orientation::rotation_rate;
use rocket_flight::rocket::{FlightState, Rocket};
use rocket_flight::rotation::Rotation;
use rocket_flight::simulation::Step;
use rocket_flight::vector::Vector2;

fn keys(thrust: bool, left: bool, right: bool) -> InputSnapshot {
    InputSnapshot { thrust, turn_left: left, turn_right: right }
}

/// The rotation by `rate` millionths of a radian.
fn rotation_by(rate: i64) -> Rotation {
    let angle = rate as f64 / 1e6;
    let cos = (angle.cos() * 1e6).round() as i64;
    let sin = (angle.sin() * 1e6).round() as i64;
    Rotation::new(cos, sin).unwrap()
}

/// A fixed sequence of key presses that takes the rocket through every state.
fn script(i: u64) -> InputSnapshot {
    let thrust = i % 400 < 150 || i % 400 >= 330;
    let left = i % 7 < 4;
    let right = i % 5 < 2;
    keys(thrust, left, right)
}

fn run(ticks: u64, dt: u64, mut check: impl FnMut(&Rocket, &Rocket, InputSnapshot)) -> Rocket {
    let cfg = Config::default();
    let mut rocket = Rocket::new();
    for i in 0..ticks {
        let input = script(i);
        let before = rocket;
        let rate = rotation_rate(&cfg, rocket.state, input, dt);
        rocket.tick(&cfg, input, dt, &rotation_by(rate));
        assert!(rocket.is_valid());
        assert_eq!(rocket.rotation_rate, rate);
        check(&before, &rocket, input);
    }
    rocket
}

#[test]
fn heading_stays_a_unit_vector() {
    let mut turned = 0u32;
    let end = run(2_000, 16_667, |before, after, _| {
        assert!(after.heading.is_unit());
        let n = after.heading.norm_sq();
        assert!(n <= 1_000_000_000_000 && n >= 999_994_000_009);
        if after.heading != before.heading {
            turned += 1;
        }
    });
    assert!(turned > 1_000);
    assert_ne!(end.heading, Vector2::new(0, SCALE));
}

#[test]
fn heading_follows_the_turn_angle() {
    let cfg = Config::default();
    let mut rocket = Rocket::new();
    rocket.state = FlightState::Boosting;
    let input = keys(true, true, false);
    let mut angle = std::f64::consts::FRAC_PI_2;
    for _ in 0..600 {
        let rate = rotation_rate(&cfg, rocket.state, input, 16_667);
        rocket.tick(&cfg, input, 16_667, &rotation_by(rate));
        angle += rate as f64 / 1e6;
        let got = (rocket.heading.y as f64).atan2(rocket.heading.x as f64);
        let diff = (got - angle).sin().abs();
        assert!(diff < 1e-3, "heading off by {diff}");
    }
}

#[test]
fn a_boosting_rocket_is_never_faster_than_the_greatest_speed() {
    let cfg = Config::default();
    let mut boosting = 0u32;
    let mut capped = 0u32;
    run(2_000, 16_667, |_, after, _| {
        if after.state == FlightState::Boosting {
            boosting += 1;
            assert!(after.velocity.norm_sq() <= (cfg.max_speed as u128) * (cfg.max_speed as u128));
            if after.velocity.length() + 1_000 >= cfg.max_speed as u64 {
                capped += 1;
            }
        }
    });
    assert!(boosting > 300);
    assert!(capped > 0);
}

#[test]
fn a_fully_ballistic_rocket_falls_at_the_terminal_speed() {
    let cfg = Config::default();
    let mut ballistic = 0u32;
    run(2_000, 16_667, |before, after, input| {
        if before.state == FlightState::Falling
            && !input.thrust
            && before.ballistic_blend == SCALE
            && before.velocity == Vector2::new(0, -cfg.gravity)
        {
            ballistic += 1;
            assert_eq!(after.velocity, Vector2::new(0, -cfg.gravity));
            assert_eq!(after.last_fall_velocity, after.velocity);
            assert_eq!(after.velocity.length(), cfg.gravity as u64);
        }
        if !input.thrust && before.state == FlightState::Falling && before.ballistic_blend == SCALE
        {
            assert!(after.velocity.length() < 2 * cfg.gravity as u64);
        }
    });
    assert!(ballistic > 50);
}

#[test]
fn a_grounded_rocket_without_thrust_does_not_move_or_turn() {
    let cfg = Config::default();
    let quarter = Rotation::new(0, SCALE).unwrap();
    for (left, right) in [(false, false), (true, false), (false, true), (true, true)] {
        for dt in [0, 1, 16_667, 1_000_000, u64::MAX] {
            let mut rocket = Rocket::new();
            rocket.position = Vector2::new(7, -9);
            rocket.rotation_rate = 123;
            let before = rocket;
            rocket.tick(&cfg, keys(false, left, right), dt, &quarter);
            assert_eq!(rocket.velocity, Vector2::zero());
            assert_eq!(rocket.rotation_rate, 0);
            assert_eq!(rocket, Rocket { rotation_rate: 0, ..before });
        }
    }
}

#[test]
fn blends_only_grow_in_their_own_branch() {
    let cfg = Config::default();
    let id = Rotation::identity();
    for start in [0, 1, 400_000, 999_999, SCALE] {
        for dt in [0, 1, 250_000, 1_000_000, u64::MAX] {
            let mut falling = Rocket::new();
            falling.state = FlightState::Falling;
            falling.thrust_recovery = 700_000;
            falling.ballistic_blend = start;
            falling.fall(&cfg, dt);
            assert!(start <= falling.ballistic_blend && falling.ballistic_blend <= SCALE);
            assert_eq!(falling.thrust_recovery, 0);

            let mut recovering = Rocket::new();
            recovering.state = FlightState::Falling;
            recovering.thrust_recovery = start;
            recovering.ballistic_blend = 700_000;
            recovering.boost(&cfg, keys(true, false, false), dt, &id);
            assert!(start <= recovering.thrust_recovery && recovering.thrust_recovery <= SCALE);
            assert_eq!(recovering.ballistic_blend, 0);
        }
    }
}

#[test]
fn a_rocket_at_rest_stays_where_it_is() {
    for dt in [0, 1, 16_667, 1_000_000, u64::MAX] {
        let mut rocket = Rocket::new();
        rocket.position = Vector2::new(-5, i64::MAX);
        let before = rocket;
        rocket.update(dt);
        assert_eq!(rocket, before);

        let mut falling = before;
        falling.state = FlightState::Falling;
        falling.update(dt);
        assert_eq!(falling.position, before.position);
    }
}

#[test]
fn replay_runs_the_ticks_in_order() {
    let cfg = Config::default();
    let mut by_tick = Rocket::new();
    let mut steps = Vec::new();
    for i in 0..500 {
        let input = script(i);
        let dt = 10_000 + (i % 3) * 10_000;
        let rate = rotation_rate(&cfg, by_tick.state, input, dt);
        let rot = rotation_by(rate);
        by_tick.tick(&cfg, input, dt, &rot);
        steps.push(Step { input, dt, rot });
    }
    let mut replayed = Rocket::new();
    replayed.replay(&cfg, &steps);
    assert_eq!(replayed, by_tick);
    assert_ne!(replayed.position, Vector2::zero());

    let mut untouched = Rocket::new();
    untouched.replay(&cfg, &Vec::new());
    assert_eq!(untouched, Rocket::new());
}

#[test]
fn the_same_trace_gives_the_same_flight() {
    let a = run(1_000, 16_667, |_, _, _| {});
    let b = run(1_000, 16_667, |_, _, _| {});
    assert_eq!(a, b);
}

#[test]
fn the_ballistic_blend_advances_with_time_without_thrust() {
    let cfg = Config::default();
    let mut rocket = Rocket::new();
    rocket.state = FlightState::Boosting;
    rocket.velocity = Vector2::new(0, 100 * SCALE);
    rocket.last_boost_velocity = rocket.velocity;
    let idle = Step { input: InputSnapshot::idle(), dt: 300_000, rot: Rotation::identity() };
    rocket.replay(&cfg, &vec![idle, idle, idle]);
    assert_eq!(rocket.state, FlightState::Falling);
    assert_eq!(rocket.ballistic_blend, 900_000);
    assert_eq!(rocket.thrust_recovery, 0);
    rocket.replay(&cfg, &vec![idle]);
    assert_eq!(rocket.ballistic_blend, SCALE);
    // Blended at 0.9 of the way from (0, 100) to (0, -300).
    assert_eq!(rocket.velocity, Vector2::new(0, -260 * SCALE));
}

#[test]
fn the_recovery_advances_with_time_under_thrust() {
    let cfg = Config::default();
    let mut rocket = Rocket::new();
    rocket.state = FlightState::Falling;
    rocket.thrust_recovery = 100_000;
    rocket.ballistic_blend = 600_000;
    let thrust = Step { input: keys(true, false, false), dt: 300_000, rot: Rotation::identity() };
    rocket.replay(&cfg, &vec![thrust, thrust]);
    assert_eq!(rocket.thrust_recovery, 700_000);
    assert_eq!(rocket.ballistic_blend, 0);
    assert_eq!(rocket.state, FlightState::Falling);
    rocket.replay(&cfg, &vec![thrust]);
    assert_eq!(rocket.thrust_recovery, SCALE);
    assert_eq!(rocket.state, FlightState::Falling);
    rocket.replay(&cfg, &vec![thrust]);
    assert_eq!(rocket.state, FlightState::Boosting);
}
