use rocket_flight::config::Config;
use rocket_flight::fixed::SCALE;
use rocket_flight::input::InputSnapshot;
use rocket_flight::rocket::{FlightState, Rocket};
use rocket_flight::rotation::Rotation;
use rocket_flight::vector::Vector2;

fn thrust_only() -> InputSnapshot {
    InputSnapshot::from_buttons(true, false, false, false, false)
}

fn falling_rocket() -> Rocket {
    let mut rocket = Rocket::new();
    rocket.state = FlightState::Falling;
    rocket.thrust_recovery = 0;
    rocket
}

#[test]
fn thrust_held_for_three_ticks_from_rest() {
    let cfg = Config::new(2 * SCALE, 300 * SCALE, 300 * SCALE, 1_570_500).unwrap();
    let mut rocket = Rocket::new();
    assert_eq!(rocket.thrust_recovery, SCALE);
    let rot = Rotation::identity();
    let mut speeds = Vec::new();
    for _ in 0..3 {
        assert!(rocket.is_valid());
        rocket.tick(&cfg, thrust_only(), 1_000_000, &rot);
        assert_eq!(rocket.state, FlightState::Boosting);
        // Heading-aligned: the rocket faces up and so does its velocity.
        assert_eq!(rocket.heading, Vector2::new(0, SCALE));
        assert_eq!(rocket.velocity.x, 0);
        assert!(rocket.velocity.y > 0);
        speeds.push(rocket.velocity.length());
    }
    assert_eq!(speeds, vec![2_000_000, 4_000_000, 6_000_000]);
    assert_eq!(rocket.velocity, Vector2::new(0, 6 * SCALE));
    assert_eq!(rocket.last_boost_velocity, Vector2::new(0, 6 * SCALE));
    // One second at 2, one at 4, one at 6.
    assert_eq!(rocket.position, Vector2::new(0, 12 * SCALE));
}

#[test]
fn release_thrust_while_falling() {
    let cfg = Config::default();
    let mut rocket = falling_rocket();
    rocket.velocity = Vector2::new(0, 50 * SCALE);
    rocket.last_boost_velocity = Vector2::new(0, 50 * SCALE);
    rocket.ballistic_blend = 0;
    assert!(rocket.is_valid());

    rocket.fall(&cfg, 500_000);
    assert_eq!(rocket.ballistic_blend, 500_000);
    // The blend is taken at the progress the tick started with, so the first
    // tick still has the boost velocity.
    assert_eq!(rocket.velocity, Vector2::new(0, 50 * SCALE));
    assert_eq!(rocket.thrust_recovery, 0);
    assert_eq!(rocket.state, FlightState::Falling);

    // Half way from (0, 50) to (0, -300) is (0, -125).
    let half_way = Vector2::new(0, 50 * SCALE).lerp(&Vector2::new(0, -300 * SCALE), 500_000);
    assert_eq!(half_way, Vector2::new(0, -125 * SCALE));
    rocket.fall(&cfg, 500_000);
    assert_eq!(rocket.velocity, Vector2::new(0, -125 * SCALE));
    assert_eq!(rocket.ballistic_blend, SCALE);
}

#[test]
fn re_engage_thrust_mid_fall() {
    let cfg = Config::default();
    let mut rocket = falling_rocket();
    rocket.last_fall_velocity = Vector2::new(0, -100 * SCALE);
    rocket.velocity = Vector2::new(0, -100 * SCALE);
    rocket.heading = Vector2::new(0, SCALE);
    rocket.ballistic_blend = SCALE;
    assert!(rocket.is_valid());

    rocket.boost(&cfg, thrust_only(), 250_000, &Rotation::identity());
    assert_eq!(rocket.thrust_recovery, 250_000);
    assert_eq!(rocket.state, FlightState::Falling);
    assert_eq!(rocket.ballistic_blend, 0);
    // The blend is taken at the recovery the tick started with.
    assert_eq!(rocket.velocity, Vector2::new(0, -100 * SCALE));

    // A quarter of the way from (0, -100) to (0, 1) is (0, -74.75).
    let quarter = Vector2::new(0, -100 * SCALE).lerp(&Vector2::new(0, SCALE), 250_000);
    assert_eq!(quarter, Vector2::new(0, -74_750_000));
    rocket.boost(&cfg, thrust_only(), 250_000, &Rotation::identity());
    assert_eq!(rocket.velocity, Vector2::new(0, -74_750_000));
    assert_eq!(rocket.thrust_recovery, 500_000);
    assert_eq!(rocket.state, FlightState::Falling);
}

#[test]
fn re_engage_thrust_mid_fall_whole_tick() {
    let cfg = Config::default();
    let mut rocket = falling_rocket();
    rocket.last_fall_velocity = Vector2::new(0, -100 * SCALE);
    rocket.velocity = Vector2::new(0, -100 * SCALE);
    rocket.ballistic_blend = SCALE;
    rocket.tick(&cfg, thrust_only(), 250_000, &Rotation::identity());
    assert_eq!(rocket.thrust_recovery, 250_000);
    assert_eq!(rocket.state, FlightState::Falling);
    assert_eq!(rocket.velocity, Vector2::new(0, -100 * SCALE));
    rocket.tick(&cfg, thrust_only(), 250_000, &Rotation::identity());
    assert_eq!(rocket.thrust_recovery, 500_000);
    assert_eq!(rocket.state, FlightState::Falling);
    assert_eq!(rocket.velocity, Vector2::new(0, -74_750_000));
}

#[test]
fn release_thrust_while_falling_whole_tick() {
    let cfg = Config::default();
    let mut rocket = falling_rocket();
    rocket.velocity = Vector2::new(0, 50 * SCALE);
    rocket.last_boost_velocity = Vector2::new(0, 50 * SCALE);
    rocket.tick(&cfg, InputSnapshot::idle(), 500_000, &Rotation::identity());
    assert_eq!(rocket.ballistic_blend, 500_000);
    assert_eq!(rocket.velocity, Vector2::new(0, 50 * SCALE));
    assert_eq!(rocket.position, Vector2::new(0, 25 * SCALE));
    rocket.tick(&cfg, InputSnapshot::idle(), 500_000, &Rotation::identity());
    assert_eq!(rocket.ballistic_blend, SCALE);
    assert_eq!(rocket.velocity, Vector2::new(0, -125 * SCALE));
}
