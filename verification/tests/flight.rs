use ballflight::Ball;
use ballflight::Environment;
use ballflight::Impact;
use ballflight::Trajectory;
use ballflight::calculate_relative_wind_speed;
use ballflight::f_to_c;
use ballflight::in_hg_to_mm_hg;
use ballflight::Vec2;
use ballflight::Vec3;

const S: i128 = 1_000_000_000;

#[test]
fn it_works() {
    let ball = Ball::default();
    let environment = Environment::default();
    let impact = Impact::default();

    let trajectory = Trajectory::new(ball, environment, impact);
    let mut state = trajectory.get_initial_state();

    // one hundredth of a second
    let delta = 10_000_000;

    loop {
        state = state.step(&trajectory, delta);

        if state.position.z <= 0 {
            break;
        }
    }

    let (x, y, z) = state.get_position();
    // The reference landing point is about 421.5 feet downrange, dead
    // straight, just below the ground at the crossing step.
    assert_eq!(x, 0);
    assert!(y > 418 * S && y < 426 * S);
    assert!(z <= 0 && z > -S);
}

#[test]
fn default_flight_lands_deterministically() {
    let trajectory = Trajectory::new(Ball::default(), Environment::default(), Impact::default());
    let mut state = trajectory.get_initial_state();
    let mut steps = 0;
    while state.position.z > 0 {
        state = state.step(&trajectory, 10_000_000);
        steps += 1;
    }
    assert_eq!(steps, 560);
    assert_eq!(state.get_position(), (0, 423_363_404_897, -563_549_923));
    assert_eq!(state.hang_time, 5_600_000_000);
}

#[test]
fn hang_time_advances_by_exactly_delta() {
    let trajectory = Trajectory::new(Ball::default(), Environment::default(), Impact::default());
    let s0 = trajectory.get_initial_state();
    assert_eq!(s0.hang_time, 0);
    let delta = 10_000_000;
    let s1 = s0.step(&trajectory, delta);
    assert_eq!(s1.hang_time, delta);
    let s2 = s1.step(&trajectory, delta);
    assert_eq!(s2.hang_time, 2 * delta);
    let s3 = s2.step(&trajectory, 7_777);
    assert_eq!(s3.hang_time, 2 * delta + 7_777);
}

#[test]
fn magnus_cross_range_component_is_zero() {
    let trajectory = Trajectory::new(Ball::default(), Environment::default(), Impact::default());
    let state = trajectory.get_initial_state();
    let magnus = trajectory.calculate_magnus_acceleration(200_000_000, state.velocity, 150 * S);
    assert_eq!(magnus.x, 0);
    let other = trajectory.calculate_magnus_acceleration(
        1,
        Vec3 { x: 7 * S, y: -3 * S, z: 55 * S },
        999 * S,
    );
    assert_eq!(other.x, 0);
}

#[test]
fn rho_increases_as_elevation_decreases() {
    let low = Environment { elevation: 0, ..Environment::default() };
    let high = Environment { elevation: 5_000 * S, ..Environment::default() };
    assert!(low.calculate_rho() > high.calculate_rho());
}

#[test]
fn rho_decreases_as_temperature_increases() {
    let cold = Environment { temperature: 40 * S, ..Environment::default() };
    let hot = Environment { temperature: 100 * S, ..Environment::default() };
    assert!(cold.calculate_rho() > hot.calculate_rho());
}

#[test]
fn dry_rho_decreases_as_temperature_increases() {
    let cold = Environment {
        temperature: 40 * S,
        relative_humidity: 0,
        ..Environment::default()
    };
    let hot = Environment {
        temperature: 100 * S,
        relative_humidity: 0,
        ..Environment::default()
    };
    assert!(cold.calculate_rho() > hot.calculate_rho());
}

#[test]
fn rho_default_is_near_reference() {
    let rho = Environment::default().calculate_rho();
    // about 0.0746 in the reference formula's units
    assert!(rho > 73_000_000 && rho < 76_000_000);
    assert_eq!(rho, 74_646_538);
}

#[test]
fn wind_decomposition_straight_downrange() {
    let env = Environment { wind_speed: 10 * S, wind_direction: 0, ..Environment::default() };
    let wind = env.calculate_wind_velocity();
    assert_eq!(wind.x, 0);
    assert_eq!(wind.y, 14_670_000_000);
}

#[test]
fn wind_decomposition_quarter_turn() {
    let env = Environment {
        wind_speed: 10 * S,
        wind_direction: 90 * S,
        ..Environment::default()
    };
    let wind = env.calculate_wind_velocity();
    assert_eq!(wind.x, 14_670_000_000);
    assert_eq!(wind.y, 0);
}

#[test]
fn step_is_deterministic() {
    let trajectory = Trajectory::new(Ball::default(), Environment::default(), Impact::default());
    let state = trajectory.get_initial_state().step(&trajectory, 10_000_000);
    let a = state.step(&trajectory, 10_000_000);
    let b = state.step(&trajectory, 10_000_000);
    assert_eq!(a, b);
    assert_eq!(a.spin, state.spin);
}

#[test]
fn ground_crossing_reached_within_bounded_steps() {
    let trajectory = Trajectory::new(Ball::default(), Environment::default(), Impact::default());
    let mut state = trajectory.get_initial_state();
    let delta = 10_000_000;
    let mut steps = 0;
    loop {
        let next = state.step(&trajectory, delta);
        steps += 1;
        if next.position.z <= 0 {
            // the crossing step: positive height before, not after
            assert!(state.position.z > 0);
            break;
        }
        state = next;
        assert!(steps < 10_000);
    }
    assert!(steps < 10_000);
}

#[test]
fn f_to_c_at_default_temperature() {
    assert_eq!(f_to_c(70 * S), 21_111_111_128);
    assert_eq!(f_to_c(32 * S), 0);
}

#[test]
fn in_hg_to_mm_hg_at_default_pressure() {
    assert_eq!(in_hg_to_mm_hg(29_920_000_000), 759_969_519_939);
    assert_eq!(in_hg_to_mm_hg(0), 0);
}

#[test]
fn velocity_straight_up() {
    let (x, y, z) = Impact::calculate_velocity(100 * S, 90 * S, 0);
    assert_eq!(x, 0);
    assert_eq!(y, 0);
    assert_eq!(z, 146_700_000_000);
}

#[test]
fn velocity_straight_downrange_at_ground_level() {
    let (x, y, z) = Impact::calculate_velocity(100 * S, 0, 0);
    assert_eq!(x, 0);
    assert_eq!(y, 146_700_000_000);
    assert_eq!(z, 0);
}

#[test]
fn relative_wind_speed_without_wind_is_plain_speed() {
    let wind = Vec2 { x: 0, y: 0 };
    let velocity = Vec3 { x: 3 * S, y: 4 * S, z: 0 };
    assert_eq!(calculate_relative_wind_speed(wind, 0, velocity, 10 * S), 5 * S);
}

#[test]
fn relative_wind_speed_subtracts_wind_above_wind_height() {
    let wind = Vec2 { x: 3 * S, y: 0 };
    let velocity = Vec3 { x: 3 * S, y: 4 * S, z: 0 };
    assert_eq!(calculate_relative_wind_speed(wind, 0, velocity, S), 4 * S);
    // below the wind height the wind has no effect
    assert_eq!(calculate_relative_wind_speed(wind, 2 * S, velocity, S), 5 * S);
}

#[test]
fn pure_backspin_converts_to_cross_range_angular_velocity() {
    let impact = Impact { direction: 0, ..Impact::default() };
    let velocity = Vec3 { x: 0, y: 100 * S, z: 50 * S };
    let spin = impact.calculate_cartesian_spin(&velocity);
    // 2500 rpm of back spin becomes 2500 * pi / 30 radians per second on
    // the cross-range axis alone
    assert_eq!(spin.x, 261_799_387_500);
    assert_eq!(spin.y, 0);
    assert_eq!(spin.z, 0);
}

#[test]
fn initial_state_copies_the_impact_point() {
    let trajectory = Trajectory::new(Ball::default(), Environment::default(), Impact::default());
    let state = trajectory.get_initial_state();
    assert_eq!(state.position.x, 0);
    assert_eq!(state.position.y, 2 * S);
    assert_eq!(state.position.z, 3 * S);
    assert_eq!(state.spin.x, 2_500 * S);
    assert_eq!(state.spin.y, 0);
    assert_eq!(state.spin.z, 0);
    assert_eq!(state.hang_time, 0);
}
