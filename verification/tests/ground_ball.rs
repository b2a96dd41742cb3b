use trajectory_rs::constants::{
    GROUND_BALL_AIR_RESISTANCE, GROUND_BALL_COR_DIRT, GROUND_BALL_COR_GRASS, ROLLING_FRICTION_DIRT,
    ROLLING_FRICTION_GRASS,
};
use trajectory_rs::fixed::{Fixed, SCALE};
use trajectory_rs::ground::{
    ball_position_at_time, bounce, fps_to_mph, gravity_fps2, mph_to_fps, rolling_deceleration,
    simulate_ground_ball_initial, time_to_distance, travel_direction, BounceState,
    GroundBallResult, Surface,
};
use trajectory_rs::vector::Vec2;

fn fx(v: f64) -> Fixed {
    Fixed::from_raw((v * SCALE as f64).round() as i64)
}

fn raw(r: i64) -> Fixed {
    Fixed::from_raw(r)
}

fn fl(v: Fixed) -> f64 {
    v.raw as f64 / SCALE as f64
}

fn r2(x: i64, y: i64) -> Vec2 {
    Vec2::new(raw(x), raw(y))
}

fn grounder() -> GroundBallResult {
    simulate_ground_ball_initial(
        fx(0.0),
        fx(0.0),
        fx(80.0),
        fx(0.0),
        fx(-5.0),
        fx(0.0),
        Surface::Grass,
    )
}

fn slow_roller() -> GroundBallResult {
    GroundBallResult {
        landing_position: r2(0, 0),
        landing_velocity_mph: fx(20.0),
        direction: Vec2::new(fx(1.0), fx(0.0)),
        landing_time: fx(0.5),
        friction: raw(ROLLING_FRICTION_GRASS),
        spin_effect: fx(0.12),
    }
}

#[test]
fn surfaces_and_their_constants() {
    assert_eq!(Surface::Grass.restitution(), raw(GROUND_BALL_COR_GRASS));
    assert_eq!(Surface::Dirt.restitution(), raw(GROUND_BALL_COR_DIRT));
    assert_eq!(Surface::Grass.rolling_friction(), raw(ROLLING_FRICTION_GRASS));
    assert_eq!(Surface::Dirt.rolling_friction(), raw(ROLLING_FRICTION_DIRT));
    assert_eq!(GROUND_BALL_COR_GRASS, 4_500_000_000);
    assert_eq!(GROUND_BALL_COR_DIRT, 5_000_000_000);
    assert_eq!(ROLLING_FRICTION_GRASS, 3_000_000_000);
    assert_eq!(ROLLING_FRICTION_DIRT, 2_500_000_000);
    assert_eq!(GROUND_BALL_AIR_RESISTANCE, 30_000_000_000);
}

#[test]
fn units_of_speed() {
    assert_eq!(mph_to_fps(fx(60.0)), fx(88.0));
    assert_eq!(fps_to_mph(fx(88.0)), fx(60.0));
    assert_eq!(mph_to_fps(fx(80.0)), raw(1_173_333_333_333));
    assert_eq!(gravity_fps2(), raw(321_850_404_000));
    assert_eq!(rolling_deceleration(raw(ROLLING_FRICTION_GRASS)), raw(126_555_121_200));
    assert_eq!(rolling_deceleration(raw(ROLLING_FRICTION_DIRT)), raw(110_462_601_000));
}

#[test]
fn hard_grounder_on_grass() {
    let gb = grounder();
    assert!(gb.landing_velocity_mph.raw > 0);
    assert_eq!(gb.friction, raw(ROLLING_FRICTION_GRASS));
    assert_eq!(gb.direction, Vec2::new(fx(1.0), fx(0.0)));
    assert_eq!(gb.direction.norm(), fx(1.0));
    assert_eq!(gb.landing_position, r2(345_634_364_790, 0));
    assert_eq!(gb.landing_velocity_mph, raw(752_719_999_999));
    assert_eq!(gb.landing_time, raw(2_973_431_096));
    assert_eq!(gb.spin_effect, fx(0.0));
    // two hops after the first contact, each taking 3 % of the speed
    assert!((fl(gb.landing_velocity_mph) - 80.0 * 0.97 * 0.97).abs() < 1.0e-6);
}

#[test]
fn bouncing_ball_on_dirt() {
    let gb = simulate_ground_ball_initial(
        fx(10.0),
        fx(-20.0),
        fx(60.0),
        fx(45.0),
        fx(20.0),
        fx(1500.0),
        Surface::Dirt,
    );
    assert_eq!(gb.landing_position, r2(2_867_250_422_786, 1_875_437_817_089));
    assert_eq!(gb.landing_velocity_mph, raw(695_144_531_250));
    assert_eq!(gb.direction, Vec2::new(fx(0.8), fx(0.6)));
    assert_eq!(gb.landing_time, raw(31_898_877_670));
    assert_eq!(gb.friction, raw(ROLLING_FRICTION_DIRT));
    assert_eq!(gb.spin_effect, fx(0.12));
    // three hops: 75 mph * 0.975^3
    assert!((fl(gb.landing_velocity_mph) - 75.0 * 0.975 * 0.975 * 0.975).abs() < 1.0e-6);
}

#[test]
fn ball_without_horizontal_speed_has_no_direction() {
    let gb = simulate_ground_ball_initial(
        fx(0.0),
        fx(0.0),
        fx(0.0),
        fx(0.0),
        fx(-5.0),
        fx(0.0),
        Surface::Grass,
    );
    assert_eq!(gb.direction, r2(0, 0));
    assert_eq!(gb.landing_velocity_mph, raw(0));
    assert_eq!(gb.landing_position, r2(0, 0));
    assert_eq!(travel_direction(raw(5_000), raw(0)), r2(5_000, 0));
}

#[test]
fn ball_that_hardly_bounces_rolls_at_once() {
    let gb = simulate_ground_ball_initial(
        fx(3.0),
        fx(4.0),
        fx(30.0),
        fx(40.0),
        fx(0.5),
        fx(0.0),
        Surface::Grass,
    );
    assert_eq!(gb.landing_position, Vec2::new(fx(3.0), fx(4.0)));
    assert_eq!(gb.landing_time, fx(0.0));
    assert_eq!(gb.direction, Vec2::new(fx(0.6), fx(0.8)));
    assert_eq!(gb.landing_velocity_mph, raw(499_999_999_999));
}

#[test]
fn falling_ball_is_reflected_and_rising_ball_hops() {
    let down = BounceState {
        position: r2(0, 0),
        vz: fx(-10.0),
        vh: fx(100.0),
        time: fx(1.0),
    };
    let dir = Vec2::new(fx(1.0), fx(0.0));
    let after = bounce(down, dir, fx(0.45), fx(0.30));
    assert_eq!(
        after,
        BounceState { position: r2(0, 0), vz: fx(4.5), vh: fx(100.0), time: fx(1.0) }
    );
    let up = bounce(after, dir, fx(0.45), fx(0.30));
    assert_eq!(up.vz, fx(2.025));
    assert_eq!(up.vh, fx(97.0));
    // hop of 2 * 4.5 / g seconds
    assert_eq!(up.time, raw(12_796_330_184));
    assert_eq!(up.position, r2(279_633_018_400, 0));
}

#[test]
fn rolling_ball_before_it_lands_is_at_the_landing_point() {
    let gb = grounder();
    for t in [-1.0, 0.0] {
        let (pos, speed) = ball_position_at_time(&gb, fx(t));
        assert_eq!(pos, gb.landing_position);
        assert_eq!(speed, gb.landing_velocity_mph);
    }
}

#[test]
fn rolling_ball_slows_down_along_its_path() {
    let gb = grounder();
    assert_eq!(
        ball_position_at_time(&gb, fx(0.05)),
        (r2(400_675_637_555, 0), raw(748_405_620_866))
    );
    assert_eq!(
        ball_position_at_time(&gb, fx(1.0)),
        (r2(1_386_346_137_521, 0), raw(666_432_417_362))
    );
    assert_eq!(
        ball_position_at_time(&gb, fx(5.0)),
        (r2(4_283_642_016_445, 0), raw(321_282_086_816))
    );
    // x = x0 + v0 t - a t^2 / 2, v = v0 - a t
    let v0 = 75.272 * 5280.0 / 3600.0;
    let a = 9.81 * 3.28084 * 0.30 + 3.0;
    let (pos, speed) = ball_position_at_time(&gb, fx(2.5));
    assert!((fl(pos.x) - (34.563436479 + v0 * 2.5 - 0.5 * a * 6.25)).abs() < 1.0e-6);
    assert!((fl(speed) - (v0 - a * 2.5) * 3600.0 / 5280.0).abs() < 1.0e-6);
}

#[test]
fn rolling_ball_stops_and_stays() {
    let gb = grounder();
    let rest = r2(5_160_897_613_534, 0);
    for t in [9.0, 9.5, 10.0, 11.0, 100.0] {
        assert_eq!(ball_position_at_time(&gb, fx(t)), (rest, raw(0)));
    }
    assert_eq!(ball_position_at_time(&gb, raw(i64::MAX)), (rest, raw(0)));
}

#[test]
fn speed_never_rises_and_is_never_negative() {
    for gb in [grounder(), slow_roller()] {
        let mut previous = ball_position_at_time(&gb, fx(-1.0)).1;
        let mut t = -1.0;
        while t < 12.0 {
            let speed = ball_position_at_time(&gb, fx(t)).1;
            assert!(speed.raw >= 0);
            assert!(speed.raw <= previous.raw);
            previous = speed;
            t += 0.013;
        }
        assert_eq!(previous, raw(0));
    }
}

#[test]
fn speed_is_zero_from_the_stop_time_on() {
    let gb = slow_roller();
    // 20 mph over the deceleration on grass: 2.3178306065 s, rounded down
    let stop = raw(23_178_306_065);
    assert_eq!(ball_position_at_time(&gb, raw(stop.raw - 1)).1, raw(12));
    assert_eq!(ball_position_at_time(&gb, stop).1, raw(4));
    assert_eq!(ball_position_at_time(&gb, raw(stop.raw + 1)).1, raw(0));
    assert_eq!(ball_position_at_time(&gb, fx(3.0)).1, raw(0));
}

#[test]
fn spin_curves_the_path() {
    let gb = slow_roller();
    assert_eq!(
        ball_position_at_time(&gb, fx(1.0)),
        (r2(230_039_210_488, 2_760_470_504), raw(113_712_417_363))
    );
    assert_eq!(
        ball_position_at_time(&gb, fx(5.0)),
        (r2(339_817_070_280, 9_451_660_825), raw(0))
    );
}

#[test]
fn time_to_reach_a_distance() {
    let gb = grounder();
    assert_eq!(time_to_distance(&gb, fx(0.0)), Some(fx(0.0)));
    assert_eq!(time_to_distance(&gb, fx(-3.0)), Some(fx(0.0)));
    assert_eq!(time_to_distance(&gb, fx(100.0)), Some(raw(9_584_600_350)));
    assert_eq!(time_to_distance(&gb, fx(1000.0)), None);
    // the farthest point the ball reaches
    assert_eq!(
        time_to_distance(&gb, raw(4_815_263_248_740)),
        Some(raw(87_233_834_812))
    );
    assert_eq!(time_to_distance(&gb, raw(4_815_263_248_741)), None);
}
