use trajectory_rs::fixed::{Fixed, SCALE};
use trajectory_rs::flight::{
    integrate, integrate_single_trajectory, integrate_single_trajectory_with_wind,
    landing_fraction, landing_sample, max_steps, time_to_ground, touches_down, TrajectorySample,
};
use trajectory_rs::rk4::{step_rk4, KinematicState};
use trajectory_rs::table::CoefficientTable;
use trajectory_rs::vector::Vec3;

fn fx(v: f64) -> Fixed {
    Fixed::from_raw((v * SCALE as f64).round() as i64)
}

fn raw(r: i64) -> Fixed {
    Fixed::from_raw(r)
}

fn fl(v: Fixed) -> f64 {
    v.raw as f64 / SCALE as f64
}

fn v3(x: f64, y: f64, z: f64) -> Vec3 {
    Vec3::new(fx(x), fx(y), fx(z))
}

fn r3(x: i64, y: i64, z: i64) -> Vec3 {
    Vec3::new(raw(x), raw(y), raw(z))
}

fn grid(rows: usize, cols: usize, base: i64, per_row: i64, per_col: i64) -> Vec<Vec<Fixed>> {
    let mut out = Vec::new();
    for i in 0..rows {
        let mut row = Vec::new();
        for j in 0..cols {
            row.push(raw(base + per_row * i as i64 + per_col * j as i64));
        }
        out.push(row);
    }
    out
}

fn full_table() -> CoefficientTable {
    CoefficientTable::new(
        grid(55, 80, 3_000_000_000, 20_000_000, 1_000_000),
        grid(55, 80, 0, 0, 5_000_000),
    )
    .unwrap()
}

fn launch() -> KinematicState {
    KinematicState { position: v3(0.0, 0.0, 1.0), velocity: v3(0.0, 40.0, 30.0) }
}

fn fly(max_time: f64) -> Vec<TrajectorySample> {
    integrate_single_trajectory(
        launch(),
        fx(0.01),
        fx(max_time),
        fx(0.0),
        Vec3::zero(),
        fx(0.0),
        fx(1.225),
        fx(0.0042),
        &full_table(),
    )
}

#[test]
fn bound_on_the_number_of_samples() {
    assert_eq!(max_steps(fx(10.0), fx(0.01)), 1010);
    assert_eq!(max_steps(fx(1.0), fx(0.3)), 13);
    assert_eq!(max_steps(fx(1.0), fx(0.0)), 10);
    assert_eq!(max_steps(fx(1.0), fx(-0.5)), 10);
    assert_eq!(max_steps(fx(-1.0), fx(0.5)), 10);
    assert_eq!(max_steps(raw(i64::MAX), raw(1)), 9_223_372_036_854_775_817);
}

#[test]
fn launched_ball_lands_after_about_five_seconds() {
    let samples = fly(10.0);
    let last = samples[samples.len() - 1];
    assert_eq!(last.position.z, fx(0.0));
    let distance = fl(last.position.y);
    let flight_time = fl(last.time);
    assert!(distance > 0.0);
    assert!(flight_time > 4.0 && flight_time < 5.5);
    assert_eq!(samples.len(), 498);
    assert_eq!(last.position, r3(0, 1_240_723_756_758, 0));
    assert_eq!(last.velocity, r3(0, 165_001_686_278, -216_699_624_308));
    assert_eq!(last.time, raw(49_686_735_676));
}

#[test]
fn trajectory_starts_at_the_launch_state() {
    let samples = fly(10.0);
    assert_eq!(
        samples[0],
        TrajectorySample { position: launch().position, velocity: launch().velocity, time: fx(0.0) }
    );
    assert_eq!(
        samples[1],
        TrajectorySample {
            position: r3(0, 3_993_102_201, 12_989_927_286),
            velocity: r3(0, 398_622_566_704, 297_987_613_440),
            time: fx(0.01),
        }
    );
}

#[test]
fn height_rises_to_one_peak_and_falls_to_the_ground() {
    let samples = fly(10.0);
    let n = samples.len();
    let mut peak = 0;
    for i in 0..n {
        if samples[i].position.z.raw > samples[peak].position.z.raw {
            peak = i;
        }
    }
    assert_eq!(peak, 228);
    assert_eq!(samples[peak].position.z, raw(312_189_223_470));
    for i in 0..peak {
        assert!(samples[i].position.z.raw < samples[i + 1].position.z.raw);
    }
    for i in peak..n - 1 {
        assert!(samples[i].position.z.raw > samples[i + 1].position.z.raw);
    }
    // no sample lies below ground level, and only the last one on it
    for i in 0..n - 1 {
        assert!(samples[i].position.z.raw > 0);
    }
    assert_eq!(samples[n - 1].position.z.raw, 0);
}

#[test]
fn landing_point_takes_the_place_of_the_step_that_went_below_ground() {
    let samples = fly(10.0);
    let n = samples.len();
    let before = samples[n - 2];
    assert_eq!(before.position, r3(0, 1_239_291_728_326, 1_877_581_710));
    assert_eq!(before.time, fx(4.96));
    let prev = KinematicState { position: before.position, velocity: before.velocity };
    let next = step_rk4(
        prev,
        fx(0.01),
        Vec3::zero(),
        fx(0.0),
        fx(1.225),
        fx(0.0042),
        &full_table(),
    );
    assert_eq!(next.position, r3(0, 1_240_942_754_191, -287_135_063));
    assert!(touches_down(prev, next, fx(0.0)));
    let landing = samples[n - 1];
    assert_eq!(landing, landing_sample(prev, before.time, next, fx(0.01), fx(0.0)));
    assert!(before.time.raw < landing.time.raw);
    assert!(landing.time.raw < fx(4.97).raw);
    assert!(before.position.y.raw < landing.position.y.raw);
    assert!(landing.position.y.raw < next.position.y.raw);
    for s in &samples {
        assert_ne!(s.position, next.position);
    }
}

#[test]
fn time_from_the_last_sample_to_the_landing_is_rounded_up() {
    let prev = KinematicState { position: v3(0.0, 0.0, 2.0), velocity: Vec3::zero() };
    let next = KinematicState { position: v3(0.0, 0.0, -1.0), velocity: Vec3::zero() };
    // two thirds of the step
    assert_eq!(time_to_ground(prev, next, fx(0.01), fx(0.0)), raw(66_666_667));
    assert_eq!(time_to_ground(prev, next, fx(0.03), fx(0.0)), fx(0.02));
    // a ball a hair above the ground lands later than it was there
    let low = KinematicState { position: r3(0, 0, 1), velocity: Vec3::zero() };
    assert_eq!(time_to_ground(low, next, fx(0.01), fx(0.0)), raw(1));
    assert_eq!(landing_sample(low, fx(1.0), next, fx(0.01), fx(0.0)).time, raw(10_000_000_001));
    // a ball on the ground lands where it is
    let on = KinematicState { position: v3(0.0, 0.0, 0.0), velocity: Vec3::zero() };
    assert_eq!(time_to_ground(on, next, fx(0.01), fx(0.0)), raw(0));
    // a ball below the ground that sinks lands where it is, one that rises
    // lands at the end of the step
    let under = KinematicState { position: v3(0.0, 0.0, -2.0), velocity: Vec3::zero() };
    let deeper = KinematicState { position: v3(0.0, 0.0, -3.0), velocity: Vec3::zero() };
    assert_eq!(time_to_ground(under, deeper, fx(0.01), fx(0.0)), raw(0));
    assert_eq!(time_to_ground(under, next, fx(0.01), fx(0.0)), fx(0.01));
    assert_eq!(landing_fraction(under, next, fx(0.0)), fx(1.0));
    assert_eq!(landing_fraction(prev, next, fx(0.0)), raw(6_666_666_666));
}

#[test]
fn times_advance_by_the_step() {
    let samples = fly(10.0);
    for i in 0..samples.len() - 1 {
        assert_eq!(samples[i].time, raw(100_000_000 * i as i64));
    }
    for i in 0..samples.len() - 1 {
        assert!(samples[i].time.raw < samples[i + 1].time.raw);
    }
}

#[test]
fn time_limit_ends_the_flight_in_the_air() {
    let samples = fly(1.0);
    assert_eq!(samples.len(), 101);
    let last = samples[100];
    assert_eq!(last.time, fx(1.0));
    assert_eq!(last.position, r3(0, 346_698_753_400, 225_083_398_818));
    assert_eq!(last.velocity, r3(0, 305_248_491_352, 142_042_753_329));
}

#[test]
fn step_of_zero_is_cut_off_by_the_bound() {
    let samples = integrate_single_trajectory(
        launch(),
        fx(0.0),
        fx(1.0),
        fx(0.0),
        Vec3::zero(),
        fx(0.0),
        fx(1.225),
        fx(0.0042),
        &full_table(),
    );
    assert_eq!(samples.len(), 9);
    for s in samples {
        assert_eq!(s.position, launch().position);
        assert_eq!(s.time, fx(0.0));
    }
}

#[test]
fn no_time_means_only_the_launch_sample() {
    let samples = fly(-1.0);
    assert_eq!(samples.len(), 1);
    let samples = fly(0.0);
    assert_eq!(samples.len(), 1);
}

#[test]
fn wind_of_zero_gives_the_trajectory_of_still_air() {
    let t = full_table();
    let with_wind = integrate_single_trajectory_with_wind(
        launch(),
        fx(0.01),
        fx(10.0),
        fx(0.0),
        Vec3::zero(),
        v3(-1.0, 0.0, 0.0),
        fx(2200.0),
        fx(1.225),
        fx(0.0042),
        &t,
    );
    let still = integrate_single_trajectory(
        launch(),
        fx(0.01),
        fx(10.0),
        fx(0.0),
        v3(-1.0, 0.0, 0.0),
        fx(2200.0),
        fx(1.225),
        fx(0.0042),
        &t,
    );
    assert_eq!(with_wind, still);
    assert_eq!(still.len(), 513);
    assert_eq!(still[512].position, r3(0, 1_250_716_545_285, 0));
    assert_eq!(still[512].time, raw(51_121_933_223));
    let general = integrate(
        launch(),
        fx(0.01),
        fx(10.0),
        fx(0.0),
        None,
        v3(-1.0, 0.0, 0.0),
        fx(2200.0),
        fx(1.225),
        fx(0.0042),
        &t,
    );
    assert_eq!(general, still);
}

#[test]
fn tailwind_carries_the_ball_further() {
    let t = full_table();
    let samples = integrate_single_trajectory_with_wind(
        launch(),
        fx(0.01),
        fx(10.0),
        fx(0.0),
        v3(0.0, 8.0, 0.0),
        v3(-1.0, 0.0, 0.0),
        fx(2200.0),
        fx(1.225),
        fx(0.0042),
        &t,
    );
    assert_eq!(samples.len(), 524);
    let last = samples[523];
    assert_eq!(last.position, r3(0, 1_538_076_382_624, 0));
    assert_eq!(last.velocity, r3(0, 232_477_750_820, -223_321_357_007));
    assert_eq!(last.time, raw(52_281_765_001));
}

#[test]
fn ground_level_can_be_raised() {
    let start = KinematicState { position: v3(0.0, 0.0, 25.0), velocity: v3(0.0, 40.0, 30.0) };
    let samples = integrate_single_trajectory(
        start,
        fx(0.01),
        fx(10.0),
        fx(20.0),
        Vec3::zero(),
        fx(0.0),
        fx(1.225),
        fx(0.0042),
        &full_table(),
    );
    assert_eq!(samples.len(), 516);
    let last = samples[samples.len() - 1];
    assert_eq!(last.position, r3(0, 1_269_982_802_493, 200_000_000_000));
    assert_eq!(last.time, raw(51_486_917_530));
}

#[test]
fn launch_from_below_ground_level_ends_at_the_first_step() {
    // rising: the landing point is the end of the step, put on ground level
    let start = KinematicState { position: v3(0.0, 0.0, -1.0), velocity: v3(0.0, 40.0, 30.0) };
    let samples = integrate_single_trajectory(
        start,
        fx(0.01),
        fx(10.0),
        fx(0.0),
        Vec3::zero(),
        fx(0.0),
        fx(1.225),
        fx(0.0042),
        &full_table(),
    );
    assert_eq!(samples.len(), 2);
    assert_eq!(samples[1].position, r3(0, 3_993_102_201, 0));
    assert_eq!(samples[1].velocity, r3(0, 398_622_566_704, 297_987_613_440));
    assert_eq!(samples[1].time, fx(0.01));
    // falling: the landing point is the launch point, put on ground level
    let start = KinematicState { position: v3(0.0, 0.0, -1.0), velocity: v3(0.0, 40.0, -30.0) };
    let samples = integrate_single_trajectory(
        start,
        fx(0.01),
        fx(10.0),
        fx(0.0),
        Vec3::zero(),
        fx(0.0),
        fx(1.225),
        fx(0.0042),
        &full_table(),
    );
    assert_eq!(samples.len(), 2);
    assert_eq!(samples[1].position, r3(0, 0, 0));
    assert_eq!(samples[1].velocity, r3(0, 400_000_000_000, -300_000_000_000));
    assert_eq!(samples[1].time, fx(0.0));
}

#[test]
fn negligible_change_of_height_does_not_end_the_flight() {
    // steps of 10^-10 s: at half a meter per second the height changes by at
    // most one unit of the grid a step
    for vz in [0.5, -0.5] {
        let start = KinematicState { position: v3(0.0, 0.0, 0.0), velocity: v3(0.0, 0.0, vz) };
        let samples = integrate_single_trajectory(
            start,
            raw(1),
            raw(5),
            fx(0.0),
            Vec3::zero(),
            fx(0.0),
            fx(1.225),
            fx(0.0042),
            &full_table(),
        );
        assert_eq!(samples.len(), 6);
        assert_eq!(samples[5].time, raw(5));
        assert!(samples[5].position.z.raw <= 0);
    }
    let start = KinematicState { position: v3(0.0, 0.0, 0.0), velocity: v3(0.0, 0.0, -0.5) };
    let samples = integrate_single_trajectory(
        start,
        raw(1),
        raw(5),
        fx(0.0),
        Vec3::zero(),
        fx(0.0),
        fx(1.225),
        fx(0.0042),
        &full_table(),
    );
    assert_eq!(samples[5].position, r3(0, 0, -5));
    assert_eq!(samples[5].velocity, r3(0, 0, -5_000_000_050));
}

#[test]
fn measurable_descent_below_ground_level_ends_the_flight() {
    let start = KinematicState { position: v3(0.0, 0.0, 0.0), velocity: v3(0.0, 0.0, -3.0) };
    let samples = integrate_single_trajectory(
        start,
        raw(1),
        raw(5),
        fx(0.0),
        Vec3::zero(),
        fx(0.0),
        fx(1.225),
        fx(0.0042),
        &full_table(),
    );
    assert_eq!(samples.len(), 2);
    assert_eq!(samples[1].position, r3(0, 0, 0));
    assert_eq!(samples[1].velocity, r3(0, 0, -30_000_000_000));
    assert_eq!(samples[1].time, raw(0));
}
