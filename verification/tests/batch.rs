use trajectory_rs::batch::{
    calculate_endpoints_batch, integrate_trajectories_batch, pair_launches, summarize,
    trajectory_endpoint, BatchError, Launch, SpinState, TrajectorySummary,
};
use trajectory_rs::fixed::{Fixed, SCALE};
use trajectory_rs::flight::{integrate_single_trajectory, TrajectorySample};
use trajectory_rs::rk4::KinematicState;
use trajectory_rs::table::CoefficientTable;
use trajectory_rs::vector::Vec3;

fn fx(v: f64) -> Fixed {
    Fixed::from_raw((v * SCALE as f64).round() as i64)
}

fn raw(r: i64) -> Fixed {
    Fixed::from_raw(r)
}

fn v3(x: f64, y: f64, z: f64) -> Vec3 {
    Vec3::new(fx(x), fx(y), fx(z))
}

fn r3(x: i64, y: i64, z: i64) -> Vec3 {
    Vec3::new(raw(x), raw(y), raw(z))
}

fn grid(rows: usize, cols: usize, base: i64, per_row: i64, per_col: i64) -> Vec<Vec<Fixed>> {
    let mut out = Vec::new();
    for i in 0..rows {
        let mut row = Vec::new();
        for j in 0..cols {
            row.push(raw(base + per_row * i as i64 + per_col * j as i64));
        }
        out.push(row);
    }
    out
}

fn full_table() -> CoefficientTable {
    CoefficientTable::new(
        grid(55, 80, 3_000_000_000, 20_000_000, 1_000_000),
        grid(55, 80, 0, 0, 5_000_000),
    )
    .unwrap()
}

fn launch() -> KinematicState {
    KinematicState { position: v3(0.0, 0.0, 1.0), velocity: v3(0.0, 40.0, 30.0) }
}

fn no_spin() -> SpinState {
    SpinState { axis: Vec3::zero(), rpm: fx(0.0) }
}

fn backspin() -> SpinState {
    SpinState { axis: v3(-1.0, 0.0, 0.0), rpm: fx(2200.0) }
}

fn sample(x: f64, y: f64, z: f64, t: f64) -> TrajectorySample {
    TrajectorySample { position: v3(x, y, z), velocity: Vec3::zero(), time: fx(t) }
}

#[test]
fn summary_reads_the_last_sample_and_the_apex() {
    let samples = vec![
        sample(0.0, 0.0, 1.0, 0.0),
        sample(1.0, 2.0, 7.5, 0.1),
        sample(2.0, 3.0, 4.0, 0.2),
        sample(3.0, 4.0, 0.0, 0.3),
    ];
    assert_eq!(
        summarize(&samples),
        TrajectorySummary {
            landing_position: v3(3.0, 4.0, 0.0),
            landing_time: fx(0.3),
            distance: fx(5.0),
            apex_height: fx(7.5),
        }
    );
}

#[test]
fn apex_is_at_least_zero() {
    let samples = vec![sample(0.0, 0.0, -3.0, 0.0), sample(1.0, 0.0, -1.0, 0.1)];
    let s = summarize(&samples);
    assert_eq!(s.apex_height, fx(0.0));
    assert_eq!(s.landing_position, v3(1.0, 0.0, -1.0));
    assert_eq!(s.distance, fx(1.0));
}

#[test]
fn summary_of_no_samples_is_zero() {
    assert_eq!(
        summarize(&Vec::new()),
        TrajectorySummary {
            landing_position: Vec3::zero(),
            landing_time: fx(0.0),
            distance: fx(0.0),
            apex_height: fx(0.0),
        }
    );
}

#[test]
fn endpoint_of_the_launched_ball() {
    let t = full_table();
    let end = trajectory_endpoint(
        launch(),
        fx(0.01),
        fx(10.0),
        fx(0.0),
        no_spin(),
        fx(1.225),
        fx(0.0042),
        &t,
    );
    assert_eq!(
        end,
        TrajectorySummary {
            landing_position: r3(0, 1_240_723_756_758, 0),
            landing_time: raw(49_686_735_676),
            distance: raw(1_240_723_756_758),
            apex_height: raw(312_189_223_470),
        }
    );
    let samples = integrate_single_trajectory(
        launch(),
        fx(0.01),
        fx(10.0),
        fx(0.0),
        Vec3::zero(),
        fx(0.0),
        fx(1.225),
        fx(0.0042),
        &t,
    );
    assert_eq!(end, summarize(&samples));
}

#[test]
fn batch_keeps_the_order_of_its_input() {
    let t = full_table();
    let other = KinematicState { position: v3(2.0, 1.0, 1.5), velocity: v3(25.0, 20.0, 18.0) };
    let states = vec![launch(), other, launch()];
    let spins = vec![no_spin(), backspin(), backspin()];
    let ends = integrate_trajectories_batch(
        &states,
        fx(0.01),
        fx(10.0),
        fx(0.0),
        &spins,
        fx(1.225),
        fx(0.0042),
        &t,
    )
    .unwrap();
    assert_eq!(ends.len(), 3);
    for i in 0..3 {
        let one = trajectory_endpoint(
            states[i],
            fx(0.01),
            fx(10.0),
            fx(0.0),
            spins[i],
            fx(1.225),
            fx(0.0042),
            &t,
        );
        assert_eq!(ends[i], one);
    }
    assert_eq!(ends[0].landing_time, raw(49_686_735_676));
    assert_eq!(ends[1].landing_time, raw(34_551_045_429));
    assert_eq!(ends[1].landing_position, r3(668_740_896_033, 524_507_255_585, 0));
    assert_eq!(ends[1].distance, raw(849_895_433_090));
    assert_eq!(ends[1].apex_height, raw(151_147_978_259));
    assert_eq!(ends[2].landing_position, r3(0, 1_250_716_545_285, 0));
    assert_eq!(ends[2].landing_time, raw(51_121_933_223));
    assert_eq!(ends[2].apex_height, raw(322_239_168_307));
    assert_ne!(ends[0], ends[1]);
    let same = calculate_endpoints_batch(
        &states,
        fx(0.01),
        fx(10.0),
        fx(0.0),
        &spins,
        fx(1.225),
        fx(0.0042),
        &t,
    );
    assert_eq!(same, Ok(ends));
}

#[test]
fn batch_with_unequal_lengths_is_refused() {
    let t = full_table();
    let states = vec![launch(), launch()];
    let spins = vec![no_spin()];
    let r = integrate_trajectories_batch(
        &states,
        fx(0.01),
        fx(10.0),
        fx(0.0),
        &spins,
        fx(1.225),
        fx(0.0042),
        &t,
    );
    assert_eq!(r, Err(BatchError::LengthMismatch));
    let r = calculate_endpoints_batch(
        &Vec::new(),
        fx(0.01),
        fx(10.0),
        fx(0.0),
        &spins,
        fx(1.225),
        fx(0.0042),
        &t,
    );
    assert_eq!(r, Err(BatchError::LengthMismatch));
}

#[test]
fn empty_batch_gives_no_ends() {
    let t = full_table();
    let r = integrate_trajectories_batch(
        &Vec::new(),
        fx(0.01),
        fx(10.0),
        fx(0.0),
        &Vec::new(),
        fx(1.225),
        fx(0.0042),
        &t,
    );
    assert_eq!(r, Ok(Vec::new()));
}

#[test]
fn launches_are_paired_by_index() {
    let other = KinematicState { position: v3(2.0, 1.0, 1.5), velocity: v3(25.0, 20.0, 18.0) };
    let paired = pair_launches(&vec![launch(), other], &vec![backspin(), no_spin()]);
    assert_eq!(
        paired,
        Ok(vec![
            Launch { state: launch(), spin: backspin() },
            Launch { state: other, spin: no_spin() },
        ])
    );
    assert_eq!(pair_launches(&Vec::new(), &Vec::new()), Ok(Vec::new()));
    assert_eq!(
        pair_launches(&vec![launch()], &Vec::new()),
        Err(BatchError::LengthMismatch)
    );
    assert_eq!(
        pair_launches(&vec![launch()], &vec![no_spin(), no_spin()]),
        Err(BatchError::LengthMismatch)
    );
}
