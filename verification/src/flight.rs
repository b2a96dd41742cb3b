//! The airborne trajectory: repeated Runge-Kutta steps from launch until the
//! ball comes down to ground level or time runs out.

use vstd::prelude::*;
use crate::arith::{lemma_div_monotone, lemma_div_unique, lemma_mul_monotone};
use crate::fixed::{raw_magnitude, sat, saturate_unsigned, Fixed};
use crate::rk4::{lemma_step_in_no_wind, spec_step, step, KinematicState};
use crate::table::{lemma_lerp_between, lerp, spec_lerp, CoefficientTable};
use crate::vector::Vec3;

verus! {

/// A change of height of at most this much between two samples is no
/// descent: `10^-10` m, one unit of the grid.
pub const HEIGHT_TOLERANCE: i64 = 1;

/// Samples granted beyond `max_time / dt`.
pub const EXTRA_STEPS: u64 = 10;

/// One point of a trajectory.
#[derive(Clone, Copy, Debug, PartialEq, Eq, Structural)]
pub struct TrajectorySample {
    pub position: Vec3,
    pub velocity: Vec3,
    /// Seconds since launch.
    pub time: Fixed,
}

/// The sample that records `state` at `time`.
pub open spec fn spec_sample_of(state: KinematicState, time: Fixed) -> TrajectorySample {
    TrajectorySample { position: state.position, velocity: state.velocity, time }
}

/// Records a state at a time.
#[verifier::when_used_as_spec(spec_sample_of)]
pub fn sample_of(state: KinematicState, time: Fixed) -> (r: TrajectorySample)
    ensures
        r == spec_sample_of(state, time),
{
    TrajectorySample { position: state.position, velocity: state.velocity, time }
}

/// The most samples a trajectory may hold: `max_time / dt`, rounded down, and
/// ten more. A step or a time limit that is not positive leaves the ten.
pub open spec fn spec_max_steps(max_time: Fixed, dt: Fixed) -> int {
    if dt.raw > 0 && max_time.raw > 0 {
        max_time.raw / dt.raw + EXTRA_STEPS
    } else {
        EXTRA_STEPS as int
    }
}

/// Computes the bound on the number of samples.
pub fn max_steps(max_time: Fixed, dt: Fixed) -> (r: u64)
    ensures
        r == spec_max_steps(max_time, dt),
        r >= EXTRA_STEPS,
{
    if dt.raw > 0 && max_time.raw > 0 {
        proof {
            crate::arith::lemma_div_bounds(max_time.raw as int, dt.raw as int);
            let q = max_time.raw as int / dt.raw as int;
            if q < 0 {
                crate::arith::lemma_mul_monotone(q, -1, dt.raw as int);
            }
            if q > max_time.raw {
                crate::arith::lemma_mul_monotone(1, dt.raw as int, q);
            }
        }
        (max_time.raw / dt.raw) as u64 + EXTRA_STEPS
    } else {
        EXTRA_STEPS
    }
}

/// The step from `prev` to `next` brought the ball to ground level or below,
/// and changed its height by more than the tolerance.
pub open spec fn spec_touches_down(
    prev: KinematicState,
    next: KinematicState,
    ground_level: Fixed,
) -> bool {
    &&& next.position.z.raw <= ground_level.raw
    &&& next.position.z.minus(prev.position.z).abs().raw > HEIGHT_TOLERANCE
}

/// Whether a step ended the flight.
#[verifier::when_used_as_spec(spec_touches_down)]
pub fn touches_down(prev: KinematicState, next: KinematicState, ground_level: Fixed) -> (r: bool)
    ensures
        r == spec_touches_down(prev, next, ground_level),
{
    next.position.z.raw <= ground_level.raw && next.position.z.minus(prev.position.z).abs().raw
        > HEIGHT_TOLERANCE
}

/// The share of the step from `prev` to `next` after which the height
/// crosses `ground_level`, held between zero and one: the landing point is
/// interpolated between the two ends of the step and never beyond them.
pub open spec fn spec_landing_fraction(
    prev: KinematicState,
    next: KinematicState,
    ground_level: Fixed,
) -> Fixed {
    ground_level.minus(prev.position.z).over(next.position.z.minus(prev.position.z)).clamp(
        Fixed::zero(),
        Fixed::from_int(1),
    )
}

/// Computes the share of a step after which the ball is at ground level.
#[verifier::when_used_as_spec(spec_landing_fraction)]
pub fn landing_fraction(prev: KinematicState, next: KinematicState, ground_level: Fixed) -> (r:
    Fixed)
    ensures
        r == spec_landing_fraction(prev, next, ground_level),
        0 <= r.raw <= 10_000_000_000,
{
    ground_level.minus(prev.position.z).over(next.position.z.minus(prev.position.z)).clamp(
        Fixed::zero(),
        Fixed::from_int(1),
    )
}

/// The ball is above ground level before the step and lower after it, and
/// time runs forward.
pub open spec fn comes_down(
    prev: KinematicState,
    next: KinematicState,
    dt: Fixed,
    ground_level: Fixed,
) -> bool {
    &&& ground_level.raw < prev.position.z.raw
    &&& next.position.z.raw < prev.position.z.raw
    &&& 0 < dt.raw
}

/// The time from `prev` to the crossing of `ground_level`: the share of the
/// step `dt` that the fall to the ground has in the fall of the whole step.
/// For a ball that comes down from above it is rounded up to the grid, so
/// that the ball lands after the sample before; otherwise it is the landing
/// fraction times `dt`.
pub open spec fn spec_time_to_ground(
    prev: KinematicState,
    next: KinematicState,
    dt: Fixed,
    ground_level: Fixed,
) -> Fixed {
    if comes_down(prev, next, dt, ground_level) {
        let fall = prev.position.z.raw - ground_level.raw;
        let drop = prev.position.z.raw - next.position.z.raw;
        Fixed { raw: sat((fall * dt.raw + drop - 1) / drop) as i64 }
    } else {
        spec_landing_fraction(prev, next, ground_level).times(dt)
    }
}

/// Computes the time from the sample before the landing to the landing.
#[verifier::when_used_as_spec(spec_time_to_ground)]
pub fn time_to_ground(
    prev: KinematicState,
    next: KinematicState,
    dt: Fixed,
    ground_level: Fixed,
) -> (r: Fixed)
    ensures
        r == spec_time_to_ground(prev, next, dt, ground_level),
{
    if ground_level.raw < prev.position.z.raw && next.position.z.raw < prev.position.z.raw && 0
        < dt.raw {
        let fall: u128 = (prev.position.z.raw as i128 - ground_level.raw as i128) as u128;
        let drop: u128 = (prev.position.z.raw as i128 - next.position.z.raw as i128) as u128;
        let step: u128 = raw_magnitude(dt.raw);
        proof {
            lemma_mul_monotone(fall as int, 0xffff_ffff_ffff_ffff, step as int);
            lemma_mul_monotone(step as int, 0x8000_0000_0000_0000, 0xffff_ffff_ffff_ffff);
        }
        Fixed { raw: saturate_unsigned((fall * step + (drop - 1)) / drop) }
    } else {
        landing_fraction(prev, next, ground_level).times(dt)
    }
}

/// The point between `prev` (at `prev_time`) and `next` (one step of `dt`
/// later) at which the height crosses `ground_level`, by linear
/// interpolation. Its height is `ground_level` itself.
pub open spec fn spec_landing_sample(
    prev: KinematicState,
    prev_time: Fixed,
    next: KinematicState,
    dt: Fixed,
    ground_level: Fixed,
) -> TrajectorySample {
    let fraction = spec_landing_fraction(prev, next, ground_level);
    TrajectorySample {
        position: Vec3 {
            x: lerp(prev.position.x, next.position.x, fraction),
            y: lerp(prev.position.y, next.position.y, fraction),
            z: ground_level,
        },
        velocity: Vec3 {
            x: lerp(prev.velocity.x, next.velocity.x, fraction),
            y: lerp(prev.velocity.y, next.velocity.y, fraction),
            z: lerp(prev.velocity.z, next.velocity.z, fraction),
        },
        time: prev_time.plus(spec_time_to_ground(prev, next, dt, ground_level)),
    }
}

/// Interpolates the landing point.
#[verifier::when_used_as_spec(spec_landing_sample)]
pub fn landing_sample(
    prev: KinematicState,
    prev_time: Fixed,
    next: KinematicState,
    dt: Fixed,
    ground_level: Fixed,
) -> (r: TrajectorySample)
    ensures
        r == spec_landing_sample(prev, prev_time, next, dt, ground_level),
        r.position.z == ground_level,
{
    let fraction = landing_fraction(prev, next, ground_level);
    TrajectorySample {
        position: Vec3 {
            x: lerp(prev.position.x, next.position.x, fraction),
            y: lerp(prev.position.y, next.position.y, fraction),
            z: ground_level,
        },
        velocity: Vec3 {
            x: lerp(prev.velocity.x, next.velocity.x, fraction),
            y: lerp(prev.velocity.y, next.velocity.y, fraction),
            z: lerp(prev.velocity.z, next.velocity.z, fraction),
        },
        time: prev_time.plus(time_to_ground(prev, next, dt, ground_level)),
    }
}

/// The state that a sample records.
pub open spec fn state_of(sample: TrajectorySample) -> KinematicState {
    KinematicState { position: sample.position, velocity: sample.velocity }
}

/// The state one step after the state that `sample` records.
pub open spec fn step_from(
    sample: TrajectorySample,
    dt: Fixed,
    wind_velocity: Option<Vec3>,
    spin_axis: Vec3,
    spin_rpm: Fixed,
    air_density: Fixed,
    cross_area: Fixed,
    table: &CoefficientTable,
) -> KinematicState {
    step(
        state_of(sample),
        dt,
        wind_velocity,
        spin_axis,
        spin_rpm,
        air_density,
        cross_area,
        table,
    )
}

/// The trajectory that grows out of `samples` when the ball is in `state` at
/// `time`. While time is left and the bound on the samples is not reached, a
/// step is taken. A step that touches down is recorded as the interpolated
/// landing point, which ends the flight; any other is recorded as it is.
pub open spec fn spec_continue_flight(
    samples: Seq<TrajectorySample>,
    state: KinematicState,
    time: Fixed,
    step_bound: int,
    dt: Fixed,
    max_time: Fixed,
    ground_level: Fixed,
    wind_velocity: Option<Vec3>,
    spin_axis: Vec3,
    spin_rpm: Fixed,
    air_density: Fixed,
    cross_area: Fixed,
    table: &CoefficientTable,
) -> Seq<TrajectorySample>
    decreases step_bound - samples.len(),
{
    if time.raw < max_time.raw && samples.len() < step_bound - 1 {
        let next = step(
            state,
            dt,
            wind_velocity,
            spin_axis,
            spin_rpm,
            air_density,
            cross_area,
            table,
        );
        if touches_down(state, next, ground_level) {
            samples.push(landing_sample(state, time, next, dt, ground_level))
        } else {
            spec_continue_flight(
                samples.push(sample_of(next, time.plus(dt))),
                next,
                time.plus(dt),
                step_bound,
                dt,
                max_time,
                ground_level,
                wind_velocity,
                spin_axis,
                spin_rpm,
                air_density,
                cross_area,
                table,
            )
        }
    } else {
        samples
    }
}

/// The trajectory of a ball launched in `initial_state` at time zero, in a
/// wind given at the reference height or in still air.
pub open spec fn spec_integrate(
    initial_state: KinematicState,
    dt: Fixed,
    max_time: Fixed,
    ground_level: Fixed,
    wind_velocity: Option<Vec3>,
    spin_axis: Vec3,
    spin_rpm: Fixed,
    air_density: Fixed,
    cross_area: Fixed,
    table: &CoefficientTable,
) -> Seq<TrajectorySample> {
    spec_continue_flight(
        seq![sample_of(initial_state, Fixed::zero())],
        initial_state,
        Fixed::zero(),
        spec_max_steps(max_time, dt),
        dt,
        max_time,
        ground_level,
        wind_velocity,
        spin_axis,
        spin_rpm,
        air_density,
        cross_area,
        table,
    )
}

/// The flight came down: the step from its last sample but one touches
/// down, and its last sample is the landing point of that step.
pub open spec fn ends_in_touchdown(
    samples: Seq<TrajectorySample>,
    dt: Fixed,
    ground_level: Fixed,
    wind_velocity: Option<Vec3>,
    spin_axis: Vec3,
    spin_rpm: Fixed,
    air_density: Fixed,
    cross_area: Fixed,
    table: &CoefficientTable,
) -> bool {
    let n = samples.len() as int;
    let next = step_from(
        samples[n - 2],
        dt,
        wind_velocity,
        spin_axis,
        spin_rpm,
        air_density,
        cross_area,
        table,
    );
    &&& n >= 2
    &&& touches_down(state_of(samples[n - 2]), next, ground_level)
    &&& samples[n - 1] == landing_sample(
        state_of(samples[n - 2]),
        samples[n - 2].time,
        next,
        dt,
        ground_level,
    )
}

/// The number of steps of the flight that did not touch down: each of them
/// is recorded as it is.
pub open spec fn steps_kept(
    samples: Seq<TrajectorySample>,
    dt: Fixed,
    ground_level: Fixed,
    wind_velocity: Option<Vec3>,
    spin_axis: Vec3,
    spin_rpm: Fixed,
    air_density: Fixed,
    cross_area: Fixed,
    table: &CoefficientTable,
) -> int {
    if ends_in_touchdown(
        samples,
        dt,
        ground_level,
        wind_velocity,
        spin_axis,
        spin_rpm,
        air_density,
        cross_area,
        table,
    ) {
        samples.len() - 2
    } else {
        samples.len() - 1
    }
}

/// What every trajectory that `integrate` returns is like. It starts with
/// the launch state at time zero and holds no more samples than the bound
/// allows. Up to the last step that does not touch down, each sample is one
/// step after the sample before it, at the time `i * dt` after `i` steps.
/// A step that touches down ends the trajectory with its landing point, which
/// lies exactly at ground level; a trajectory without one ends because time
/// or the bound ran out. With time running forward no sample is earlier
/// than the one before it. With a positive step each is later, as long as
/// the time has not run into the end of the range, and the landing point is
/// later and lower than the sample before it where that lies above ground
/// level.
pub open spec fn is_flight_record(
    samples: Seq<TrajectorySample>,
    initial_state: KinematicState,
    dt: Fixed,
    max_time: Fixed,
    ground_level: Fixed,
    wind_velocity: Option<Vec3>,
    spin_axis: Vec3,
    spin_rpm: Fixed,
    air_density: Fixed,
    cross_area: Fixed,
    table: &CoefficientTable,
) -> bool {
    let n = samples.len() as int;
    let landed = ends_in_touchdown(
        samples,
        dt,
        ground_level,
        wind_velocity,
        spin_axis,
        spin_rpm,
        air_density,
        cross_area,
        table,
    );
    let kept = steps_kept(
        samples,
        dt,
        ground_level,
        wind_velocity,
        spin_axis,
        spin_rpm,
        air_density,
        cross_area,
        table,
    );
    &&& 1 <= n <= spec_max_steps(max_time, dt)
    &&& samples[0] == sample_of(initial_state, Fixed::zero())
    &&& forall|i: int| 0 <= i <= kept ==> (#[trigger] samples[i]).time.raw == sat(i * dt.raw)
    &&& forall|i: int|
        0 <= i < kept ==> {
            &&& samples[i + 1] == sample_of(
                step_from(
                    #[trigger] samples[i],
                    dt,
                    wind_velocity,
                    spin_axis,
                    spin_rpm,
                    air_density,
                    cross_area,
                    table,
                ),
                samples[i].time.plus(dt),
            )
            &&& !touches_down(state_of(samples[i]), state_of(samples[i + 1]), ground_level)
        }
    &&& landed ==> samples.last().position.z == ground_level
    &&& !landed ==> samples.last().time.raw >= max_time.raw || n >= spec_max_steps(max_time, dt)
        - 1
    &&& 0 <= dt.raw ==> forall|i: int|
        0 <= i < n - 1 ==> (#[trigger] samples[i]).time.raw <= samples[i + 1].time.raw
    &&& 0 < dt.raw ==> forall|i: int|
        0 <= i < kept && (i + 1) * dt.raw <= i64::MAX ==> (#[trigger] samples[i]).time.raw
            < samples[i + 1].time.raw
    &&& landed && ground_level.raw < samples[n - 2].position.z.raw ==> {
        &&& samples[n - 1].position.z.raw < samples[n - 2].position.z.raw
        &&& 0 < dt.raw && samples[n - 2].time.raw < i64::MAX ==> samples[n - 2].time.raw
            < samples[n - 1].time.raw
    }
}

/// The times after `i` and after `i + 1` steps are in order.
pub proof fn lemma_step_times_in_order(i: int, dt: Fixed)
    requires
        0 <= i,
    ensures
        0 <= dt.raw ==> sat(i * dt.raw) <= sat((i + 1) * dt.raw),
        0 < dt.raw && (i + 1) * dt.raw <= i64::MAX ==> sat(i * dt.raw) < sat((i + 1) * dt.raw),
{
    assert((i + 1) * dt.raw == i * dt.raw + dt.raw) by (nonlinear_arith);
    if 0 <= dt.raw {
        lemma_mul_monotone(0, dt.raw as int, i);
    }
}

/// Adding the step once more to the time after `k` steps gives the time
/// after `k + 1` steps, also where the time has run into the end of the
/// range.
pub proof fn lemma_time_after_steps(k: int, dt: Fixed)
    requires
        0 <= k,
    ensures
        Fixed::from_raw(sat(k * dt.raw) as i64).plus(dt).raw == sat((k + 1) * dt.raw),
{
    assert((k + 1) * dt.raw == k * dt.raw + dt.raw) by (nonlinear_arith);
    if dt.raw >= 0 {
        lemma_mul_monotone(0, dt.raw as int, k);
    } else {
        lemma_mul_monotone(dt.raw as int, 0, k);
    }
}

/// Integrates one trajectory from launch at time zero until the ball touches
/// down, `max_time` has passed, or the bound on the number of samples is
/// reached. The samples come in the order of the steps. The step that takes
/// the ball to the ground or below is not recorded itself: in its place
/// stands the landing point, which lies exactly at ground level and ends
/// the trajectory.
pub fn integrate(
    initial_state: KinematicState,
    dt: Fixed,
    max_time: Fixed,
    ground_level: Fixed,
    wind_velocity: Option<Vec3>,
    spin_axis: Vec3,
    spin_rpm: Fixed,
    air_density: Fixed,
    cross_area: Fixed,
    table: &CoefficientTable,
) -> (r: Vec<TrajectorySample>)
    requires
        table.wf(),
    ensures
        r@ == spec_integrate(
            initial_state,
            dt,
            max_time,
            ground_level,
            wind_velocity,
            spin_axis,
            spin_rpm,
            air_density,
            cross_area,
            table,
        ),
        is_flight_record(
            r@,
            initial_state,
            dt,
            max_time,
            ground_level,
            wind_velocity,
            spin_axis,
            spin_rpm,
            air_density,
            cross_area,
            table,
        ),
{
    let step_bound = max_steps(max_time, dt);
    let mut samples: Vec<TrajectorySample> = Vec::new();
    let mut state = initial_state;
    let mut time = Fixed::zero();
    samples.push(sample_of(state, time));
    proof {
        assert(0 * dt.raw == 0);
    }
    let mut landed = false;
    let ghost target = spec_integrate(
        initial_state,
        dt,
        max_time,
        ground_level,
        wind_velocity,
        spin_axis,
        spin_rpm,
        air_density,
        cross_area,
        table,
    );
    while !landed && time.raw < max_time.raw && (samples.len() as u64) < step_bound - 1
        invariant
            table.wf(),
            step_bound == spec_max_steps(max_time, dt),
            step_bound >= EXTRA_STEPS,
            1 <= samples@.len() < step_bound,
            samples@[0] == sample_of(initial_state, Fixed::zero()),
            !landed ==> samples@.last() == sample_of(state, time),
            !landed ==> target == spec_continue_flight(
                samples@,
                state,
                time,
                step_bound as int,
                dt,
                max_time,
                ground_level,
                wind_velocity,
                spin_axis,
                spin_rpm,
                air_density,
                cross_area,
                table,
            ),
            forall|i: int|
                0 <= i < samples@.len() - (if landed {
                    1int
                } else {
                    0int
                }) ==> (#[trigger] samples@[i]).time.raw == sat(i * dt.raw),
            forall|i: int|
                0 <= i < samples@.len() - (if landed {
                    2int
                } else {
                    1int
                }) ==> {
                    &&& samples@[i + 1] == sample_of(
                        step_from(
                            #[trigger] samples@[i],
                            dt,
                            wind_velocity,
                            spin_axis,
                            spin_rpm,
                            air_density,
                            cross_area,
                            table,
                        ),
                        samples@[i].time.plus(dt),
                    )
                    &&& !touches_down(
                        state_of(samples@[i]),
                        state_of(samples@[i + 1]),
                        ground_level,
                    )
                },
            landed ==> target == samples@,
            landed ==> ends_in_touchdown(
                samples@,
                dt,
                ground_level,
                wind_velocity,
                spin_axis,
                spin_rpm,
                air_density,
                cross_area,
                table,
            ),
        decreases
            if landed {
                0
            } else {
                step_bound - samples@.len()
            },
    {
        let prev = state;
        let prev_time = time;
        let ghost before = samples@;
        let next = step(
            prev,
            dt,
            wind_velocity,
            spin_axis,
            spin_rpm,
            air_density,
            cross_area,
            table,
        );
        proof {
            assert(state_of(before.last()) == prev);
            lemma_time_after_steps(before.len() - 1, dt);
        }
        if touches_down(prev, next, ground_level) {
            samples.push(landing_sample(prev, prev_time, next, dt, ground_level));
            landed = true;
            proof {
                let n = samples@.len() as int;
                assert forall|i: int| 0 <= i < before.len() implies #[trigger] samples@[i]
                    == before[i] by {}
                assert(samples@[n - 2] == before.last());
            }
        } else {
            state = next;
            time = prev_time.plus(dt);
            samples.push(sample_of(state, time));
            proof {
                let n = samples@.len() as int;
                assert forall|i: int| 0 <= i < before.len() implies #[trigger] samples@[i]
                    == before[i] by {}
                assert(samples@[n - 2] == before.last());
                assert(state_of(samples@[n - 1]) == next);
            }
        }
    }
    proof {
        let n = samples@.len() as int;
        let kept = if landed {
            n - 2
        } else {
            n - 1
        };
        assert forall|i: int| 0 <= i < kept implies {
            &&& 0 <= dt.raw ==> (#[trigger] samples@[i]).time.raw <= samples@[i + 1].time.raw
            &&& 0 < dt.raw && (i + 1) * dt.raw <= i64::MAX ==> samples@[i].time.raw
                < samples@[i + 1].time.raw
        } by {
            lemma_step_times_in_order(i, dt);
        }
        if landed {
            lemma_landing_between_steps(
                state_of(samples@[n - 2]),
                samples@[n - 2].time,
                step_from(
                    samples@[n - 2],
                    dt,
                    wind_velocity,
                    spin_axis,
                    spin_rpm,
                    air_density,
                    cross_area,
                    table,
                ),
                dt,
                ground_level,
            );
        }
        if !landed && n >= 2 {
            assert(samples@[n - 2 + 1] == sample_of(
                step_from(
                    samples@[n - 2],
                    dt,
                    wind_velocity,
                    spin_axis,
                    spin_rpm,
                    air_density,
                    cross_area,
                    table,
                ),
                samples@[n - 2].time.plus(dt),
            ));
        }
    }
    samples
}

/// The trajectory of a ball launched in air that moves.
pub open spec fn spec_integrate_single_trajectory_with_wind(
    initial_state: KinematicState,
    dt: Fixed,
    max_time: Fixed,
    ground_level: Fixed,
    wind_velocity: Vec3,
    spin_axis: Vec3,
    spin_rpm: Fixed,
    air_density: Fixed,
    cross_area: Fixed,
    table: &CoefficientTable,
) -> Seq<TrajectorySample> {
    spec_integrate(
        initial_state,
        dt,
        max_time,
        ground_level,
        Some(wind_velocity),
        spin_axis,
        spin_rpm,
        air_density,
        cross_area,
        table,
    )
}

/// Integrates one trajectory in air that moves with `wind_velocity` at the
/// reference height of 10 m.
pub fn integrate_single_trajectory_with_wind(
    initial_state: KinematicState,
    dt: Fixed,
    max_time: Fixed,
    ground_level: Fixed,
    wind_velocity: Vec3,
    spin_axis: Vec3,
    spin_rpm: Fixed,
    air_density: Fixed,
    cross_area: Fixed,
    table: &CoefficientTable,
) -> (r: Vec<TrajectorySample>)
    requires
        table.wf(),
    ensures
        r@ == spec_integrate_single_trajectory_with_wind(
            initial_state,
            dt,
            max_time,
            ground_level,
            wind_velocity,
            spin_axis,
            spin_rpm,
            air_density,
            cross_area,
            table,
        ),
        is_flight_record(
            r@,
            initial_state,
            dt,
            max_time,
            ground_level,
            Some(wind_velocity),
            spin_axis,
            spin_rpm,
            air_density,
            cross_area,
            table,
        ),
{
    integrate(
        initial_state,
        dt,
        max_time,
        ground_level,
        Some(wind_velocity),
        spin_axis,
        spin_rpm,
        air_density,
        cross_area,
        table,
    )
}

/// The trajectory of a ball launched in still air.
pub open spec fn spec_integrate_single_trajectory(
    initial_state: KinematicState,
    dt: Fixed,
    max_time: Fixed,
    ground_level: Fixed,
    spin_axis: Vec3,
    spin_rpm: Fixed,
    air_density: Fixed,
    cross_area: Fixed,
    table: &CoefficientTable,
) -> Seq<TrajectorySample> {
    spec_integrate(
        initial_state,
        dt,
        max_time,
        ground_level,
        None,
        spin_axis,
        spin_rpm,
        air_density,
        cross_area,
        table,
    )
}

/// Integrates one trajectory in still air.
pub fn integrate_single_trajectory(
    initial_state: KinematicState,
    dt: Fixed,
    max_time: Fixed,
    ground_level: Fixed,
    spin_axis: Vec3,
    spin_rpm: Fixed,
    air_density: Fixed,
    cross_area: Fixed,
    table: &CoefficientTable,
) -> (r: Vec<TrajectorySample>)
    requires
        table.wf(),
    ensures
        r@ == spec_integrate_single_trajectory(
            initial_state,
            dt,
            max_time,
            ground_level,
            spin_axis,
            spin_rpm,
            air_density,
            cross_area,
            table,
        ),
        is_flight_record(
            r@,
            initial_state,
            dt,
            max_time,
            ground_level,
            None,
            spin_axis,
            spin_rpm,
            air_density,
            cross_area,
            table,
        ),
{
    integrate(
        initial_state,
        dt,
        max_time,
        ground_level,
        None,
        spin_axis,
        spin_rpm,
        air_density,
        cross_area,
        table,
    )
}

/// `x` lies between `a` and `b`, whichever of the two is larger.
pub open spec fn within(x: Fixed, a: Fixed, b: Fixed) -> bool {
    a.min(b).raw <= x.raw <= a.max(b).raw
}

/// Interpolation with a fraction between zero and one stays between its
/// two ends.
proof fn lemma_between(a: Fixed, b: Fixed, t: Fixed)
    requires
        0 <= t.raw <= 10_000_000_000,
    ensures
        within(spec_lerp(a, b, t), a, b),
{
    lemma_lerp_between(a, b, t, a.min(b), a.max(b));
}

/// A ball that touches down lands between the two ends of its last step:
/// with time running forward at a time from the one to the other, and with
/// every coordinate of its position and velocity between theirs. Coming
/// from above ground level, with a positive step, it lands later than the
/// sample before, as long as the time has not run into the end of the range.
pub proof fn lemma_landing_between_steps(
    prev: KinematicState,
    prev_time: Fixed,
    next: KinematicState,
    dt: Fixed,
    ground_level: Fixed,
)
    requires
        next.position.z.raw <= ground_level.raw,
    ensures
        ({
            let landing = spec_landing_sample(prev, prev_time, next, dt, ground_level);
            &&& 0 <= dt.raw ==> prev_time.raw <= landing.time.raw <= prev_time.plus(dt).raw
            &&& ground_level.raw < prev.position.z.raw && 0 < dt.raw && prev_time.raw < i64::MAX
                ==> prev_time.raw < landing.time.raw
            &&& within(landing.position.x, prev.position.x, next.position.x)
            &&& within(landing.position.y, prev.position.y, next.position.y)
            &&& ground_level.raw <= prev.position.z.raw ==> within(
                landing.position.z,
                prev.position.z,
                next.position.z,
            )
            &&& within(landing.velocity.x, prev.velocity.x, next.velocity.x)
            &&& within(landing.velocity.y, prev.velocity.y, next.velocity.y)
            &&& within(landing.velocity.z, prev.velocity.z, next.velocity.z)
        }),
{
    let fraction = spec_landing_fraction(prev, next, ground_level);
    assert(0 <= fraction.raw <= 10_000_000_000);
    lemma_between(prev.position.x, next.position.x, fraction);
    lemma_between(prev.position.y, next.position.y, fraction);
    lemma_between(prev.velocity.x, next.velocity.x, fraction);
    lemma_between(prev.velocity.y, next.velocity.y, fraction);
    lemma_between(prev.velocity.z, next.velocity.z, fraction);
    let part = spec_time_to_ground(prev, next, dt, ground_level);
    if comes_down(prev, next, dt, ground_level) {
        let f = prev.position.z.raw - ground_level.raw;
        let d = prev.position.z.raw - next.position.z.raw;
        assert(1 <= part.raw <= dt.raw) by {
            lemma_mul_monotone(1, f, dt.raw as int);
            lemma_mul_monotone(f, d, dt.raw as int);
            assert(d * 1 == d);
            lemma_div_unique(d, d, 1);
            lemma_div_unique(d * dt.raw + d - 1, d, dt.raw as int);
            lemma_div_monotone(d, f * dt.raw + d - 1, d);
            lemma_div_monotone(f * dt.raw + d - 1, d * dt.raw + d - 1, d);
        }
    } else if 0 <= dt.raw {
        assert(0 <= part.raw <= dt.raw) by {
            lemma_mul_monotone(0, fraction.raw as int, dt.raw as int);
            lemma_mul_monotone(fraction.raw as int, 10_000_000_000, dt.raw as int);
            lemma_div_unique(0, 10_000_000_000, 0);
            lemma_div_unique(10_000_000_000 * dt.raw, 10_000_000_000, dt.raw as int);
            lemma_div_monotone(0, fraction.raw * dt.raw, 10_000_000_000);
            lemma_div_monotone(fraction.raw * dt.raw, 10_000_000_000 * dt.raw, 10_000_000_000);
        }
    }
}

/// From any point of a flight on, a wind of zero and still air give the same
/// samples.
pub proof fn lemma_continue_flight_in_no_wind(
    samples: Seq<TrajectorySample>,
    state: KinematicState,
    time: Fixed,
    step_bound: int,
    dt: Fixed,
    max_time: Fixed,
    ground_level: Fixed,
    spin_axis: Vec3,
    spin_rpm: Fixed,
    air_density: Fixed,
    cross_area: Fixed,
    table: &CoefficientTable,
)
    ensures
        spec_continue_flight(
            samples,
            state,
            time,
            step_bound,
            dt,
            max_time,
            ground_level,
            Some(Vec3::zero()),
            spin_axis,
            spin_rpm,
            air_density,
            cross_area,
            table,
        ) == spec_continue_flight(
            samples,
            state,
            time,
            step_bound,
            dt,
            max_time,
            ground_level,
            None,
            spin_axis,
            spin_rpm,
            air_density,
            cross_area,
            table,
        ),
    decreases step_bound - samples.len(),
{
    if time.raw < max_time.raw && samples.len() < step_bound - 1 {
        lemma_step_in_no_wind(state, dt, spin_axis, spin_rpm, air_density, cross_area, table);
        let next = spec_step(state, dt, None, spin_axis, spin_rpm, air_density, cross_area, table);
        if !touches_down(state, next, ground_level) {
            lemma_continue_flight_in_no_wind(
                samples.push(sample_of(next, time.plus(dt))),
                next,
                time.plus(dt),
                step_bound,
                dt,
                max_time,
                ground_level,
                spin_axis,
                spin_rpm,
                air_density,
                cross_area,
                table,
            );
        }
    }
}

/// A wind of zero and still air give the same trajectory.
pub proof fn lemma_no_wind_equivalence(
    initial_state: KinematicState,
    dt: Fixed,
    max_time: Fixed,
    ground_level: Fixed,
    spin_axis: Vec3,
    spin_rpm: Fixed,
    air_density: Fixed,
    cross_area: Fixed,
    table: &CoefficientTable,
)
    ensures
        spec_integrate_single_trajectory_with_wind(
            initial_state,
            dt,
            max_time,
            ground_level,
            Vec3::zero(),
            spin_axis,
            spin_rpm,
            air_density,
            cross_area,
            table,
        ) == spec_integrate_single_trajectory(
            initial_state,
            dt,
            max_time,
            ground_level,
            spin_axis,
            spin_rpm,
            air_density,
            cross_area,
            table,
        ),
{
    lemma_continue_flight_in_no_wind(
        seq![sample_of(initial_state, Fixed::zero())],
        initial_state,
        Fixed::zero(),
        spec_max_steps(max_time, dt),
        dt,
        max_time,
        ground_level,
        spin_axis,
        spin_rpm,
        air_density,
        cross_area,
        table,
    );
}

} // verus!
