//! Where trajectories end: landing point, flight time, carry and apex, for
//! one trajectory or for many.

use vstd::prelude::*;
use crate::fixed::Fixed;
use crate::flight::{
    integrate_single_trajectory, spec_integrate_single_trajectory, TrajectorySample,
};
use crate::rk4::KinematicState;
use crate::table::CoefficientTable;
use crate::vector::{Vec2, Vec3};

verus! {

/// The spin of a ball: an axis of any length and a rate in rpm.
#[derive(Clone, Copy, Debug, PartialEq, Eq, Structural)]
pub struct SpinState {
    pub axis: Vec3,
    pub rpm: Fixed,
}

/// The end of one trajectory.
#[derive(Clone, Copy, Debug, PartialEq, Eq, Structural)]
pub struct TrajectorySummary {
    /// Position of the last sample.
    pub landing_position: Vec3,
    /// Time of the last sample.
    pub landing_time: Fixed,
    /// Horizontal distance of the last sample from the origin.
    pub distance: Fixed,
    /// The greatest height of any sample, and at least zero.
    pub apex_height: Fixed,
}

/// Why a batch was refused.
#[derive(Clone, Copy, Debug, PartialEq, Eq, Structural)]
pub enum BatchError {
    /// There are not as many spins as launch states.
    LengthMismatch,
}

/// The greatest height among `samples` and zero.
pub open spec fn spec_apex_height(samples: Seq<TrajectorySample>) -> Fixed
    decreases samples.len(),
{
    if samples.len() == 0 {
        Fixed::zero()
    } else {
        spec_apex_height(samples.drop_last()).max(samples.last().position.z)
    }
}

/// The apex is zero or the height of a sample, and no sample is higher.
pub proof fn lemma_apex_height(samples: Seq<TrajectorySample>)
    ensures
        spec_apex_height(samples).raw >= 0,
        forall|i: int|
            0 <= i < samples.len() ==> (#[trigger] samples[i]).position.z.raw <= spec_apex_height(
                samples,
            ).raw,
        spec_apex_height(samples) == Fixed::zero() || exists|i: int|
            0 <= i < samples.len() && spec_apex_height(samples) == (
            #[trigger] samples[i]).position.z,
    decreases samples.len(),
{
    if samples.len() > 0 {
        let front = samples.drop_last();
        lemma_apex_height(front);
        assert forall|i: int| 0 <= i < samples.len() implies (
        #[trigger] samples[i]).position.z.raw <= spec_apex_height(samples).raw by {
            if i < front.len() {
                assert(front[i] == samples[i]);
            }
        }
        if spec_apex_height(samples) == samples.last().position.z {
            assert(samples[samples.len() - 1] == samples.last());
        } else if spec_apex_height(samples) != Fixed::zero() {
            let i = choose|i: int|
                0 <= i < front.len() && spec_apex_height(front) == (#[trigger] front[i]).position.z;
            assert(front[i] == samples[i]);
        }
    }
}

/// The end of the trajectory `samples`; all zero for no samples.
pub open spec fn spec_summarize(samples: Seq<TrajectorySample>) -> TrajectorySummary {
    if samples.len() == 0 {
        TrajectorySummary {
            landing_position: Vec3::zero(),
            landing_time: Fixed::zero(),
            distance: Fixed::zero(),
            apex_height: Fixed::zero(),
        }
    } else {
        TrajectorySummary {
            landing_position: samples.last().position,
            landing_time: samples.last().time,
            distance: Vec2::new(samples.last().position.x, samples.last().position.y).norm(),
            apex_height: spec_apex_height(samples),
        }
    }
}

/// Reads the end of a trajectory off its samples.
pub fn summarize(samples: &Vec<TrajectorySample>) -> (r: TrajectorySummary)
    ensures
        r == spec_summarize(samples@),
        r.apex_height.raw >= 0,
        forall|i: int|
            0 <= i < samples@.len() ==> (#[trigger] samples@[i]).position.z.raw
                <= r.apex_height.raw,
{
    proof {
        lemma_apex_height(samples@);
    }
    let n = samples.len();
    if n == 0 {
        return TrajectorySummary {
            landing_position: Vec3::zero(),
            landing_time: Fixed::zero(),
            distance: Fixed::zero(),
            apex_height: Fixed::zero(),
        };
    }
    let mut apex = Fixed::zero();
    let mut i: usize = 0;
    while i < n
        invariant
            i <= n,
            n == samples@.len(),
            apex == spec_apex_height(samples@.take(i as int)),
        decreases n - i,
    {
        proof {
            assert(samples@.take(i + 1).drop_last() =~= samples@.take(i as int));
        }
        apex = apex.max(samples[i].position.z);
        i = i + 1;
    }
    proof {
        assert(samples@.take(n as int) =~= samples@);
    }
    let last = samples[n - 1];
    TrajectorySummary {
        landing_position: last.position,
        landing_time: last.time,
        distance: Vec2::new(last.position.x, last.position.y).norm(),
        apex_height: apex,
    }
}

/// The end of the trajectory of one ball in still air.
pub open spec fn spec_trajectory_endpoint(
    initial_state: KinematicState,
    dt: Fixed,
    max_time: Fixed,
    ground_level: Fixed,
    spin: SpinState,
    air_density: Fixed,
    cross_area: Fixed,
    table: &CoefficientTable,
) -> TrajectorySummary {
    spec_summarize(
        spec_integrate_single_trajectory(
            initial_state,
            dt,
            max_time,
            ground_level,
            spin.axis,
            spin.rpm,
            air_density,
            cross_area,
            table,
        ),
    )
}

/// Integrates one trajectory in still air and keeps only its end.
pub fn trajectory_endpoint(
    initial_state: KinematicState,
    dt: Fixed,
    max_time: Fixed,
    ground_level: Fixed,
    spin: SpinState,
    air_density: Fixed,
    cross_area: Fixed,
    table: &CoefficientTable,
) -> (r: TrajectorySummary)
    requires
        table.wf(),
    ensures
        r == spec_trajectory_endpoint(
            initial_state,
            dt,
            max_time,
            ground_level,
            spin,
            air_density,
            cross_area,
            table,
        ),
{
    let samples = integrate_single_trajectory(
        initial_state,
        dt,
        max_time,
        ground_level,
        spin.axis,
        spin.rpm,
        air_density,
        cross_area,
        table,
    );
    summarize(&samples)
}

/// One launch of a batch: a state and the spin of the ball.
#[derive(Clone, Copy, Debug, PartialEq, Eq, Structural)]
pub struct Launch {
    pub state: KinematicState,
    pub spin: SpinState,
}

/// Pairs each launch state with the spin of the same index, and refuses
/// lists of unequal length.
pub fn pair_launches(initial_states: &Vec<KinematicState>, spin_params: &Vec<SpinState>) -> (r:
    Result<Vec<Launch>, BatchError>)
    ensures
        initial_states@.len() != spin_params@.len() <==> r == Err::<Vec<Launch>, BatchError>(
            BatchError::LengthMismatch,
        ),
        initial_states@.len() == spin_params@.len() <==> r is Ok,
        r matches Ok(launches) ==> {
            &&& launches@.len() == initial_states@.len()
            &&& forall|i: int|
                0 <= i < launches@.len() ==> #[trigger] launches@[i] == (Launch {
                    state: initial_states@[i],
                    spin: spin_params@[i],
                })
        },
{
    if initial_states.len() != spin_params.len() {
        return Err(BatchError::LengthMismatch);
    }
    let mut launches: Vec<Launch> = Vec::new();
    let mut i: usize = 0;
    while i < initial_states.len()
        invariant
            initial_states@.len() == spin_params@.len(),
            i <= initial_states@.len(),
            launches@.len() == i,
            forall|j: int|
                0 <= j < i ==> #[trigger] launches@[j] == (Launch {
                    state: initial_states@[j],
                    spin: spin_params@[j],
                }),
        decreases initial_states@.len() - i,
    {
        launches.push(Launch { state: initial_states[i], spin: spin_params[i] });
        i = i + 1;
    }
    Ok(launches)
}

/// Integrates one trajectory for each launch state with the spin of the
/// same index. The ends come back in the order of the launch states. The
/// batch is refused, before any trajectory is integrated, where the numbers
/// of launch states and of spins differ.
pub fn integrate_trajectories_batch(
    initial_states: &Vec<KinematicState>,
    dt: Fixed,
    max_time: Fixed,
    ground_level: Fixed,
    spin_params: &Vec<SpinState>,
    air_density: Fixed,
    cross_area: Fixed,
    table: &CoefficientTable,
) -> (r: Result<Vec<TrajectorySummary>, BatchError>)
    requires
        table.wf(),
    ensures
        initial_states@.len() != spin_params@.len() <==> r == Err::<
            Vec<TrajectorySummary>,
            BatchError,
        >(BatchError::LengthMismatch),
        initial_states@.len() == spin_params@.len() <==> r is Ok,
        r matches Ok(ends) ==> {
            &&& ends@.len() == initial_states@.len()
            &&& forall|i: int|
                0 <= i < ends@.len() ==> #[trigger] ends@[i] == spec_trajectory_endpoint(
                    initial_states@[i],
                    dt,
                    max_time,
                    ground_level,
                    spin_params@[i],
                    air_density,
                    cross_area,
                    table,
                )
        },
{
    let launches = match pair_launches(initial_states, spin_params) {
        Ok(launches) => launches,
        Err(e) => {
            return Err(e);
        },
    };
    let mut ends: Vec<TrajectorySummary> = Vec::new();
    let mut i: usize = 0;
    while i < launches.len()
        invariant
            table.wf(),
            launches@.len() == initial_states@.len(),
            initial_states@.len() == spin_params@.len(),
            forall|j: int|
                0 <= j < launches@.len() ==> #[trigger] launches@[j] == (Launch {
                    state: initial_states@[j],
                    spin: spin_params@[j],
                }),
            i <= launches@.len(),
            ends@.len() == i,
            forall|j: int|
                0 <= j < i ==> #[trigger] ends@[j] == spec_trajectory_endpoint(
                    initial_states@[j],
                    dt,
                    max_time,
                    ground_level,
                    spin_params@[j],
                    air_density,
                    cross_area,
                    table,
                ),
        decreases launches@.len() - i,
    {
        ends.push(
            trajectory_endpoint(
                launches[i].state,
                dt,
                max_time,
                ground_level,
                launches[i].spin,
                air_density,
                cross_area,
                table,
            ),
        );
        i = i + 1;
    }
    Ok(ends)
}

/// The ends of many trajectories: `integrate_trajectories_batch` under the
/// name that says what is kept.
pub fn calculate_endpoints_batch(
    initial_states: &Vec<KinematicState>,
    dt: Fixed,
    max_time: Fixed,
    ground_level: Fixed,
    spin_params: &Vec<SpinState>,
    air_density: Fixed,
    cross_area: Fixed,
    table: &CoefficientTable,
) -> (r: Result<Vec<TrajectorySummary>, BatchError>)
    requires
        table.wf(),
    ensures
        initial_states@.len() != spin_params@.len() <==> r == Err::<
            Vec<TrajectorySummary>,
            BatchError,
        >(BatchError::LengthMismatch),
        initial_states@.len() == spin_params@.len() <==> r is Ok,
        r matches Ok(ends) ==> {
            &&& ends@.len() == initial_states@.len()
            &&& forall|i: int|
                0 <= i < ends@.len() ==> #[trigger] ends@[i] == spec_trajectory_endpoint(
                    initial_states@[i],
                    dt,
                    max_time,
                    ground_level,
                    spin_params@[i],
                    air_density,
                    cross_area,
                    table,
                )
        },
{
    integrate_trajectories_batch(
        initial_states,
        dt,
        max_time,
        ground_level,
        spin_params,
        air_density,
        cross_area,
        table,
    )
}

} // verus!
