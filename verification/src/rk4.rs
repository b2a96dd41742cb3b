//! One step of the classic fourth-order Runge-Kutta scheme for the ball in
//! flight.

use vstd::prelude::*;
use crate::constants::{BALL_MASS, GRAVITY};
use crate::fixed::Fixed;
use crate::force::{aerodynamic_force_with_wind, spec_aerodynamic_force_with_wind, HALF};
use crate::table::CoefficientTable;
use crate::vector::Vec3;
use crate::wind::{apply_wind_shear, lemma_no_wind_at_any_height, spec_apply_wind_shear};

verus! {

/// Position in meters and velocity in meters per second.
#[derive(Clone, Copy, Debug, PartialEq, Eq, Structural)]
pub struct KinematicState {
    pub position: Vec3,
    pub velocity: Vec3,
}

/// The rate of change of a state: velocity and acceleration.
#[derive(Clone, Copy, Debug, PartialEq, Eq, Structural)]
pub struct Derivative {
    pub velocity: Vec3,
    pub acceleration: Vec3,
}

/// Rate of change of `state` under `force`: the velocity passes through, the
/// acceleration is force over mass with gravity taken off the vertical part.
pub open spec fn spec_derivative(state: KinematicState, force: Vec3) -> Derivative {
    Derivative {
        velocity: state.velocity,
        acceleration: Vec3 {
            x: force.x.over(Fixed::from_raw(BALL_MASS)),
            y: force.y.over(Fixed::from_raw(BALL_MASS)),
            z: force.z.over(Fixed::from_raw(BALL_MASS)).minus(Fixed::from_raw(GRAVITY)),
        },
    }
}

/// Computes the rate of change of a state.
#[verifier::when_used_as_spec(spec_derivative)]
pub fn derivative(state: KinematicState, force: Vec3) -> (r: Derivative)
    ensures
        r == spec_derivative(state, force),
{
    Derivative {
        velocity: state.velocity,
        acceleration: Vec3 {
            x: force.x.over(Fixed::from_raw(BALL_MASS)),
            y: force.y.over(Fixed::from_raw(BALL_MASS)),
            z: force.z.over(Fixed::from_raw(BALL_MASS)).minus(Fixed::from_raw(GRAVITY)),
        },
    }
}

/// `state + scale * deriv`, component by component.
pub open spec fn spec_add_scaled(
    state: KinematicState,
    deriv: Derivative,
    scale: Fixed,
) -> KinematicState {
    KinematicState {
        position: state.position.plus(deriv.velocity.scale(scale)),
        velocity: state.velocity.plus(deriv.acceleration.scale(scale)),
    }
}

/// Moves a state along a rate of change.
#[verifier::when_used_as_spec(spec_add_scaled)]
pub fn add_scaled(state: KinematicState, deriv: Derivative, scale: Fixed) -> (r: KinematicState)
    ensures
        r == spec_add_scaled(state, deriv, scale),
{
    KinematicState {
        position: state.position.plus(deriv.velocity.scale(scale)),
        velocity: state.velocity.plus(deriv.acceleration.scale(scale)),
    }
}

/// The wind at a height: the reference wind scaled to the height, or none in
/// still air.
pub open spec fn spec_wind_at(base_wind_velocity: Option<Vec3>, height_m: Fixed) -> Vec3 {
    match base_wind_velocity {
        Some(wind) => apply_wind_shear(wind, height_m),
        None => Vec3::zero(),
    }
}

/// Evaluates the wind at a height. Still air needs no look at the wind
/// profile.
#[verifier::when_used_as_spec(spec_wind_at)]
pub fn wind_at(base_wind_velocity: Option<Vec3>, height_m: Fixed) -> (r: Vec3)
    ensures
        r == spec_wind_at(base_wind_velocity, height_m),
{
    match base_wind_velocity {
        Some(wind) => apply_wind_shear(wind, height_m),
        None => Vec3::zero(),
    }
}

/// The rate of change at one stage: the wind is taken at the height of that
/// stage's own state.
pub open spec fn spec_stage(
    state: KinematicState,
    base_wind_velocity: Option<Vec3>,
    spin_axis: Vec3,
    spin_rpm: Fixed,
    air_density: Fixed,
    cross_area: Fixed,
    table: &CoefficientTable,
) -> Derivative {
    derivative(
        state,
        aerodynamic_force_with_wind(
            state.velocity,
            wind_at(base_wind_velocity, state.position.z),
            spin_axis,
            spin_rpm,
            air_density,
            cross_area,
            table,
        ),
    )
}

/// Evaluates one stage.
#[verifier::when_used_as_spec(spec_stage)]
pub fn stage(
    state: KinematicState,
    base_wind_velocity: Option<Vec3>,
    spin_axis: Vec3,
    spin_rpm: Fixed,
    air_density: Fixed,
    cross_area: Fixed,
    table: &CoefficientTable,
) -> (r: Derivative)
    requires
        table.wf(),
    ensures
        r == spec_stage(
            state,
            base_wind_velocity,
            spin_axis,
            spin_rpm,
            air_density,
            cross_area,
            table,
        ),
{
    let wind = wind_at(base_wind_velocity, state.position.z);
    let force = aerodynamic_force_with_wind(
        state.velocity,
        wind,
        spin_axis,
        spin_rpm,
        air_density,
        cross_area,
        table,
    );
    derivative(state, force)
}

/// The weighted sum `k1 + 2 k2 + 2 k3 + k4` of four stage values.
pub open spec fn spec_weigh(k1: Vec3, k2: Vec3, k3: Vec3, k4: Vec3) -> Vec3 {
    k1.plus(k2.scale(Fixed::from_int(2))).plus(k3.scale(Fixed::from_int(2))).plus(k4)
}

/// Weighs four stage values.
#[verifier::when_used_as_spec(spec_weigh)]
pub fn weigh(k1: Vec3, k2: Vec3, k3: Vec3, k4: Vec3) -> (r: Vec3)
    ensures
        r == spec_weigh(k1, k2, k3, k4),
{
    k1.plus(k2.scale(Fixed::from_int(2))).plus(k3.scale(Fixed::from_int(2))).plus(k4)
}

/// The state one step of `dt` seconds later: stages at the start, twice at
/// the midpoint and at the end, combined with the weights `(1, 2, 2, 1) / 6`.
/// The weighted sum is multiplied by `dt` before it is divided by 6, which
/// loses less to rounding than a sixth of `dt` would.
/// `base_wind_velocity` is the wind at the reference height, or none in still
/// air.
#[verifier::opaque]
pub open spec fn spec_step(
    state: KinematicState,
    dt: Fixed,
    base_wind_velocity: Option<Vec3>,
    spin_axis: Vec3,
    spin_rpm: Fixed,
    air_density: Fixed,
    cross_area: Fixed,
    table: &CoefficientTable,
) -> KinematicState {
    let half_dt = Fixed::from_raw(HALF).times(dt);
    let k1 = stage(state, base_wind_velocity, spin_axis, spin_rpm, air_density, cross_area, table);
    let k2 = stage(
        add_scaled(state, k1, half_dt),
        base_wind_velocity,
        spin_axis,
        spin_rpm,
        air_density,
        cross_area,
        table,
    );
    let k3 = stage(
        add_scaled(state, k2, half_dt),
        base_wind_velocity,
        spin_axis,
        spin_rpm,
        air_density,
        cross_area,
        table,
    );
    let k4 = stage(
        add_scaled(state, k3, dt),
        base_wind_velocity,
        spin_axis,
        spin_rpm,
        air_density,
        cross_area,
        table,
    );
    let six = Fixed::from_int(6);
    KinematicState {
        position: state.position.plus(
            weigh(k1.velocity, k2.velocity, k3.velocity, k4.velocity).scale(dt).unscale(six),
        ),
        velocity: state.velocity.plus(
            weigh(k1.acceleration, k2.acceleration, k3.acceleration, k4.acceleration).scale(
                dt,
            ).unscale(six),
        ),
    }
}

/// Advances a state by one step of the classic four-stage scheme.
#[verifier::when_used_as_spec(spec_step)]
pub fn step(
    state: KinematicState,
    dt: Fixed,
    base_wind_velocity: Option<Vec3>,
    spin_axis: Vec3,
    spin_rpm: Fixed,
    air_density: Fixed,
    cross_area: Fixed,
    table: &CoefficientTable,
) -> (r: KinematicState)
    requires
        table.wf(),
    ensures
        r == spec_step(
            state,
            dt,
            base_wind_velocity,
            spin_axis,
            spin_rpm,
            air_density,
            cross_area,
            table,
        ),
{
    proof {
        reveal(spec_step);
    }
    let half_dt = Fixed::from_raw(HALF).times(dt);
    let k1 = stage(state, base_wind_velocity, spin_axis, spin_rpm, air_density, cross_area, table);
    let k2 = stage(
        add_scaled(state, k1, half_dt),
        base_wind_velocity,
        spin_axis,
        spin_rpm,
        air_density,
        cross_area,
        table,
    );
    let k3 = stage(
        add_scaled(state, k2, half_dt),
        base_wind_velocity,
        spin_axis,
        spin_rpm,
        air_density,
        cross_area,
        table,
    );
    let k4 = stage(
        add_scaled(state, k3, dt),
        base_wind_velocity,
        spin_axis,
        spin_rpm,
        air_density,
        cross_area,
        table,
    );
    let six = Fixed::from_int(6);
    KinematicState {
        position: state.position.plus(
            weigh(k1.velocity, k2.velocity, k3.velocity, k4.velocity).scale(dt).unscale(six),
        ),
        velocity: state.velocity.plus(
            weigh(k1.acceleration, k2.acceleration, k3.acceleration, k4.acceleration).scale(
                dt,
            ).unscale(six),
        ),
    }
}

/// The state one step later in air that moves.
pub open spec fn spec_step_rk4_with_wind(
    state: KinematicState,
    dt: Fixed,
    base_wind_velocity: Vec3,
    spin_axis: Vec3,
    spin_rpm: Fixed,
    air_density: Fixed,
    cross_area: Fixed,
    table: &CoefficientTable,
) -> KinematicState {
    spec_step(
        state,
        dt,
        Some(base_wind_velocity),
        spin_axis,
        spin_rpm,
        air_density,
        cross_area,
        table,
    )
}

/// Advances a state by one step in air that moves. `base_wind_velocity` is
/// the wind at the reference height; each of the four stages scales it to the
/// height of its own state.
#[verifier::when_used_as_spec(spec_step_rk4_with_wind)]
pub fn step_rk4_with_wind(
    state: KinematicState,
    dt: Fixed,
    base_wind_velocity: Vec3,
    spin_axis: Vec3,
    spin_rpm: Fixed,
    air_density: Fixed,
    cross_area: Fixed,
    table: &CoefficientTable,
) -> (r: KinematicState)
    requires
        table.wf(),
    ensures
        r == spec_step_rk4_with_wind(
            state,
            dt,
            base_wind_velocity,
            spin_axis,
            spin_rpm,
            air_density,
            cross_area,
            table,
        ),
{
    step(state, dt, Some(base_wind_velocity), spin_axis, spin_rpm, air_density, cross_area, table)
}

/// The state one step later in still air.
pub open spec fn spec_step_rk4(
    state: KinematicState,
    dt: Fixed,
    spin_axis: Vec3,
    spin_rpm: Fixed,
    air_density: Fixed,
    cross_area: Fixed,
    table: &CoefficientTable,
) -> KinematicState {
    spec_step(state, dt, None, spin_axis, spin_rpm, air_density, cross_area, table)
}

/// Advances a state by one step in still air: the same scheme with no wind
/// at any stage.
#[verifier::when_used_as_spec(spec_step_rk4)]
pub fn step_rk4(
    state: KinematicState,
    dt: Fixed,
    spin_axis: Vec3,
    spin_rpm: Fixed,
    air_density: Fixed,
    cross_area: Fixed,
    table: &CoefficientTable,
) -> (r: KinematicState)
    requires
        table.wf(),
    ensures
        r == spec_step_rk4(state, dt, spin_axis, spin_rpm, air_density, cross_area, table),
{
    step(state, dt, None, spin_axis, spin_rpm, air_density, cross_area, table)
}

/// A step in a wind of zero is a step in still air.
pub proof fn lemma_step_in_no_wind(
    state: KinematicState,
    dt: Fixed,
    spin_axis: Vec3,
    spin_rpm: Fixed,
    air_density: Fixed,
    cross_area: Fixed,
    table: &CoefficientTable,
)
    ensures
        spec_step_rk4_with_wind(
            state,
            dt,
            Vec3::zero(),
            spin_axis,
            spin_rpm,
            air_density,
            cross_area,
            table,
        ) == spec_step_rk4(state, dt, spin_axis, spin_rpm, air_density, cross_area, table),
{
    reveal(spec_step);
    assert forall|height_m: Fixed|
        #[trigger] spec_wind_at(Some(Vec3::zero()), height_m) == spec_wind_at(
            None,
            height_m,
        ) by {
        lemma_no_wind_at_any_height(height_m);
    }
}

} // verus!
