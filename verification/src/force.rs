//! Aerodynamic force on the ball: drag against the air flow and the Magnus
//! force of its spin.

use vstd::prelude::*;
use crate::fixed::Fixed;
use crate::table::{lookup_cd_cl, spec_lookup_cd_cl, CoefficientTable};
use crate::vector::Vec3;

verus! {

/// A speed, or a vector length, below which a direction is not taken: `10^-6`.
pub const NEGLIGIBLE: i64 = 10_000;

/// The spin rate above which the ball feels a Magnus force, 1 rpm.
pub const MIN_SPIN_RPM: i64 = 10_000_000_000;

/// One half.
pub const HALF: i64 = 5_000_000_000;

/// The factor `0.5 * c * rho * A * v^2` that both forces share, for a
/// coefficient `c`. The large factors are multiplied first, so that rounding
/// to the grid costs the least.
pub open spec fn spec_dynamic_force(
    coefficient: Fixed,
    air_density: Fixed,
    cross_area: Fixed,
    speed: Fixed,
) -> Fixed {
    speed.times(speed).times(air_density).times(coefficient).times(cross_area).times(
        Fixed::from_raw(HALF),
    )
}

/// Magnitude of an aerodynamic force.
#[verifier::when_used_as_spec(spec_dynamic_force)]
pub fn dynamic_force(coefficient: Fixed, air_density: Fixed, cross_area: Fixed, speed: Fixed) -> (r:
    Fixed)
    ensures
        r == spec_dynamic_force(coefficient, air_density, cross_area, speed),
{
    speed.times(speed).times(air_density).times(coefficient).times(cross_area).times(
        Fixed::from_raw(HALF),
    )
}

/// The Magnus force of size `magnus_mag` on a ball that moves along
/// `flow_unit` and spins about `spin_axis`: along the cross product of the
/// flow direction and the spin axis, and zero where the spin is at most 1 rpm,
/// the axis has no length, or the two are parallel.
pub open spec fn spec_magnus_force(
    flow_unit: Vec3,
    spin_axis: Vec3,
    spin_rpm: Fixed,
    magnus_mag: Fixed,
) -> Vec3 {
    let spin_mag = spin_axis.norm();
    let force_dir = flow_unit.cross(spin_axis.unscale(spin_mag));
    let force_dir_mag = force_dir.norm();
    if spin_rpm.raw > MIN_SPIN_RPM && spin_mag.raw > NEGLIGIBLE && force_dir_mag.raw > NEGLIGIBLE {
        Vec3 {
            x: magnus_mag.times(force_dir.x).over(force_dir_mag),
            y: magnus_mag.times(force_dir.y).over(force_dir_mag),
            z: magnus_mag.times(force_dir.z).over(force_dir_mag),
        }
    } else {
        Vec3::zero()
    }
}

/// Computes the Magnus force.
#[verifier::when_used_as_spec(spec_magnus_force)]
pub fn magnus_force(flow_unit: Vec3, spin_axis: Vec3, spin_rpm: Fixed, magnus_mag: Fixed) -> (r:
    Vec3)
    ensures
        r == spec_magnus_force(flow_unit, spin_axis, spin_rpm, magnus_mag),
{
    if spin_rpm.raw > MIN_SPIN_RPM {
        let spin_mag = spin_axis.norm();
        if spin_mag.raw > NEGLIGIBLE {
            let force_dir = flow_unit.cross(spin_axis.unscale(spin_mag));
            let force_dir_mag = force_dir.norm();
            if force_dir_mag.raw > NEGLIGIBLE {
                return Vec3 {
                    x: magnus_mag.times(force_dir.x).over(force_dir_mag),
                    y: magnus_mag.times(force_dir.y).over(force_dir_mag),
                    z: magnus_mag.times(force_dir.z).over(force_dir_mag),
                };
            }
        }
    }
    Vec3::zero()
}

/// The net aerodynamic force in newtons on a ball with the given velocity in
/// air that moves with `wind_velocity`. Gravity is not part of it.
#[verifier::opaque]
pub open spec fn spec_aerodynamic_force_with_wind(
    velocity: Vec3,
    wind_velocity: Vec3,
    spin_axis: Vec3,
    spin_rpm: Fixed,
    air_density: Fixed,
    cross_area: Fixed,
    table: &CoefficientTable,
) -> Vec3 {
    let rel_velocity = velocity.minus(wind_velocity);
    let v_rel_mag = rel_velocity.norm();
    if v_rel_mag.raw < NEGLIGIBLE {
        Vec3::zero()
    } else {
        let v_rel_unit = rel_velocity.unscale(v_rel_mag);
        let coefficients = lookup_cd_cl(v_rel_mag, spin_rpm, table);
        let drag_mag = dynamic_force(coefficients.0, air_density, cross_area, v_rel_mag);
        let drag = v_rel_unit.scale(drag_mag.neg());
        let magnus_mag = dynamic_force(coefficients.1, air_density, cross_area, v_rel_mag);
        drag.plus(magnus_force(v_rel_unit, spin_axis, spin_rpm, magnus_mag))
    }
}

/// Computes drag plus Magnus force from the velocity relative to the air.
/// The drag has the size `0.5 * Cd * rho * A * v^2` and points against the
/// relative velocity; the Magnus force has the size `0.5 * Cl * rho * A * v^2`.
/// A relative speed under `10^-6` m/s gives no force at all.
#[verifier::when_used_as_spec(spec_aerodynamic_force_with_wind)]
pub fn aerodynamic_force_with_wind(
    velocity: Vec3,
    wind_velocity: Vec3,
    spin_axis: Vec3,
    spin_rpm: Fixed,
    air_density: Fixed,
    cross_area: Fixed,
    table: &CoefficientTable,
) -> (r: Vec3)
    requires
        table.wf(),
    ensures
        r == spec_aerodynamic_force_with_wind(
            velocity,
            wind_velocity,
            spin_axis,
            spin_rpm,
            air_density,
            cross_area,
            table,
        ),
        velocity.minus(wind_velocity).norm().raw < NEGLIGIBLE ==> r == Vec3::zero(),
{
    proof {
        reveal(spec_aerodynamic_force_with_wind);
    }
    let rel_velocity = velocity.minus(wind_velocity);
    let v_rel_mag = rel_velocity.norm();
    if v_rel_mag.raw < NEGLIGIBLE {
        return Vec3::zero();
    }
    let v_rel_unit = rel_velocity.unscale(v_rel_mag);
    let (cd, cl) = lookup_cd_cl(v_rel_mag, spin_rpm, table);
    let drag_mag = dynamic_force(cd, air_density, cross_area, v_rel_mag);
    let drag = v_rel_unit.scale(drag_mag.neg());
    let magnus_mag = dynamic_force(cl, air_density, cross_area, v_rel_mag);
    drag.plus(magnus_force(v_rel_unit, spin_axis, spin_rpm, magnus_mag))
}

} // verus!
