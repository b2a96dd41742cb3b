//! Physical constants, each as a raw count of units of `10^-10`.

use vstd::prelude::*;

verus! {

/// Gravitational acceleration, 9.81 m/s^2.
pub const GRAVITY: i64 = 98_100_000_000;

/// Mass of the ball, 0.145 kg.
pub const BALL_MASS: i64 = 1_450_000_000;

/// Height at which the reference wind is measured, 10 m.
pub const WIND_REF_HEIGHT_M: i64 = 100_000_000_000;

/// Lowest height that the wind profile is evaluated at, 1 m.
pub const MIN_HEIGHT_M: i64 = 10_000_000_000;

/// Largest amplification of the reference wind, 1.7.
pub const MAX_WIND_MULTIPLIER: i64 = 17_000_000_000;

/// Feet per meter, 3.28084.
pub const METERS_TO_FEET: i64 = 32_808_400_000;

/// Meters per foot, 0.3048.
pub const FEET_TO_METERS: i64 = 3_048_000_000;

/// Coefficient of restitution on grass, 0.45.
pub const GROUND_BALL_COR_GRASS: i64 = 4_500_000_000;

/// Coefficient of restitution on dirt, 0.50.
pub const GROUND_BALL_COR_DIRT: i64 = 5_000_000_000;

/// Rolling friction coefficient on grass, 0.30.
pub const ROLLING_FRICTION_GRASS: i64 = 3_000_000_000;

/// Rolling friction coefficient on dirt, 0.25.
pub const ROLLING_FRICTION_DIRT: i64 = 2_500_000_000;

/// Deceleration of a rolling ball by air resistance, 3 ft/s^2.
pub const GROUND_BALL_AIR_RESISTANCE: i64 = 30_000_000_000;

/// Curve coefficient per 1000 rpm of spin, 0.08.
pub const GROUND_BALL_SPIN_EFFECT: i64 = 800_000_000;

/// Fielder acceleration, 28 ft/s^2.
pub const FIELDER_ACCELERATION: i64 = 280_000_000_000;

/// Fastest sprint speed credited to a fielder, 30 ft/s.
pub const FIELDER_MAX_SPEED: i64 = 300_000_000_000;

/// Largest charge bonus, 20 ft.
pub const CHARGE_BONUS_MAX: i64 = 200_000_000_000;

/// First velocity of the coefficient grid, 5 m/s.
pub const LUT_V_MIN: i64 = 50_000_000_000;

/// End of the velocity axis, 60 m/s (exclusive).
pub const LUT_V_MAX: i64 = 600_000_000_000;

/// Spacing of the velocity axis, 1 m/s.
pub const LUT_V_STEP: i64 = 10_000_000_000;

/// First spin rate of the coefficient grid, 0 rpm.
pub const LUT_S_MIN: i64 = 0;

/// End of the spin axis, 4000 rpm (exclusive).
pub const LUT_S_MAX: i64 = 40_000_000_000_000;

/// Spacing of the spin axis, 50 rpm.
pub const LUT_S_STEP: i64 = 500_000_000_000;

} // verus!
