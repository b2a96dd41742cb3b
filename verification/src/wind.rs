//! Wind shear: the wind grows with height by a power law.

use vstd::prelude::*;
use crate::arith::{
    floor_root5, is_floor_root5, lemma_floor_root5, lemma_floor_root5_monotone,
    lemma_floor_root5_unique, lemma_long_division_step, lemma_mul_le_div, lemma_mul_monotone,
    lemma_pow5_monotone, lemma_square_monotone, pow5,
};
use crate::constants::{MAX_WIND_MULTIPLIER, MIN_HEIGHT_M, WIND_REF_HEIGHT_M};
use crate::fixed::Fixed;
use crate::vector::Vec3;

verus! {

/// The height from which on the multiplier is at its cap: `10 * 1.7^5` m.
pub const SHEAR_CAP_HEIGHT_M: i64 = 1_419_857_000_000;

/// The fifth power of a multiplier in raw units is compared with the height
/// in raw units times this: `10^50 / 10^11`.
pub open spec fn height_weight() -> int {
    1_000_000_000_000_000_000_000_000_000_000_000_000_000int
}

/// The fifth root of a tenth of the height in raw units, rounded down, with
/// the height taken as at least 1 m.
pub open spec fn shear_root(height_m: Fixed) -> int {
    floor_root5(height_m.max(Fixed::from_raw(MIN_HEIGHT_M)).raw * height_weight())
}

/// The factor by which the wind at `height_m` exceeds the reference wind:
/// `(max(h, 1) / 10)^0.2`, rounded down to the grid and held between 1 and
/// 1.7.
pub open spec fn spec_wind_multiplier(height_m: Fixed) -> Fixed {
    let root = shear_root(height_m);
    if root < 10_000_000_000 {
        Fixed::from_raw(10_000_000_000)
    } else if root > MAX_WIND_MULTIPLIER {
        Fixed::from_raw(MAX_WIND_MULTIPLIER)
    } else {
        Fixed::from_raw(root as i64)
    }
}

/// The fifth powers of the two ends of the multiplier's range.
proof fn lemma_pow5_of_bounds()
    ensures
        pow5(10_000_000_000) == WIND_REF_HEIGHT_M * height_weight(),
        pow5(17_000_000_000) == SHEAR_CAP_HEIGHT_M * height_weight(),
{
    assert(10_000_000_000int * 10_000_000_000 == 100_000_000_000_000_000_000);
    assert(100_000_000_000_000_000_000int * 100_000_000_000_000_000_000
        == 10_000_000_000_000_000_000_000_000_000_000_000_000_000int);
    assert(17_000_000_000int * 17_000_000_000 == 289_000_000_000_000_000_000);
    assert(289_000_000_000_000_000_000int * 289_000_000_000_000_000_000
        == 83_521_000_000_000_000_000_000_000_000_000_000_000_000int);
}

/// Whether the fifth power of `m` is at most the weighted height `height`.
/// The fifth power does not fit the machine's widest integer: the weighted
/// height is divided by the square of `m` in three steps of long division,
/// and the quotient compared with the cube.
fn fifth_power_within(m: u128, height: u128) -> (r: bool)
    requires
        10_000_000_000 <= m <= 17_000_000_000,
        height <= SHEAR_CAP_HEIGHT_M,
    ensures
        r == (pow5(m as int) <= height * height_weight()),
{
    proof {
        lemma_square_monotone(10_000_000_000, m as int);
        lemma_square_monotone(m as int, 17_000_000_000);
    }
    let square: u128 = m * m;
    proof {
        lemma_mul_monotone(m as int, 17_000_000_000, square as int);
        lemma_mul_monotone(
            square as int,
            289_000_000_000_000_000_000,
            17_000_000_000,
        );
    }
    let cube: u128 = square * m;
    let part: u128 = height * 10_000_000_000_000_000_000;
    let q0: u128 = part / square;
    let r0: u128 = part % square;
    let t1: u128 = r0 * 10_000_000_000;
    let q1: u128 = t1 / square;
    let r1: u128 = t1 % square;
    let t2: u128 = r1 * 10_000_000_000;
    let q2: u128 = t2 / square;
    proof {
        let p = part as int;
        let d = square as int;
        lemma_long_division_step(p, 10_000_000_000, d);
        lemma_long_division_step(p * 10_000_000_000, 10_000_000_000, d);
        assert(p * 10_000_000_000 * 10_000_000_000 == height * height_weight());
        crate::arith::lemma_div_bounds(p, d);
        crate::arith::lemma_div_bounds(t1 as int, d);
        crate::arith::lemma_div_bounds(t2 as int, d);
        assert(q0 <= 1_419_857_000_000_000) by {
            if q0 > 1_419_857_000_000_000 {
                lemma_mul_monotone(1_419_857_000_000_001, q0 as int, d);
                lemma_mul_monotone(100_000_000_000_000_000_000, d, 1_419_857_000_000_001);
            }
        }
        assert(q1 < 10_000_000_000) by {
            if q1 >= 10_000_000_000 {
                lemma_mul_monotone(10_000_000_000, q1 as int, d);
            }
        }
        assert(q2 < 10_000_000_000) by {
            if q2 >= 10_000_000_000 {
                lemma_mul_monotone(10_000_000_000, q2 as int, d);
            }
        }
    }
    let quotient: u128 = q0 * 100_000_000_000_000_000_000 + q1 * 10_000_000_000 + q2;
    proof {
        let d = square as int;
        let n = height * height_weight();
        assert(quotient == n / d);
        lemma_mul_le_div(cube as int, d, n);
        assert(pow5(m as int) == cube * d) by (nonlinear_arith)
            requires
                d == m * m,
                cube == d * m,
                pow5(m as int) == (m * m) * (m * m) * m,
        ;
    }
    cube <= quotient
}

/// Computes the wind multiplier at a height.
#[verifier::when_used_as_spec(spec_wind_multiplier)]
pub fn wind_multiplier(height_m: Fixed) -> (r: Fixed)
    ensures
        r == spec_wind_multiplier(height_m),
        10_000_000_000 <= r.raw <= MAX_WIND_MULTIPLIER,
        height_m.raw <= WIND_REF_HEIGHT_M ==> r.raw == 10_000_000_000,
        height_m.raw >= SHEAR_CAP_HEIGHT_M ==> r.raw == MAX_WIND_MULTIPLIER,
{
    proof {
        lemma_pow5_of_bounds();
        let h = height_m.max(Fixed::from_raw(MIN_HEIGHT_M));
        lemma_floor_root5(h.raw * height_weight());
    }
    if height_m.raw <= WIND_REF_HEIGHT_M {
        proof {
            let root = shear_root(height_m);
            if root > 10_000_000_000 {
                lemma_pow5_monotone(10_000_000_001, root);
                lemma_pow5_monotone(10_000_000_000, 10_000_000_001);
            }
        }
        return Fixed::from_raw(10_000_000_000);
    }
    if height_m.raw >= SHEAR_CAP_HEIGHT_M {
        proof {
            let root = shear_root(height_m);
            if root < MAX_WIND_MULTIPLIER {
                lemma_pow5_monotone(root + 1, MAX_WIND_MULTIPLIER as int);
            }
        }
        return Fixed::from_raw(MAX_WIND_MULTIPLIER);
    }
    let height: u128 = height_m.raw as u128;
    let mut lo: u128 = 10_000_000_000;
    let mut hi: u128 = 17_000_000_000;
    while hi - lo > 1
        invariant
            10_000_000_000 <= lo < hi <= 17_000_000_000,
            height <= SHEAR_CAP_HEIGHT_M,
            pow5(lo as int) <= height * height_weight() < pow5(hi as int),
        decreases hi - lo,
    {
        let mid: u128 = lo + (hi - lo) / 2;
        if fifth_power_within(mid, height) {
            lo = mid;
        } else {
            hi = mid;
        }
    }
    proof {
        assert(is_floor_root5(height * height_weight(), lo as int));
        lemma_floor_root5_unique(height * height_weight(), lo as int);
    }
    Fixed::from_raw(lo as i64)
}

/// The wind at `height_m`, given the wind at the reference height of 10 m.
pub open spec fn spec_apply_wind_shear(base_wind: Vec3, height_m: Fixed) -> Vec3 {
    base_wind.scale(wind_multiplier(height_m))
}

/// Scales the reference wind to a height. All three components grow by the
/// same factor: the wind keeps its direction.
#[verifier::when_used_as_spec(spec_apply_wind_shear)]
pub fn apply_wind_shear(base_wind: Vec3, height_m: Fixed) -> (r: Vec3)
    ensures
        r == spec_apply_wind_shear(base_wind, height_m),
{
    base_wind.scale(wind_multiplier(height_m))
}

/// The wind multiplier never falls as the height grows, and it always lies
/// between 1 and 1.7.
pub proof fn lemma_wind_multiplier_monotone(lower_m: Fixed, higher_m: Fixed)
    requires
        lower_m.raw <= higher_m.raw,
    ensures
        10_000_000_000 <= spec_wind_multiplier(lower_m).raw,
        spec_wind_multiplier(lower_m).raw <= spec_wind_multiplier(higher_m).raw,
        spec_wind_multiplier(higher_m).raw <= 17_000_000_000,
{
    let a = lower_m.max(Fixed::from_raw(MIN_HEIGHT_M));
    let b = higher_m.max(Fixed::from_raw(MIN_HEIGHT_M));
    lemma_floor_root5_monotone(a.raw * height_weight(), b.raw * height_weight());
}

/// Still air stays still at every height.
pub proof fn lemma_no_wind_at_any_height(height_m: Fixed)
    ensures
        spec_apply_wind_shear(Vec3::zero(), height_m) == Vec3::zero(),
{
    let m = spec_wind_multiplier(height_m);
    assert(0 * m.raw == 0);
    assert(0int / 10_000_000_000 == 0);
}

} // verus!
