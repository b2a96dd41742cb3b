//! Saturating decimal fixed-point numbers with ten fractional digits.

use vstd::prelude::*;
use crate::arith::{
    floor_sqrt, integer_sqrt, is_floor_sqrt, lemma_div_mod, lemma_div_monotone, lemma_div_unique,
    lemma_floor_sqrt_monotone, lemma_mul_magnitude, lemma_mul_monotone, lemma_square_monotone,
};

verus! {

/// Raw units per whole: a value `v` is stored as `v * 10^10`. The arithmetic
/// below writes the number out, which keeps multiplication by it linear for
/// the solver.
pub const SCALE: i64 = 10_000_000_000;

/// The integer `x` brought into the range of `i64`.
pub open spec fn sat(x: int) -> int {
    if x < i64::MIN as int {
        i64::MIN as int
    } else if x > i64::MAX as int {
        i64::MAX as int
    } else {
        x
    }
}

/// The quotient `n / d` rounded toward negative infinity, whatever the sign
/// of `d`. A zero divisor gives the extreme of the sign of `n`, and zero for
/// `0 / 0`.
pub open spec fn floor_quotient(n: int, d: int) -> int {
    if d > 0 {
        n / d
    } else if d < 0 {
        (-n) / (-d)
    } else if n > 0 {
        i64::MAX as int
    } else if n < 0 {
        i64::MIN as int
    } else {
        0
    }
}

/// Narrows a wide intermediate to the representable range.
fn saturate(x: i128) -> (r: i64)
    ensures
        r as int == sat(x as int),
{
    if x < i64::MIN as i128 {
        i64::MIN
    } else if x > i64::MAX as i128 {
        i64::MAX
    } else {
        x as i64
    }
}

/// The magnitude of a raw count.
pub open spec fn magnitude(x: int) -> int {
    if x < 0 {
        -x
    } else {
        x
    }
}

/// The magnitude of a raw count, widened so that it always fits.
pub fn raw_magnitude(x: i64) -> (r: u128)
    ensures
        r == magnitude(x as int),
        r <= 0x8000_0000_0000_0000,
{
    if x < 0 {
        (-(x as i128)) as u128
    } else {
        x as u128
    }
}

/// The square of a raw count.
pub fn raw_square(x: i64) -> (r: u128)
    ensures
        r == x * x,
        r <= 0x4000_0000_0000_0000_0000_0000_0000_0000,
{
    let m: u128 = raw_magnitude(x);
    proof {
        lemma_square_monotone(m as int, 0x8000_0000_0000_0000);
        assert(0x8000_0000_0000_0000int * 0x8000_0000_0000_0000
            == 0x4000_0000_0000_0000_0000_0000_0000_0000);
        assert(m * m == x * x) by (nonlinear_arith)
            requires
                m == x || m == -x,
        ;
    }
    m * m
}

/// Narrows a wide count that is not negative to the representable range.
pub fn saturate_unsigned(x: u128) -> (r: i64)
    ensures
        r as int == sat(x as int),
{
    if x > i64::MAX as u128 {
        i64::MAX
    } else {
        x as i64
    }
}

/// Quotient rounded toward negative infinity.
fn floor_div(a: i128, b: i128) -> (q: i128)
    requires
        0 < b <= 0x4000_0000_0000_0000_0000_0000_0000_0000,
        -0x4000_0000_0000_0000_0000_0000_0000_0000 <= a,
        a <= 0x4000_0000_0000_0000_0000_0000_0000_0000,
    ensures
        q as int == (a as int) / (b as int),
{
    if a >= 0 {
        a / b
    } else {
        let n: i128 = -a;
        let q: i128 = n / b;
        let r: i128 = n % b;
        proof {
            lemma_div_mod(n as int, b as int);
            assert(b * (-q) == -(b * q)) by (nonlinear_arith);
            assert(b * (-q - 1) == -(b * q) - b) by (nonlinear_arith);
        }
        if r == 0 {
            proof {
                lemma_div_unique(a as int, b as int, -(q as int));
            }
            -q
        } else {
            proof {
                lemma_div_unique(a as int, b as int, -(q as int) - 1);
            }
            -q - 1
        }
    }
}

/// A number with ten decimal places, held as a count of units of `10^-10`.
/// Every operation rounds toward negative infinity and saturates at the ends
/// of the `i64` range instead of overflowing.
#[derive(Clone, Copy, Debug, PartialEq, Eq, Structural)]
pub struct Fixed {
    pub raw: i64,
}

impl Fixed {
    pub open spec fn spec_from_raw(raw: i64) -> Fixed {
        Fixed { raw }
    }

    /// The value of `raw` units of `10^-10`.
    #[verifier::when_used_as_spec(spec_from_raw)]
    pub fn from_raw(raw: i64) -> (r: Fixed)
        ensures
            r == Fixed::spec_from_raw(raw),
    {
        Fixed { raw }
    }

    pub open spec fn spec_from_int(n: i64) -> Fixed {
        Fixed { raw: sat(n * 10_000_000_000) as i64 }
    }

    /// The whole number `n`, saturated.
    #[verifier::when_used_as_spec(spec_from_int)]
    pub fn from_int(n: i64) -> (r: Fixed)
        ensures
            r == Fixed::spec_from_int(n),
    {
        proof {
            lemma_mul_magnitude(n as int, 10_000_000_000, 0x8000_0000_0000_0000, 10_000_000_000);
        }
        let wide: i128 = (n as i128) * 10_000_000_000;
        Fixed { raw: saturate(wide) }
    }

    pub open spec fn spec_zero() -> Fixed {
        Fixed { raw: 0 }
    }

    /// Zero.
    #[verifier::when_used_as_spec(spec_zero)]
    pub fn zero() -> (r: Fixed)
        ensures
            r == Fixed::spec_zero(),
    {
        Fixed { raw: 0 }
    }

    pub open spec fn spec_plus(self, rhs: Fixed) -> Fixed {
        Fixed { raw: sat(self.raw + rhs.raw) as i64 }
    }

    /// Saturating sum.
    #[verifier::when_used_as_spec(spec_plus)]
    pub fn plus(self, rhs: Fixed) -> (r: Fixed)
        ensures
            r == self.spec_plus(rhs),
    {
        let wide: i128 = self.raw as i128 + rhs.raw as i128;
        Fixed { raw: saturate(wide) }
    }

    pub open spec fn spec_minus(self, rhs: Fixed) -> Fixed {
        Fixed { raw: sat(self.raw - rhs.raw) as i64 }
    }

    /// Saturating difference.
    #[verifier::when_used_as_spec(spec_minus)]
    pub fn minus(self, rhs: Fixed) -> (r: Fixed)
        ensures
            r == self.spec_minus(rhs),
    {
        let wide: i128 = self.raw as i128 - rhs.raw as i128;
        Fixed { raw: saturate(wide) }
    }

    pub open spec fn spec_neg(self) -> Fixed {
        Fixed { raw: sat(-self.raw) as i64 }
    }

    /// Saturating negation.
    #[verifier::when_used_as_spec(spec_neg)]
    pub fn neg(self) -> (r: Fixed)
        ensures
            r == self.spec_neg(),
    {
        let wide: i128 = -(self.raw as i128);
        Fixed { raw: saturate(wide) }
    }

    pub open spec fn spec_abs(self) -> Fixed {
        if self.raw < 0 {
            self.spec_neg()
        } else {
            self
        }
    }

    /// Saturating magnitude.
    #[verifier::when_used_as_spec(spec_abs)]
    pub fn abs(self) -> (r: Fixed)
        ensures
            r == self.spec_abs(),
    {
        if self.raw < 0 {
            self.neg()
        } else {
            self
        }
    }

    pub open spec fn spec_times(self, rhs: Fixed) -> Fixed {
        Fixed { raw: sat((self.raw * rhs.raw) / 10_000_000_000) as i64 }
    }

    /// Product, rounded down to the grid and saturated.
    #[verifier::when_used_as_spec(spec_times)]
    pub fn times(self, rhs: Fixed) -> (r: Fixed)
        ensures
            r == self.spec_times(rhs),
    {
        proof {
            lemma_mul_magnitude(
                self.raw as int,
                rhs.raw as int,
                0x8000_0000_0000_0000,
                0x8000_0000_0000_0000,
            );
        }
        let wide: i128 = (self.raw as i128) * (rhs.raw as i128);
        Fixed { raw: saturate(floor_div(wide, 10_000_000_000)) }
    }

    pub open spec fn spec_over(self, rhs: Fixed) -> Fixed {
        Fixed { raw: sat(floor_quotient(self.raw * 10_000_000_000, rhs.raw as int)) as i64 }
    }

    /// Quotient, rounded down to the grid and saturated. Division by zero
    /// gives the largest value for a positive dividend, the smallest for a
    /// negative one, and zero for zero.
    #[verifier::when_used_as_spec(spec_over)]
    pub fn over(self, rhs: Fixed) -> (r: Fixed)
        ensures
            r == self.spec_over(rhs),
    {
        proof {
            lemma_mul_magnitude(
                self.raw as int,
                10_000_000_000,
                0x8000_0000_0000_0000,
                10_000_000_000,
            );
        }
        let wide: i128 = (self.raw as i128) * 10_000_000_000;
        if rhs.raw > 0 {
            Fixed { raw: saturate(floor_div(wide, rhs.raw as i128)) }
        } else if rhs.raw < 0 {
            Fixed { raw: saturate(floor_div(-wide, -(rhs.raw as i128))) }
        } else if self.raw > 0 {
            Fixed { raw: i64::MAX }
        } else if self.raw < 0 {
            Fixed { raw: i64::MIN }
        } else {
            Fixed { raw: 0 }
        }
    }

    pub open spec fn spec_sqrt(self) -> Fixed {
        Fixed { raw: floor_sqrt(self.raw * 10_000_000_000) as i64 }
    }

    /// Square root, rounded down to the grid; zero for a negative argument.
    #[verifier::when_used_as_spec(spec_sqrt)]
    pub fn sqrt(self) -> (r: Fixed)
        ensures
            r == self.spec_sqrt(),
            self.raw <= 0 ==> r.raw == 0,
            self.raw > 0 ==> is_floor_sqrt(self.raw * 10_000_000_000, r.raw as int),
    {
        if self.raw <= 0 {
            return Fixed { raw: 0 };
        }
        proof {
            lemma_mul_magnitude(
                self.raw as int,
                10_000_000_000,
                0x8000_0000_0000_0000,
                10_000_000_000,
            );
        }
        let n: u128 = (self.raw as u128) * 10_000_000_000;
        let root: u128 = integer_sqrt(n);
        proof {
            if root > 0x7fff_ffff_ffff_ffff {
                lemma_square_monotone(0x8000_0000_0000_0000, root as int);
                assert(0x8000_0000_0000_0000int * 0x8000_0000_0000_0000
                    == 0x4000_0000_0000_0000_0000_0000_0000_0000);
            }
        }
        Fixed { raw: root as i64 }
    }

    pub open spec fn spec_min(self, rhs: Fixed) -> Fixed {
        if rhs.raw < self.raw {
            rhs
        } else {
            self
        }
    }

    /// The smaller of two values.
    #[verifier::when_used_as_spec(spec_min)]
    pub fn min(self, rhs: Fixed) -> (r: Fixed)
        ensures
            r == self.spec_min(rhs),
    {
        if rhs.raw < self.raw {
            rhs
        } else {
            self
        }
    }

    pub open spec fn spec_max(self, rhs: Fixed) -> Fixed {
        if rhs.raw > self.raw {
            rhs
        } else {
            self
        }
    }

    /// The larger of two values.
    #[verifier::when_used_as_spec(spec_max)]
    pub fn max(self, rhs: Fixed) -> (r: Fixed)
        ensures
            r == self.spec_max(rhs),
    {
        if rhs.raw > self.raw {
            rhs
        } else {
            self
        }
    }

    pub open spec fn spec_clamp(self, lo: Fixed, hi: Fixed) -> Fixed {
        if self.raw < lo.raw {
            lo
        } else if self.raw > hi.raw {
            hi
        } else {
            self
        }
    }

    /// The value brought into `[lo, hi]`; `lo` wins where the bounds cross.
    #[verifier::when_used_as_spec(spec_clamp)]
    pub fn clamp(self, lo: Fixed, hi: Fixed) -> (r: Fixed)
        ensures
            r == self.spec_clamp(lo, hi),
    {
        if self.raw < lo.raw {
            lo
        } else if self.raw > hi.raw {
            hi
        } else {
            self
        }
    }
}

/// A product does not fall when one factor grows and the other is not
/// negative.
pub proof fn lemma_times_monotone(a: Fixed, b: Fixed, c: Fixed)
    requires
        a.raw <= b.raw,
        0 <= c.raw,
    ensures
        a.times(c).raw <= b.times(c).raw,
        c.times(a).raw <= c.times(b).raw,
{
    lemma_mul_monotone(a.raw as int, b.raw as int, c.raw as int);
    lemma_div_monotone(a.raw * c.raw, b.raw * c.raw, 10_000_000_000);
    lemma_div_monotone(c.raw * a.raw, c.raw * b.raw, 10_000_000_000);
}

/// The product of two values that are not negative is not negative.
pub proof fn lemma_times_not_negative(a: Fixed, b: Fixed)
    requires
        0 <= a.raw,
        0 <= b.raw,
    ensures
        0 <= a.times(b).raw,
{
    lemma_mul_monotone(0, a.raw as int, b.raw as int);
    lemma_div_monotone(0, a.raw * b.raw, 10_000_000_000);
}

/// A quotient does not fall when the dividend grows and the divisor is
/// positive.
pub proof fn lemma_over_monotone(a: Fixed, b: Fixed, d: Fixed)
    requires
        a.raw <= b.raw,
        0 < d.raw,
    ensures
        a.over(d).raw <= b.over(d).raw,
{
    lemma_div_monotone(a.raw * 10_000_000_000, b.raw * 10_000_000_000, d.raw as int);
}

/// The quotient of a value that is not negative by a positive one is not
/// negative.
pub proof fn lemma_over_not_negative(a: Fixed, d: Fixed)
    requires
        0 <= a.raw,
        0 < d.raw,
    ensures
        0 <= a.over(d).raw,
{
    lemma_div_unique(0, d.raw as int, 0);
    lemma_div_monotone(0, a.raw * 10_000_000_000, d.raw as int);
}

/// The square root does not fall when its argument grows, and is never
/// negative.
pub proof fn lemma_sqrt_monotone(a: Fixed, b: Fixed)
    requires
        a.raw <= b.raw,
    ensures
        0 <= a.sqrt().raw <= b.sqrt().raw,
{
    lemma_sqrt_in_range(a);
    lemma_sqrt_in_range(b);
    lemma_floor_sqrt_monotone(a.raw * 10_000_000_000, b.raw * 10_000_000_000);
}

/// The square root of a value fits the range of the numbers.
pub proof fn lemma_sqrt_in_range(a: Fixed)
    ensures
        0 <= floor_sqrt(a.raw * 10_000_000_000) <= 0x4_0000_0000_0000,
        a.sqrt().raw == floor_sqrt(a.raw * 10_000_000_000),
{
    let n = a.raw * 10_000_000_000;
    let r = floor_sqrt(n);
    lemma_floor_sqrt_monotone(n, n);
    if n > 0 {
        crate::arith::lemma_floor_sqrt(n);
        if r > 0x4_0000_0000_0000 {
            lemma_square_monotone(0x4_0000_0000_0000, r);
            assert(0x4_0000_0000_0000int * 0x4_0000_0000_0000
                == 0x10_0000_0000_0000_0000_0000_0000);
        }
    }
}

} // verus!
