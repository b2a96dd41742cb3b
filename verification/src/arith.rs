//! Facts about integer multiplication, floor division and integer roots that
//! the fixed-point arithmetic rests on.

use vstd::prelude::*;

verus! {

/// Floor division brackets the dividend.
pub proof fn lemma_div_bounds(x: int, d: int)
    by (nonlinear_arith)
    requires
        d > 0,
    ensures
        d * (x / d) <= x < d * (x / d) + d,
{
}

/// Quotient and remainder recompose the dividend.
pub proof fn lemma_div_mod(x: int, d: int)
    by (nonlinear_arith)
    requires
        d > 0,
    ensures
        x == d * (x / d) + x % d,
        0 <= x % d < d,
{
}

/// A quotient is determined by the bracket it falls in.
pub proof fn lemma_div_unique(x: int, d: int, q: int)
    by (nonlinear_arith)
    requires
        d > 0,
        d * q <= x < d * q + d,
    ensures
        x / d == q,
{
    lemma_div_bounds(x, d);
    let p = x / d;
    if p < q {
        assert(d * (p + 1) <= d * q);
    } else if p > q {
        assert(d * (q + 1) <= d * p);
    }
}

/// Floor division is monotone in the dividend.
pub proof fn lemma_div_monotone(x: int, y: int, d: int)
    by (nonlinear_arith)
    requires
        d > 0,
        x <= y,
    ensures
        x / d <= y / d,
{
    lemma_div_bounds(x, d);
    lemma_div_bounds(y, d);
    let p = x / d;
    let q = y / d;
    if p > q {
        assert(d * (q + 1) <= d * p);
    }
}

/// A product is within a bound exactly when one factor is within the
/// bound divided by the other.
pub proof fn lemma_mul_le_div(a: int, d: int, n: int)
    by (nonlinear_arith)
    requires
        d > 0,
    ensures
        a * d <= n <==> a <= n / d,
{
    lemma_div_bounds(n, d);
    let q = n / d;
    if a <= q {
        assert(a * d <= q * d);
    } else {
        assert((q + 1) * d <= a * d);
    }
}

/// One step of long division: the quotient of `p * b` by `m` from the
/// quotient and remainder of `p` by `m`.
pub proof fn lemma_long_division_step(p: int, b: int, m: int)
    requires
        m > 0,
        b >= 0,
    ensures
        (p * b) / m == (p / m) * b + ((p % m) * b) / m,
        (p * b) % m == ((p % m) * b) % m,
{
    lemma_div_mod(p, m);
    let q = p / m;
    let r = p % m;
    lemma_div_mod(r * b, m);
    let q2 = (r * b) / m;
    let r2 = (r * b) % m;
    assert(p * b == m * (q * b + q2) + r2) by (nonlinear_arith)
        requires
            p == m * q + r,
            r * b == m * q2 + r2,
    ;
    lemma_div_unique(p * b, m, q * b + q2);
    lemma_div_mod(p * b, m);
}

/// Multiplication by a non-negative factor is monotone.
pub proof fn lemma_mul_monotone(a: int, b: int, c: int)
    by (nonlinear_arith)
    requires
        a <= b,
        0 <= c,
    ensures
        a * c <= b * c,
        c * a <= c * b,
{
}

/// The product of two bounded magnitudes is bounded by the product of the
/// bounds.
pub proof fn lemma_mul_magnitude(a: int, b: int, m: int, n: int)
    by (nonlinear_arith)
    requires
        -m <= a <= m,
        -n <= b <= n,
    ensures
        -(m * n) <= a * b <= m * n,
{
}

/// Squaring is strictly monotone on the non-negative integers.
pub proof fn lemma_square_monotone(a: int, b: int)
    by (nonlinear_arith)
    requires
        0 <= a <= b,
    ensures
        a * a <= b * b,
        a < b ==> a * a < b * b,
{
}

/// `r` is the integer square root of `n`, rounded down.
pub open spec fn is_floor_sqrt(n: int, r: int) -> bool {
    0 <= r && r * r <= n < (r + 1) * (r + 1)
}

/// The integer square root of `n`, rounded down; zero for negative `n`.
pub open spec fn floor_sqrt(n: int) -> int
    decreases n,
{
    if n <= 0 {
        0
    } else {
        let r = floor_sqrt(n - 1);
        if (r + 1) * (r + 1) <= n {
            r + 1
        } else {
            r
        }
    }
}

/// `floor_sqrt` is the rounded-down square root.
pub proof fn lemma_floor_sqrt(n: int)
    requires
        0 <= n,
    ensures
        is_floor_sqrt(n, floor_sqrt(n)),
    decreases n,
{
    if n > 0 {
        lemma_floor_sqrt(n - 1);
        let r = floor_sqrt(n - 1);
        assert((r + 1) * (r + 1) < (r + 2) * (r + 2)) by (nonlinear_arith)
            requires
                0 <= r,
        ;
    }
}

/// There is only one rounded-down square root.
pub proof fn lemma_floor_sqrt_unique(n: int, r: int)
    requires
        is_floor_sqrt(n, r),
    ensures
        r == floor_sqrt(n),
{
    lemma_floor_sqrt(n);
    let s = floor_sqrt(n);
    if r < s {
        lemma_square_monotone(r + 1, s);
    } else if s < r {
        lemma_square_monotone(s + 1, r);
    }
}

/// Computes the rounded-down square root.
pub fn integer_sqrt(n: u128) -> (r: u128)
    ensures
        is_floor_sqrt(n as int, r as int),
        r == floor_sqrt(n as int),
        r <= 0xffff_ffff_ffff_ffff,
{
    let mut lo: u128 = 0;
    let mut hi: u128 = 0x1_0000_0000_0000_0000;
    while hi - lo > 1
        invariant
            lo < hi <= 0x1_0000_0000_0000_0000,
            lo * lo <= n,
            hi < 0x1_0000_0000_0000_0000 ==> n < hi * hi,
        decreases hi - lo,
    {
        let mid: u128 = lo + (hi - lo) / 2;
        proof {
            lemma_square_monotone(mid as int, 0xffff_ffff_ffff_ffff);
            assert(0xffff_ffff_ffff_ffffint * 0xffff_ffff_ffff_ffff
                == 0xffff_ffff_ffff_fffe_0000_0000_0000_0001);
        }
        if mid * mid <= n {
            lo = mid;
        } else {
            hi = mid;
        }
    }
    proof {
        assert(0x1_0000_0000_0000_0000int * 0x1_0000_0000_0000_0000
            == 0x1_0000_0000_0000_0000_0000_0000_0000_0000);
        assert(is_floor_sqrt(n as int, lo as int));
        lemma_floor_sqrt_unique(n as int, lo as int);
    }
    lo
}

/// The rounded-down square root is monotone.
pub proof fn lemma_floor_sqrt_monotone(m: int, n: int)
    requires
        m <= n,
    ensures
        0 <= floor_sqrt(m) <= floor_sqrt(n),
{
    if n > 0 {
        lemma_floor_sqrt(n);
    }
    if m > 0 {
        lemma_floor_sqrt(m);
        let r = floor_sqrt(m);
        let s = floor_sqrt(n);
        if s < r {
            lemma_square_monotone(s + 1, r);
        }
    }
}

/// Of two numbers that are not negative, the one with the smaller square is
/// the smaller.
pub proof fn lemma_square_le(a: int, b: int)
    requires
        0 <= a,
        0 <= b,
        a * a <= b * b,
    ensures
        a <= b,
{
    if b < a {
        lemma_square_monotone(b, a);
    }
}

/// The fifth power.
pub open spec fn pow5(k: int) -> int {
    (k * k) * (k * k) * k
}

/// The fifth power is strictly monotone on the non-negative integers.
pub proof fn lemma_pow5_monotone(a: int, b: int)
    requires
        0 <= a <= b,
    ensures
        0 <= pow5(a) <= pow5(b),
        a < b ==> pow5(a) < pow5(b),
{
    let a2 = a * a;
    let b2 = b * b;
    lemma_square_monotone(0, a);
    lemma_square_monotone(a, b);
    lemma_square_monotone(0, a2);
    lemma_square_monotone(a2, b2);
    let a4 = a2 * a2;
    let b4 = b2 * b2;
    assert(0 <= a4 * a) by (nonlinear_arith)
        requires
            0 <= a4,
            0 <= a,
    ;
    assert(a4 * a <= b4 * b) by (nonlinear_arith)
        requires
            0 <= a4 <= b4,
            0 <= a <= b,
    ;
    if a < b {
        assert(b4 > 0) by (nonlinear_arith)
            requires
                b > 0,
                b2 == b * b,
                b4 == b2 * b2,
        ;
        assert(a4 * a < b4 * b) by (nonlinear_arith)
            requires
                0 <= a4 <= b4,
                0 < b4,
                0 <= a < b,
        ;
    }
}

/// `r` is the integer fifth root of `n`, rounded down.
pub open spec fn is_floor_root5(n: int, r: int) -> bool {
    0 <= r && pow5(r) <= n < pow5(r + 1)
}

/// The integer fifth root of `n`, rounded down; zero for negative `n`.
pub open spec fn floor_root5(n: int) -> int
    decreases n,
{
    if n <= 0 {
        0
    } else {
        let r = floor_root5(n - 1);
        if pow5(r + 1) <= n {
            r + 1
        } else {
            r
        }
    }
}

/// `floor_root5` is the rounded-down fifth root.
pub proof fn lemma_floor_root5(n: int)
    requires
        0 <= n,
    ensures
        is_floor_root5(n, floor_root5(n)),
    decreases n,
{
    if n > 0 {
        lemma_floor_root5(n - 1);
        let r = floor_root5(n - 1);
        lemma_pow5_monotone(r + 1, r + 2);
    } else {
        assert(pow5(0) == 0);
        assert(pow5(1) == 1);
    }
}

/// There is only one rounded-down fifth root.
pub proof fn lemma_floor_root5_unique(n: int, r: int)
    requires
        is_floor_root5(n, r),
    ensures
        r == floor_root5(n),
{
    lemma_pow5_monotone(0, r);
    lemma_floor_root5(n);
    let s = floor_root5(n);
    if r < s {
        lemma_pow5_monotone(r + 1, s);
    } else if s < r {
        lemma_pow5_monotone(s + 1, r);
    }
}

/// The rounded-down fifth root is monotone.
pub proof fn lemma_floor_root5_monotone(m: int, n: int)
    requires
        m <= n,
    ensures
        floor_root5(m) <= floor_root5(n),
{
    if m <= 0 {
        if n > 0 {
            lemma_floor_root5(n);
        }
    } else {
        lemma_floor_root5(m);
        lemma_floor_root5(n);
        let r = floor_root5(m);
        let s = floor_root5(n);
        if s < r {
            lemma_pow5_monotone(s + 1, r);
        }
    }
}

} // verus!
