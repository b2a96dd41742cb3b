//! The drag and lift coefficient grids and their bilinear lookup.

use vstd::prelude::*;
use crate::constants::{LUT_S_MAX, LUT_S_MIN, LUT_S_STEP, LUT_V_MAX, LUT_V_MIN, LUT_V_STEP};
use crate::arith::{lemma_div_bounds, lemma_div_monotone, lemma_div_unique, lemma_mul_monotone};
use crate::fixed::{sat, Fixed};

verus! {

/// Why a pair of grids was refused.
#[derive(Clone, Copy, Debug, PartialEq, Eq, Structural)]
pub enum TableError {
    /// Fewer than two rows or fewer than two columns.
    TooSmall,
    /// Rows of unequal length, or a lift grid shaped unlike the drag grid.
    ShapeMismatch,
}

/// Every row of `grid` has `cols` entries.
pub open spec fn uniform(grid: Seq<Vec<Fixed>>, cols: int) -> bool {
    forall|i: int| 0 <= i < grid.len() ==> (#[trigger] grid[i]).len() == cols
}

/// The drag grid is smaller than two by two.
pub open spec fn too_small(cd: Seq<Vec<Fixed>>) -> bool {
    cd.len() < 2 || cd[0].len() < 2
}

/// Both grids are rectangles of the same shape.
pub open spec fn same_shape(cd: Seq<Vec<Fixed>>, cl: Seq<Vec<Fixed>>) -> bool {
    &&& uniform(cd, cd[0].len() as int)
    &&& cl.len() == cd.len()
    &&& uniform(cl, cd[0].len() as int)
}

/// Drag (`Cd`) and lift (`Cl`) coefficients on one grid. Row `i` belongs to
/// the velocity `5 + i` m/s, column `j` to the spin rate `50 * j` rpm.
#[derive(Debug)]
pub struct CoefficientTable {
    cd: Vec<Vec<Fixed>>,
    cl: Vec<Vec<Fixed>>,
}

/// Whether every row of `grid` has `cols` entries.
fn is_uniform(grid: &Vec<Vec<Fixed>>, cols: usize) -> (r: bool)
    ensures
        r == uniform(grid@, cols as int),
{
    let mut i: usize = 0;
    while i < grid.len()
        invariant
            i <= grid.len(),
            forall|k: int| 0 <= k < i ==> (#[trigger] grid@[k]).len() == cols,
        decreases grid.len() - i,
    {
        if grid[i].len() != cols {
            return false;
        }
        i = i + 1;
    }
    true
}

impl CoefficientTable {
    /// At least two rows and two columns, and both grids of that shape.
    pub closed spec fn wf(&self) -> bool {
        &&& !too_small(self.cd@)
        &&& same_shape(self.cd@, self.cl@)
    }

    /// Number of velocity rows.
    pub closed spec fn spec_rows(&self) -> nat {
        self.cd@.len()
    }

    /// Number of spin columns.
    pub closed spec fn spec_cols(&self) -> nat {
        self.cd@[0]@.len()
    }

    /// Drag coefficient at row `i`, column `j`.
    pub closed spec fn cd_at(&self, i: int, j: int) -> Fixed {
        self.cd@[i]@[j]
    }

    /// Lift coefficient at row `i`, column `j`.
    pub closed spec fn cl_at(&self, i: int, j: int) -> Fixed {
        self.cl@[i]@[j]
    }

    /// Builds a table from a drag grid and a lift grid given row by row.
    pub fn new(cd: Vec<Vec<Fixed>>, cl: Vec<Vec<Fixed>>) -> (r: Result<
        CoefficientTable,
        TableError,
    >)
        ensures
            too_small(cd@) <==> r == Err::<CoefficientTable, TableError>(TableError::TooSmall),
            !too_small(cd@) && !same_shape(cd@, cl@) <==> r == Err::<CoefficientTable, TableError>(
                TableError::ShapeMismatch,
            ),
            !too_small(cd@) && same_shape(cd@, cl@) <==> r is Ok,
            r matches Ok(t) ==> {
                &&& t.wf()
                &&& t.spec_rows() == cd@.len()
                &&& t.spec_cols() == cd@[0].len()
                &&& forall|i: int, j: int|
                    0 <= i < cd@.len() && 0 <= j < cd@[0].len() ==> #[trigger] t.cd_at(i, j)
                        == cd@[i]@[j]
                &&& forall|i: int, j: int|
                    0 <= i < cd@.len() && 0 <= j < cd@[0].len() ==> #[trigger] t.cl_at(i, j)
                        == cl@[i]@[j]
            },
    {
        if cd.len() < 2 {
            return Err(TableError::TooSmall);
        }
        let cols = cd[0].len();
        if cols < 2 {
            return Err(TableError::TooSmall);
        }
        if !is_uniform(&cd, cols) || cl.len() != cd.len() || !is_uniform(&cl, cols) {
            return Err(TableError::ShapeMismatch);
        }
        Ok(CoefficientTable { cd, cl })
    }

    /// Number of velocity rows.
    pub fn rows(&self) -> (r: usize)
        requires
            self.wf(),
        ensures
            r == self.spec_rows(),
            r >= 2,
    {
        self.cd.len()
    }

    /// Number of spin columns.
    pub fn cols(&self) -> (r: usize)
        requires
            self.wf(),
        ensures
            r == self.spec_cols(),
            r >= 2,
    {
        self.cd[0].len()
    }

    /// Drag coefficient at row `i`, column `j`.
    pub fn cd(&self, i: usize, j: usize) -> (r: Fixed)
        requires
            self.wf(),
            i < self.spec_rows(),
            j < self.spec_cols(),
        ensures
            r == self.cd_at(i as int, j as int),
    {
        self.cd[i][j]
    }

    /// Lift coefficient at row `i`, column `j`.
    pub fn cl(&self, i: usize, j: usize) -> (r: Fixed)
        requires
            self.wf(),
            i < self.spec_rows(),
            j < self.spec_cols(),
        ensures
            r == self.cl_at(i as int, j as int),
    {
        self.cl[i][j]
    }
}

/// `x` brought onto an axis that starts at `min`, ends before `max` and has
/// samples `step` apart, so that the sample after it exists.
pub open spec fn clamp_to_axis(x: Fixed, min: i64, max: i64, step: i64) -> Fixed {
    x.clamp(Fixed::from_raw(min), Fixed::from_raw((max - step) as i64))
}

/// The cell that holds `clamped` on an axis of `count` samples: the sample at
/// or below it, but never the last one.
pub open spec fn cell_index(clamped: Fixed, min: i64, step: i64, count: nat) -> int {
    let natural = (clamped.raw - min) / (step as int);
    if natural > count - 2 {
        count - 2
    } else {
        natural
    }
}

/// How far `clamped` lies into cell `index`, as a fraction of the cell.
pub open spec fn cell_fraction(clamped: Fixed, min: i64, step: i64, index: int) -> Fixed {
    Fixed::from_raw((clamped.raw - min - index * step) as i64).over(Fixed::from_raw(step))
}

/// The sample after cell `index` is at or above `clamped`: the lookup
/// interpolates and does not extrapolate.
pub open spec fn cell_holds(clamped: Fixed, min: i64, step: i64, index: int) -> bool {
    clamped.raw - min - index * step <= step
}

/// The point that lies the fraction `t` of the way from `a` to `b`.
pub open spec fn spec_lerp(a: Fixed, b: Fixed, t: Fixed) -> Fixed {
    a.plus(b.minus(a).times(t))
}

/// Linear interpolation.
#[verifier::when_used_as_spec(spec_lerp)]
pub fn lerp(a: Fixed, b: Fixed, t: Fixed) -> (r: Fixed)
    ensures
        r == spec_lerp(a, b, t),
{
    a.plus(b.minus(a).times(t))
}

/// Interpolation between four corners: along the first axis by `tf`, then
/// along the second by `uf`.
pub open spec fn spec_bilinear(
    c00: Fixed,
    c10: Fixed,
    c01: Fixed,
    c11: Fixed,
    tf: Fixed,
    uf: Fixed,
) -> Fixed {
    lerp(lerp(c00, c10, tf), lerp(c01, c11, tf), uf)
}

/// Bilinear interpolation.
#[verifier::when_used_as_spec(spec_bilinear)]
pub fn bilinear(c00: Fixed, c10: Fixed, c01: Fixed, c11: Fixed, tf: Fixed, uf: Fixed) -> (r: Fixed)
    ensures
        r == spec_bilinear(c00, c10, c01, c11, tf, uf),
{
    lerp(lerp(c00, c10, tf), lerp(c01, c11, tf), uf)
}

/// Cell and fraction of a clamped coordinate on one axis.
fn locate(clamped: Fixed, min: i64, step: i64, count: usize) -> (r: (usize, Fixed))
    requires
        0 <= min <= clamped.raw,
        0 < step,
        2 <= count,
    ensures
        r.0 == cell_index(clamped, min, step, count as nat),
        r.0 + 1 < count,
        r.1 == cell_fraction(clamped, min, step, r.0 as int),
{
    let span: i64 = clamped.raw - min;
    let natural: i64 = span / step;
    proof {
        lemma_div_bounds(span as int, step as int);
        if natural < 0 {
            lemma_mul_monotone(natural as int, -1, step as int);
        }
    }
    let index: usize = if natural as u64 > (count - 2) as u64 {
        count - 2
    } else {
        natural as usize
    };
    proof {
        lemma_mul_monotone(index as int, natural as int, step as int);
        lemma_mul_monotone(0, index as int, step as int);
        assert(natural * step == step * natural) by (nonlinear_arith);
        assert(0 <= index * step <= span);
    }
    let offset: i64 = span - (index as i64) * step;
    (index, Fixed::from_raw(offset).over(Fixed::from_raw(step)))
}

/// Drag and lift coefficients at a velocity (m/s) and a spin rate (rpm).
pub open spec fn spec_lookup_cd_cl(velocity: Fixed, spin_rpm: Fixed, table: &CoefficientTable) -> (
    Fixed,
    Fixed,
) {
    let v = clamp_to_axis(velocity, LUT_V_MIN, LUT_V_MAX, LUT_V_STEP);
    let s = clamp_to_axis(spin_rpm, LUT_S_MIN, LUT_S_MAX, LUT_S_STEP);
    let i = cell_index(v, LUT_V_MIN, LUT_V_STEP, table.spec_rows());
    let j = cell_index(s, LUT_S_MIN, LUT_S_STEP, table.spec_cols());
    let vf = cell_fraction(v, LUT_V_MIN, LUT_V_STEP, i);
    let sf = cell_fraction(s, LUT_S_MIN, LUT_S_STEP, j);
    (
        bilinear(
            table.cd_at(i, j),
            table.cd_at(i + 1, j),
            table.cd_at(i, j + 1),
            table.cd_at(i + 1, j + 1),
            vf,
            sf,
        ),
        bilinear(
            table.cl_at(i, j),
            table.cl_at(i + 1, j),
            table.cl_at(i, j + 1),
            table.cl_at(i + 1, j + 1),
            vf,
            sf,
        ),
    )
}

/// Looks up the drag and lift coefficients by bilinear interpolation. A
/// velocity or spin rate off the grid is clamped onto it first, and the cell
/// is never the last row or column, so the four corners always exist.
#[verifier::when_used_as_spec(spec_lookup_cd_cl)]
pub fn lookup_cd_cl(velocity: Fixed, spin_rpm: Fixed, table: &CoefficientTable) -> (r: (
    Fixed,
    Fixed,
))
    requires
        table.wf(),
    ensures
        r == spec_lookup_cd_cl(velocity, spin_rpm, table),
{
    let v = velocity.clamp(Fixed::from_raw(LUT_V_MIN), Fixed::from_raw(LUT_V_MAX - LUT_V_STEP));
    let s = spin_rpm.clamp(Fixed::from_raw(LUT_S_MIN), Fixed::from_raw(LUT_S_MAX - LUT_S_STEP));
    let (i, vf) = locate(v, LUT_V_MIN, LUT_V_STEP, table.rows());
    let (j, sf) = locate(s, LUT_S_MIN, LUT_S_STEP, table.cols());
    let cd = bilinear(
        table.cd(i, j),
        table.cd(i + 1, j),
        table.cd(i, j + 1),
        table.cd(i + 1, j + 1),
        vf,
        sf,
    );
    let cl = bilinear(
        table.cl(i, j),
        table.cl(i + 1, j),
        table.cl(i, j + 1),
        table.cl(i + 1, j + 1),
        vf,
        sf,
    );
    (cd, cl)
}

/// Interpolation with a fraction between zero and one stays between its two
/// ends.
pub proof fn lemma_lerp_between(a: Fixed, b: Fixed, t: Fixed, lo: Fixed, hi: Fixed)
    requires
        0 <= t.raw <= 10_000_000_000,
        lo.raw <= a.raw <= hi.raw,
        lo.raw <= b.raw <= hi.raw,
    ensures
        lo.raw <= spec_lerp(a, b, t).raw <= hi.raw,
{
    let d = sat(b.raw - a.raw);
    let p = d * t.raw;
    let q = p / 10_000_000_000;
    lemma_div_unique(d * 10_000_000_000, 10_000_000_000, d);
    lemma_div_unique(0, 10_000_000_000, 0);
    if d >= 0 {
        lemma_mul_monotone(0, t.raw as int, d);
        lemma_mul_monotone(t.raw as int, 10_000_000_000, d);
        lemma_div_monotone(0, p, 10_000_000_000);
        lemma_div_monotone(p, d * 10_000_000_000, 10_000_000_000);
        assert(0 <= q <= d);
    } else {
        lemma_mul_monotone(0, t.raw as int, -d);
        lemma_mul_monotone(t.raw as int, 10_000_000_000, -d);
        assert(-d * t.raw == -(d * t.raw)) by (nonlinear_arith);
        lemma_div_monotone(p, 0, 10_000_000_000);
        lemma_div_monotone(d * 10_000_000_000, p, 10_000_000_000);
        assert(d <= q <= 0);
    }
}

/// A coordinate inside its cell has a fraction between zero and one.
pub proof fn lemma_fraction_in_unit(clamped: Fixed, min: i64, step: i64, index: int)
    requires
        0 < step,
        0 <= clamped.raw - min - index * step <= step,
    ensures
        0 <= cell_fraction(clamped, min, step, index).raw <= 10_000_000_000,
{
    let offset = clamped.raw - min - index * step;
    lemma_div_unique(0, step as int, 0);
    lemma_div_unique(step * 10_000_000_000, step as int, 10_000_000_000);
    lemma_div_monotone(0, offset * 10_000_000_000, step as int);
    lemma_div_monotone(offset * 10_000_000_000, step * 10_000_000_000, step as int);
}

/// The cell chosen for a coordinate at or above the axis start begins at or
/// below the coordinate.
pub proof fn lemma_cell_starts_below(clamped: Fixed, min: i64, step: i64, count: nat)
    requires
        0 < step,
        min <= clamped.raw,
        2 <= count,
    ensures
        0 <= cell_index(clamped, min, step, count) <= count - 2,
        0 <= clamped.raw - min - cell_index(clamped, min, step, count) * step,
{
    let span = clamped.raw - min;
    let natural = span / (step as int);
    let index = cell_index(clamped, min, step, count);
    lemma_div_bounds(span, step as int);
    if natural < 0 {
        lemma_mul_monotone(natural, -1, step as int);
    }
    lemma_mul_monotone(index, natural, step as int);
}

/// Both coordinates fall on the part of the grid that the table holds, so
/// that the lookup interpolates between samples on both axes. Every velocity
/// and spin rate does on a table of at least 55 rows and 80 columns.
pub open spec fn covers(table: &CoefficientTable, velocity: Fixed, spin_rpm: Fixed) -> bool {
    let v = clamp_to_axis(velocity, LUT_V_MIN, LUT_V_MAX, LUT_V_STEP);
    let s = clamp_to_axis(spin_rpm, LUT_S_MIN, LUT_S_MAX, LUT_S_STEP);
    let i = cell_index(v, LUT_V_MIN, LUT_V_STEP, table.spec_rows());
    let j = cell_index(s, LUT_S_MIN, LUT_S_STEP, table.spec_cols());
    &&& cell_holds(v, LUT_V_MIN, LUT_V_STEP, i)
    &&& cell_holds(s, LUT_S_MIN, LUT_S_STEP, j)
}

/// Every drag coefficient of the table lies in `[lo, hi]`.
pub open spec fn cd_within(table: &CoefficientTable, lo: Fixed, hi: Fixed) -> bool {
    forall|i: int, j: int|
        0 <= i < table.spec_rows() && 0 <= j < table.spec_cols() ==> lo.raw <= (
        #[trigger] table.cd_at(i, j)).raw <= hi.raw
}

/// Every lift coefficient of the table lies in `[lo, hi]`.
pub open spec fn cl_within(table: &CoefficientTable, lo: Fixed, hi: Fixed) -> bool {
    forall|i: int, j: int|
        0 <= i < table.spec_rows() && 0 <= j < table.spec_cols() ==> lo.raw <= (
        #[trigger] table.cl_at(i, j)).raw <= hi.raw
}

/// Interpolation between four corners with fractions between zero and one
/// stays between the smallest and the largest corner.
pub proof fn lemma_bilinear_between(
    c00: Fixed,
    c10: Fixed,
    c01: Fixed,
    c11: Fixed,
    tf: Fixed,
    uf: Fixed,
    lo: Fixed,
    hi: Fixed,
)
    requires
        0 <= tf.raw <= 10_000_000_000,
        0 <= uf.raw <= 10_000_000_000,
        lo.raw <= c00.raw <= hi.raw,
        lo.raw <= c10.raw <= hi.raw,
        lo.raw <= c01.raw <= hi.raw,
        lo.raw <= c11.raw <= hi.raw,
    ensures
        lo.raw <= spec_bilinear(c00, c10, c01, c11, tf, uf).raw <= hi.raw,
{
    lemma_lerp_between(c00, c10, tf, lo, hi);
    lemma_lerp_between(c01, c11, tf, lo, hi);
    lemma_lerp_between(lerp(c00, c10, tf), lerp(c01, c11, tf), uf, lo, hi);
}

/// A looked-up drag coefficient lies between the smallest and the largest
/// drag coefficient of the table, and a looked-up lift coefficient between
/// the smallest and the largest lift coefficient, for every velocity and
/// spin rate that the table covers.
pub proof fn lemma_lookup_within_table(
    velocity: Fixed,
    spin_rpm: Fixed,
    table: &CoefficientTable,
    cd_lo: Fixed,
    cd_hi: Fixed,
    cl_lo: Fixed,
    cl_hi: Fixed,
)
    requires
        table.wf(),
        covers(table, velocity, spin_rpm),
        cd_within(table, cd_lo, cd_hi),
        cl_within(table, cl_lo, cl_hi),
    ensures
        cd_lo.raw <= spec_lookup_cd_cl(velocity, spin_rpm, table).0.raw <= cd_hi.raw,
        cl_lo.raw <= spec_lookup_cd_cl(velocity, spin_rpm, table).1.raw <= cl_hi.raw,
{
    let v = clamp_to_axis(velocity, LUT_V_MIN, LUT_V_MAX, LUT_V_STEP);
    let s = clamp_to_axis(spin_rpm, LUT_S_MIN, LUT_S_MAX, LUT_S_STEP);
    let i = cell_index(v, LUT_V_MIN, LUT_V_STEP, table.spec_rows());
    let j = cell_index(s, LUT_S_MIN, LUT_S_STEP, table.spec_cols());
    let vf = cell_fraction(v, LUT_V_MIN, LUT_V_STEP, i);
    let sf = cell_fraction(s, LUT_S_MIN, LUT_S_STEP, j);
    lemma_cell_starts_below(v, LUT_V_MIN, LUT_V_STEP, table.spec_rows());
    lemma_cell_starts_below(s, LUT_S_MIN, LUT_S_STEP, table.spec_cols());
    lemma_fraction_in_unit(v, LUT_V_MIN, LUT_V_STEP, i);
    lemma_fraction_in_unit(s, LUT_S_MIN, LUT_S_STEP, j);
    lemma_bilinear_between(
        table.cd_at(i, j),
        table.cd_at(i + 1, j),
        table.cd_at(i, j + 1),
        table.cd_at(i + 1, j + 1),
        vf,
        sf,
        cd_lo,
        cd_hi,
    );
    lemma_bilinear_between(
        table.cl_at(i, j),
        table.cl_at(i + 1, j),
        table.cl_at(i, j + 1),
        table.cl_at(i + 1, j + 1),
        vf,
        sf,
        cl_lo,
        cl_hi,
    );
}

/// Interpolation with a fraction of zero gives the start.
pub proof fn lemma_lerp_from_start(a: Fixed, b: Fixed)
    ensures
        spec_lerp(a, b, Fixed::zero()) == a,
{
    let d = b.minus(a);
    assert(d.raw * 0 == 0);
    lemma_div_unique(0, 10_000_000_000, 0);
}

/// Interpolation with a fraction of one gives the end, where the difference
/// of the two ends is within the range of the numbers.
pub proof fn lemma_lerp_to_end(a: Fixed, b: Fixed)
    requires
        sat(b.raw - a.raw) == b.raw - a.raw,
    ensures
        spec_lerp(a, b, Fixed::from_int(1)) == b,
{
    let d = b.minus(a);
    lemma_div_unique(d.raw * 10_000_000_000, 10_000_000_000, d.raw as int);
}

/// Interpolation between four corners with fractions that are each zero or
/// one gives the corner that the fractions name, where the corners differ by
/// no more than the range of the numbers.
proof fn lemma_bilinear_at_corner(
    c00: Fixed,
    c10: Fixed,
    c01: Fixed,
    c11: Fixed,
    tf: Fixed,
    uf: Fixed,
    lo: Fixed,
    hi: Fixed,
)
    requires
        tf == Fixed::zero() || tf == Fixed::from_int(1),
        uf == Fixed::zero() || uf == Fixed::from_int(1),
        tf == Fixed::zero() && uf == Fixed::zero() || {
            &&& hi.raw - lo.raw <= i64::MAX
            &&& lo.raw <= c00.raw <= hi.raw
            &&& lo.raw <= c10.raw <= hi.raw
            &&& lo.raw <= c01.raw <= hi.raw
            &&& lo.raw <= c11.raw <= hi.raw
        },
    ensures
        spec_bilinear(c00, c10, c01, c11, tf, uf) == if tf == Fixed::zero() {
            if uf == Fixed::zero() {
                c00
            } else {
                c01
            }
        } else {
            if uf == Fixed::zero() {
                c10
            } else {
                c11
            }
        },
{
    if tf == Fixed::zero() {
        lemma_lerp_from_start(c00, c10);
        lemma_lerp_from_start(c01, c11);
        if uf == Fixed::zero() {
            lemma_lerp_from_start(c00, c01);
        } else {
            lemma_lerp_to_end(c00, c01);
        }
    } else {
        lemma_lerp_to_end(c00, c10);
        lemma_lerp_to_end(c01, c11);
        if uf == Fixed::zero() {
            lemma_lerp_from_start(c10, c11);
        } else {
            lemma_lerp_to_end(c10, c11);
        }
    }
}

/// A coordinate on sample `node` of an axis lies in the cell of that sample
/// with a fraction of zero or, on the last sample that the table holds, in
/// the cell before it with a fraction of one.
proof fn lemma_cell_of_a_sample(min: i64, step: i64, count: nat, node: int)
    requires
        0 < step,
        2 <= count,
        0 <= node < count,
        i64::MIN <= min + node * step <= i64::MAX,
        0 <= node * step,
    ensures
        ({
            let x = Fixed::from_raw((min + node * step) as i64);
            let index = cell_index(x, min, step, count);
            &&& node + 2 <= count ==> index == node && cell_fraction(x, min, step, index)
                == Fixed::zero()
            &&& node + 1 == count ==> index == node - 1 && cell_fraction(x, min, step, index)
                == Fixed::from_int(1)
        }),
{
    let x = Fixed::from_raw((min + node * step) as i64);
    assert(step * node == node * step) by (nonlinear_arith);
    lemma_div_unique(node * step, step as int, node);
    lemma_div_unique(0, step as int, 0);
    lemma_div_unique(step * 10_000_000_000, step as int, 10_000_000_000);
    if node + 1 == count {
        assert(node * step - (node - 1) * step == step) by (nonlinear_arith);
    } else {
        assert(node * step - node * step == 0);
    }
}

/// The lookup at a point of the grid returns the entries of the table at
/// that point: interpolation reproduces the samples. On the last row or
/// column that the table holds this needs entries that differ by no more
/// than the range of the numbers.
pub proof fn lemma_lookup_on_a_sample(
    table: &CoefficientTable,
    i: int,
    j: int,
    lo: Fixed,
    hi: Fixed,
)
    requires
        table.wf(),
        0 <= i <= 54,
        i < table.spec_rows(),
        0 <= j <= 79,
        j < table.spec_cols(),
        i + 2 <= table.spec_rows() && j + 2 <= table.spec_cols() || {
            &&& hi.raw - lo.raw <= i64::MAX
            &&& cd_within(table, lo, hi)
            &&& cl_within(table, lo, hi)
        },
    ensures
        spec_lookup_cd_cl(
            Fixed::from_raw((LUT_V_MIN + i * LUT_V_STEP) as i64),
            Fixed::from_raw((LUT_S_MIN + j * LUT_S_STEP) as i64),
            table,
        ) == (table.cd_at(i, j), table.cl_at(i, j)),
{
    let velocity = Fixed::from_raw((LUT_V_MIN + i * LUT_V_STEP) as i64);
    let spin_rpm = Fixed::from_raw((LUT_S_MIN + j * LUT_S_STEP) as i64);
    assert(0 <= i * LUT_V_STEP <= 54 * LUT_V_STEP) by (nonlinear_arith)
        requires
            0 <= i <= 54,
            LUT_V_STEP > 0,
    ;
    assert(0 <= j * LUT_S_STEP <= 79 * LUT_S_STEP) by (nonlinear_arith)
        requires
            0 <= j <= 79,
            LUT_S_STEP > 0,
    ;
    let v = clamp_to_axis(velocity, LUT_V_MIN, LUT_V_MAX, LUT_V_STEP);
    let s = clamp_to_axis(spin_rpm, LUT_S_MIN, LUT_S_MAX, LUT_S_STEP);
    assert(v == velocity);
    assert(s == spin_rpm);
    lemma_cell_of_a_sample(LUT_V_MIN, LUT_V_STEP, table.spec_rows(), i);
    lemma_cell_of_a_sample(LUT_S_MIN, LUT_S_STEP, table.spec_cols(), j);
    let ci = cell_index(v, LUT_V_MIN, LUT_V_STEP, table.spec_rows());
    let cj = cell_index(s, LUT_S_MIN, LUT_S_STEP, table.spec_cols());
    let vf = cell_fraction(v, LUT_V_MIN, LUT_V_STEP, ci);
    let sf = cell_fraction(s, LUT_S_MIN, LUT_S_STEP, cj);
    lemma_bilinear_at_corner(
        table.cd_at(ci, cj),
        table.cd_at(ci + 1, cj),
        table.cd_at(ci, cj + 1),
        table.cd_at(ci + 1, cj + 1),
        vf,
        sf,
        lo,
        hi,
    );
    lemma_bilinear_at_corner(
        table.cl_at(ci, cj),
        table.cl_at(ci + 1, cj),
        table.cl_at(ci, cj + 1),
        table.cl_at(ci + 1, cj + 1),
        vf,
        sf,
        lo,
        hi,
    );
}

/// A table of at least 55 rows and 80 columns covers every velocity and spin
/// rate.
pub proof fn lemma_full_table_covers(velocity: Fixed, spin_rpm: Fixed, table: &CoefficientTable)
    requires
        table.wf(),
        table.spec_rows() >= 55,
        table.spec_cols() >= 80,
    ensures
        covers(table, velocity, spin_rpm),
{
    let v = clamp_to_axis(velocity, LUT_V_MIN, LUT_V_MAX, LUT_V_STEP);
    let s = clamp_to_axis(spin_rpm, LUT_S_MIN, LUT_S_MAX, LUT_S_STEP);
    lemma_div_bounds(v.raw - LUT_V_MIN, LUT_V_STEP as int);
    lemma_div_bounds(s.raw - LUT_S_MIN, LUT_S_STEP as int);
    let nv = (v.raw - LUT_V_MIN) / (LUT_V_STEP as int);
    let ns = (s.raw - LUT_S_MIN) / (LUT_S_STEP as int);
    if nv > 54 {
        lemma_mul_monotone(55, nv, LUT_V_STEP as int);
    }
    if ns > 79 {
        lemma_mul_monotone(80, ns, LUT_S_STEP as int);
    }
    let i = cell_index(v, LUT_V_MIN, LUT_V_STEP, table.spec_rows());
    let j = cell_index(s, LUT_S_MIN, LUT_S_STEP, table.spec_cols());
    if i < nv {
        assert(i == table.spec_rows() - 2);
        assert(nv == 54 && i == 53);
        assert(v.raw - LUT_V_MIN <= 54 * LUT_V_STEP);
    }
    if j < ns {
        assert(ns == 79 && j == 78);
        assert(s.raw - LUT_S_MIN <= 79 * LUT_S_STEP);
    }
}

} // verus!
