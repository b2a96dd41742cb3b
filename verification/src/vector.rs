//! Two- and three-component vectors of fixed-point numbers.

use vstd::prelude::*;
use crate::arith::{floor_sqrt, integer_sqrt};
use crate::fixed::{raw_square, sat, saturate_unsigned, Fixed};

verus! {

/// A vector in the plane of the field.
#[derive(Clone, Copy, Debug, PartialEq, Eq, Structural)]
pub struct Vec2 {
    pub x: Fixed,
    pub y: Fixed,
}

/// A vector in space; `z` points up.
#[derive(Clone, Copy, Debug, PartialEq, Eq, Structural)]
pub struct Vec3 {
    pub x: Fixed,
    pub y: Fixed,
    pub z: Fixed,
}

impl Vec2 {
    pub open spec fn spec_new(x: Fixed, y: Fixed) -> Vec2 {
        Vec2 { x, y }
    }

    /// The vector with the given components.
    #[verifier::when_used_as_spec(spec_new)]
    pub fn new(x: Fixed, y: Fixed) -> (r: Vec2)
        ensures
            r == Vec2::spec_new(x, y),
    {
        Vec2 { x, y }
    }

    pub open spec fn spec_norm(self) -> Fixed {
        Fixed { raw: sat(floor_sqrt(self.x.raw * self.x.raw + self.y.raw * self.y.raw)) as i64 }
    }

    /// Euclidean length: the square root of the exact sum of squares, rounded
    /// down to the grid and saturated.
    #[verifier::when_used_as_spec(spec_norm)]
    pub fn norm(self) -> (r: Fixed)
        ensures
            r == self.spec_norm(),
            r.raw >= 0,
    {
        let sum: u128 = raw_square(self.x.raw) + raw_square(self.y.raw);
        Fixed { raw: saturate_unsigned(integer_sqrt(sum)) }
    }
}

impl Vec3 {
    pub open spec fn spec_new(x: Fixed, y: Fixed, z: Fixed) -> Vec3 {
        Vec3 { x, y, z }
    }

    /// The vector with the given components.
    #[verifier::when_used_as_spec(spec_new)]
    pub fn new(x: Fixed, y: Fixed, z: Fixed) -> (r: Vec3)
        ensures
            r == Vec3::spec_new(x, y, z),
    {
        Vec3 { x, y, z }
    }

    pub open spec fn spec_zero() -> Vec3 {
        Vec3 { x: Fixed::zero(), y: Fixed::zero(), z: Fixed::zero() }
    }

    /// The vector of no length.
    #[verifier::when_used_as_spec(spec_zero)]
    pub fn zero() -> (r: Vec3)
        ensures
            r == Vec3::spec_zero(),
    {
        Vec3 { x: Fixed::zero(), y: Fixed::zero(), z: Fixed::zero() }
    }

    pub open spec fn spec_plus(self, rhs: Vec3) -> Vec3 {
        Vec3 { x: self.x.plus(rhs.x), y: self.y.plus(rhs.y), z: self.z.plus(rhs.z) }
    }

    /// Component-wise sum.
    #[verifier::when_used_as_spec(spec_plus)]
    pub fn plus(self, rhs: Vec3) -> (r: Vec3)
        ensures
            r == self.spec_plus(rhs),
    {
        Vec3 { x: self.x.plus(rhs.x), y: self.y.plus(rhs.y), z: self.z.plus(rhs.z) }
    }

    pub open spec fn spec_minus(self, rhs: Vec3) -> Vec3 {
        Vec3 { x: self.x.minus(rhs.x), y: self.y.minus(rhs.y), z: self.z.minus(rhs.z) }
    }

    /// Component-wise difference.
    #[verifier::when_used_as_spec(spec_minus)]
    pub fn minus(self, rhs: Vec3) -> (r: Vec3)
        ensures
            r == self.spec_minus(rhs),
    {
        Vec3 { x: self.x.minus(rhs.x), y: self.y.minus(rhs.y), z: self.z.minus(rhs.z) }
    }

    pub open spec fn spec_scale(self, k: Fixed) -> Vec3 {
        Vec3 { x: self.x.times(k), y: self.y.times(k), z: self.z.times(k) }
    }

    /// Every component multiplied by `k`.
    #[verifier::when_used_as_spec(spec_scale)]
    pub fn scale(self, k: Fixed) -> (r: Vec3)
        ensures
            r == self.spec_scale(k),
    {
        Vec3 { x: self.x.times(k), y: self.y.times(k), z: self.z.times(k) }
    }

    pub open spec fn spec_unscale(self, k: Fixed) -> Vec3 {
        Vec3 { x: self.x.over(k), y: self.y.over(k), z: self.z.over(k) }
    }

    /// Every component divided by `k`.
    #[verifier::when_used_as_spec(spec_unscale)]
    pub fn unscale(self, k: Fixed) -> (r: Vec3)
        ensures
            r == self.spec_unscale(k),
    {
        Vec3 { x: self.x.over(k), y: self.y.over(k), z: self.z.over(k) }
    }

    pub open spec fn spec_cross(self, rhs: Vec3) -> Vec3 {
        Vec3 {
            x: self.y.times(rhs.z).minus(self.z.times(rhs.y)),
            y: self.z.times(rhs.x).minus(self.x.times(rhs.z)),
            z: self.x.times(rhs.y).minus(self.y.times(rhs.x)),
        }
    }

    /// Cross product.
    #[verifier::when_used_as_spec(spec_cross)]
    pub fn cross(self, rhs: Vec3) -> (r: Vec3)
        ensures
            r == self.spec_cross(rhs),
    {
        Vec3 {
            x: self.y.times(rhs.z).minus(self.z.times(rhs.y)),
            y: self.z.times(rhs.x).minus(self.x.times(rhs.z)),
            z: self.x.times(rhs.y).minus(self.y.times(rhs.x)),
        }
    }

    pub open spec fn spec_norm(self) -> Fixed {
        Fixed {
            raw: sat(
                floor_sqrt(
                    self.x.raw * self.x.raw + self.y.raw * self.y.raw + self.z.raw * self.z.raw,
                ),
            ) as i64,
        }
    }

    /// Euclidean length: the square root of the exact sum of squares, rounded
    /// down to the grid and saturated.
    #[verifier::when_used_as_spec(spec_norm)]
    pub fn norm(self) -> (r: Fixed)
        ensures
            r == self.spec_norm(),
            r.raw >= 0,
    {
        let sum: u128 = raw_square(self.x.raw) + raw_square(self.y.raw) + raw_square(self.z.raw);
        Fixed { raw: saturate_unsigned(integer_sqrt(sum)) }
    }
}

} // verus!
