//! A 2D vector of fixed-point scalars, used both for displacements and
//! for absolute canvas positions.

use vstd::prelude::*;
use crate::fixed::{in_range, in_diff_range, fxmul, fxmul_spec, isqrt, sqrt_floor, is_sqrt_floor};

verus! {

/// A 2D fixed-point vector; each component counts units of `1/FP_ONE`
/// canvas pixels.
#[derive(Clone, Copy, PartialEq, Eq, Structural, Debug)]
pub struct Vector {
    pub x: i64,
    pub y: i64,
}

/// True when both components lie within the coordinate bound.
pub open spec fn vec_in_range(v: Vector) -> bool {
    in_range(v.x as int) && in_range(v.y as int)
}

/// True when both components lie within the wider bound kept by a
/// difference of two in-range vectors.
pub open spec fn vec_in_diff_range(v: Vector) -> bool {
    in_diff_range(v.x as int) && in_diff_range(v.y as int)
}

/// The squared length of `v`, in squared fixed-point units.
pub open spec fn len_sq(v: Vector) -> int {
    (v.x as int) * (v.x as int) + (v.y as int) * (v.y as int)
}

impl Vector {
    /// Build a vector from its two components.
    pub fn new(x: i64, y: i64) -> (r: Vector)
        ensures
            r.x == x,
            r.y == y,
    {
        Vector { x, y }
    }

    /// Componentwise sum.
    pub fn add(self, other: Vector) -> (r: Vector)
        requires
            vec_in_range(self),
            vec_in_range(other),
        ensures
            r.x == self.x + other.x,
            r.y == self.y + other.y,
    {
        Vector { x: self.x + other.x, y: self.y + other.y }
    }

    /// Componentwise difference.
    pub fn sub(self, other: Vector) -> (r: Vector)
        requires
            vec_in_range(self),
            vec_in_range(other),
        ensures
            r.x == self.x - other.x,
            r.y == self.y - other.y,
    {
        Vector { x: self.x - other.x, y: self.y - other.y }
    }

    /// Uniform scaling by a fixed-point scalar, each component floored.
    pub fn mul(self, s: i64) -> (r: Vector)
        requires
            vec_in_diff_range(self),
            in_range(s as int),
        ensures
            r.x == fxmul_spec(self.x as int, s as int),
            r.y == fxmul_spec(self.y as int, s as int),
    {
        Vector { x: fxmul(self.x, s), y: fxmul(self.y, s) }
    }

    /// The Euclidean length, floored to a fixed-point scalar: the floor
    /// of the square root of the squared length.
    pub fn len(self) -> (r: i64)
        requires
            vec_in_diff_range(self),
        ensures
            r == sqrt_floor(len_sq(self)),
            is_sqrt_floor(len_sq(self), r as int),
            0 <= r <= 0x1_0000_0000,
    {
        proof {
            assert(0 <= (self.x as int) * (self.x as int) <= 0x4000_0000_0000_0000
                && 0 <= (self.y as int) * (self.y as int) <= 0x4000_0000_0000_0000)
                by (nonlinear_arith)
                requires
                    vec_in_diff_range(self),
            ;
        }
        let sq: u64 = ((self.x * self.x) as u64) + ((self.y * self.y) as u64);
        let r: u64 = isqrt(sq);
        proof {
            assert((0x1_0000_0000int) * (0x1_0000_0000int) >= sq as int);
            if r as int > 0x1_0000_0000int {
                assert((r as int) * (r as int) > (0x1_0000_0000int) * (0x1_0000_0000int))
                    by (nonlinear_arith)
                    requires
                        r as int > 0x1_0000_0000int,
                ;
            }
        }
        r as i64
    }
}

} // verus!
