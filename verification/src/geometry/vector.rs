//! 2D vectors over fixed-point scalars.

use vstd::prelude::*;
use crate::geometry::distance::Distance;
use crate::geometry::mix::Mix;
use crate::geometry::normal::Normal;
use crate::geometry::scalar::{sat, spec_abs, sqrt_floor, Fixed, Ratio};
use crate::geometry::scalar::{isqrt, lemma_sqrt_floor_bounds, sat_narrow, umag};

verus! {

#[derive(Clone, Copy, Debug, PartialEq, Eq, Structural)]
pub struct Vector {
    pub x: Fixed,
    pub y: Fixed,
}

/// Sum of the squares of the two raw coordinates.
pub open spec fn raw_square_sum(v: Vector) -> int {
    v.x.raw * v.x.raw + v.y.raw * v.y.raw
}

impl Vector {
    pub fn new(x: Fixed, y: Fixed) -> (r: Vector)
        ensures
            r == (Vector { x, y }),
    {
        Vector { x, y }
    }

    pub open spec fn zero_spec() -> Vector {
        Vector { x: Fixed { raw: 0 }, y: Fixed { raw: 0 } }
    }

    pub fn zero() -> (r: Vector)
        ensures
            r == Vector::zero_spec(),
    {
        Vector { x: Fixed { raw: 0 }, y: Fixed { raw: 0 } }
    }

    pub fn is_zero(&self) -> (r: bool)
        ensures
            r <==> *self == Vector::zero_spec(),
    {
        self.x.raw == 0 && self.y.raw == 0
    }

    pub open spec fn dot_spec(self, v: Vector) -> Fixed {
        self.x.mul_spec(v.x).add_spec(self.y.mul_spec(v.y))
    }

    pub fn dot(self, v: Vector) -> (r: Fixed)
        ensures
            r == self.dot_spec(v),
    {
        self.x.mul(v.x).add(self.y.mul(v.y))
    }

    pub open spec fn square_spec(self) -> Fixed {
        self.dot_spec(self)
    }

    pub fn square(self) -> (r: Fixed)
        ensures
            r == self.square_spec(),
    {
        self.dot(self)
    }

    /// Euclidean length, computed on the raw coordinates so that no
    /// precision is lost before the square root is taken.
    pub open spec fn length_spec(self) -> Fixed {
        Fixed { raw: sat(sqrt_floor(raw_square_sum(self) as nat) as int) as i64 }
    }

    pub fn length(self) -> (r: Fixed)
        ensures
            r == self.length_spec(),
    {
        let mx: u128 = umag(self.x.raw);
        let my: u128 = umag(self.y.raw);
        proof {
            lemma_mag_square(self.x.raw as int, mx as int);
            lemma_mag_square(self.y.raw as int, my as int);
        }
        let sum: u128 = mx * mx + my * my;
        let root: u64 = isqrt(sum);
        Fixed { raw: sat_narrow(root as i128) }
    }

    /// Componentwise division by the length.  The caller guards the zero
    /// vector, whose length would be zero.
    pub open spec fn normalize_spec(self) -> Vector {
        Vector {
            x: self.x.div_spec(self.length_spec()),
            y: self.y.div_spec(self.length_spec()),
        }
    }

    pub fn normalize(self) -> (r: Vector)
        requires
            self != Vector::zero_spec(),
        ensures
            r == self.normalize_spec(),
    {
        let len: Fixed = self.length();
        proof {
            lemma_length_pos(self);
        }
        Vector { x: self.x.div(len), y: self.y.div(len) }
    }

    /// The 90-degree rotation `(-y, x)`.
    pub open spec fn normal_vec_spec(self) -> Vector {
        Vector { x: self.y.neg_spec(), y: self.x }
    }

    pub fn normal(self) -> (r: Vector)
        ensures
            r == self.normal_vec_spec(),
    {
        Vector { x: self.y.neg(), y: self.x }
    }

    pub open spec fn add_spec(self, v: Vector) -> Vector {
        Vector { x: self.x.add_spec(v.x), y: self.y.add_spec(v.y) }
    }

    pub fn add(self, v: Vector) -> (r: Vector)
        ensures
            r == self.add_spec(v),
    {
        Vector { x: self.x.add(v.x), y: self.y.add(v.y) }
    }

    pub open spec fn sub_spec(self, v: Vector) -> Vector {
        Vector { x: self.x.sub_spec(v.x), y: self.y.sub_spec(v.y) }
    }

    pub fn sub(self, v: Vector) -> (r: Vector)
        ensures
            r == self.sub_spec(v),
    {
        Vector { x: self.x.sub(v.x), y: self.y.sub(v.y) }
    }

    pub open spec fn neg_spec(self) -> Vector {
        Vector { x: self.x.neg_spec(), y: self.y.neg_spec() }
    }

    pub fn neg(self) -> (r: Vector)
        ensures
            r == self.neg_spec(),
    {
        Vector { x: self.x.neg(), y: self.y.neg() }
    }

    /// Componentwise scaling by a fixed-point factor.
    pub open spec fn scale_spec(self, s: Fixed) -> Vector {
        Vector { x: self.x.mul_spec(s), y: self.y.mul_spec(s) }
    }

    pub fn scale(self, s: Fixed) -> (r: Vector)
        ensures
            r == self.scale_spec(s),
    {
        Vector { x: self.x.mul(s), y: self.y.mul(s) }
    }
}

/// The square of a magnitude equals the square of the signed value.
proof fn lemma_mag_square(v: int, m: int)
    requires
        m == spec_abs(v),
        -0x8000_0000_0000_0000 <= v <= 0x7fff_ffff_ffff_ffff,
    ensures
        m * m == v * v,
        0 <= m * m <= 0x4000_0000_0000_0000_0000_0000_0000_0000,
{
    assert(m * m == v * v && m * m >= 0 && m * m
        <= 0x4000_0000_0000_0000_0000_0000_0000_0000) by (nonlinear_arith)
        requires
            -0x8000_0000_0000_0000 <= v <= 0x7fff_ffff_ffff_ffff,
            m == if v >= 0 {
                v
            } else {
                -v
            },
    ;
}

/// A vector with a non-zero coordinate has a positive length.
proof fn lemma_length_pos(v: Vector)
    requires
        v != Vector::zero_spec(),
    ensures
        v.length_spec().raw > 0,
{
    assert(v.x.raw * v.x.raw >= 0 && v.y.raw * v.y.raw >= 0 && (v.x.raw != 0 ==> v.x.raw * v.x.raw
        >= 1) && (v.y.raw != 0 ==> v.y.raw * v.y.raw >= 1)) by (nonlinear_arith);
    let n = raw_square_sum(v) as nat;
    lemma_sqrt_floor_bounds(n);
    if sqrt_floor(n) == 0 {
        assert(n < (sqrt_floor(n) + 1) * (sqrt_floor(n) + 1));
        assert((sqrt_floor(n) + 1) * (sqrt_floor(n) + 1) == 1) by (nonlinear_arith)
            requires
                sqrt_floor(n) == 0,
        ;
    }
}

impl Distance for Vector {
    /// Euclidean distance: the length of the difference.
    open spec fn distance_spec(self, v: Vector) -> Fixed {
        v.sub_spec(self).length_spec()
    }

    fn distance(self, v: Vector) -> (r: Fixed)
        ensures
            r == self.distance_spec(v),
    {
        v.sub(self).length()
    }

    proof fn lemma_distance_nonneg(self, v: Vector) {
        let n = raw_square_sum(v.sub_spec(self)) as nat;
        lemma_sqrt_floor_bounds(n);
    }

    proof fn lemma_distance_sym(self, v: Vector) {
        let d1 = v.sub_spec(self);
        let d2 = self.sub_spec(v);
        assert(raw_square_sum(d1) == raw_square_sum(d2)) by (nonlinear_arith)
            requires
                d1.x.raw as int == -(d2.x.raw as int) || (d1.x.raw as int == d2.x.raw as int
                    && d1.x.raw as int == 0),
                d1.y.raw as int == -(d2.y.raw as int) || (d1.y.raw as int == d2.y.raw as int
                    && d1.y.raw as int == 0),
        ;
    }
}

impl Mix for Vector {
    /// Componentwise interpolation.
    open spec fn mix_spec(self, other: Vector, t: Ratio) -> Vector {
        Vector { x: self.x.mix_spec(other.x, t), y: self.y.mix_spec(other.y, t) }
    }

    fn mix(self, other: Vector, t: Ratio) -> (r: Vector)
        ensures
            r == self.mix_spec(other, t),
    {
        Vector { x: self.x.mix(other.x, t), y: self.y.mix(other.y, t) }
    }

    proof fn lemma_mix_bounds(self, other: Vector, t: Ratio) {
        self.x.lemma_mix_bounds(other.x, t);
        self.y.lemma_mix_bounds(other.y, t);
    }
}

impl Normal for Vector {
    /// The perpendicular of the chord from `p1` to `p2`.
    open spec fn normal_between_spec(p1: Vector, p2: Vector) -> Vector {
        p2.sub_spec(p1).normal_vec_spec()
    }

    fn normal_between(p1: Vector, p2: Vector) -> (r: Vector)
        ensures
            r == <Vector as Normal>::normal_between_spec(p1, p2),
    {
        p2.sub(p1).normal()
    }
}

} // verus!
