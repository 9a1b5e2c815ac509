//! Linear interpolation as a capability.

use vstd::prelude::*;
use crate::geometry::scalar::{mul_tdiv, sat, sat_narrow, tdiv, Fixed, Ratio};

verus! {

/// A type that supports linear interpolation `mix(self, other, t)`, where
/// `t` is an exact rational fraction.  The boundary fractions are exact:
/// `t == 0` yields `self` and `t == 1` yields `other`, with no rounding.
pub trait Mix: Sized {
    spec fn mix_spec(self, other: Self, t: Ratio) -> Self;

    fn mix(self, other: Self, t: Ratio) -> (r: Self)
        ensures
            r == self.mix_spec(other, t),
    ;

    /// Law: interpolation is exact at the boundary fractions.
    proof fn lemma_mix_bounds(self, other: Self, t: Ratio)
        ensures
            t.num == 0 ==> self.mix_spec(other, t) == self,
            t.num == t.den && t.den > 0 ==> self.mix_spec(other, t) == other,
    ;
}

impl Mix for Fixed {
    /// `self + (other - self) * t`, in one truncated step; the boundary
    /// fractions short-circuit exactly, and a fraction with a degenerate
    /// denominator leaves `self` unchanged.
    open spec fn mix_spec(self, other: Fixed, t: Ratio) -> Fixed {
        if t.num == 0 || t.den <= 0 {
            self
        } else if t.num == t.den {
            other
        } else {
            Fixed { raw: sat(self.raw + tdiv(sat(other.raw - self.raw) * t.num, t.den as int)) as i64 }
        }
    }

    fn mix(self, other: Fixed, t: Ratio) -> (r: Fixed)
        ensures
            r == self.mix_spec(other, t),
    {
        if t.num == 0 || t.den <= 0 {
            self
        } else if t.num == t.den {
            other
        } else {
            let d: Fixed = other.sub(self);
            let q: i128 = mul_tdiv(d.raw, t.num, t.den);
            proof {
                assert((i64::MAX as int + 1) * (i64::MAX as int + 1) + i64::MAX < i128::MAX as int)
                    by (nonlinear_arith);
            }
            Fixed { raw: sat_narrow(self.raw as i128 + q) }
        }
    }

    proof fn lemma_mix_bounds(self, other: Fixed, t: Ratio) {
    }
}

} // verus!
