//! Scalar distance as a capability.

use vstd::prelude::*;
use crate::geometry::scalar::{sat, spec_abs, Fixed};

verus! {

/// A type with a non-negative, symmetric scalar distance between two values.
pub trait Distance: Sized {
    spec fn distance_spec(self, other: Self) -> Fixed;

    fn distance(self, other: Self) -> (r: Fixed)
        ensures
            r == self.distance_spec(other),
    ;

    /// Law: a distance is never negative.
    proof fn lemma_distance_nonneg(self, other: Self)
        ensures
            self.distance_spec(other).raw >= 0,
    ;

    /// Law: distance is symmetric.
    proof fn lemma_distance_sym(self, other: Self)
        ensures
            self.distance_spec(other) == other.distance_spec(self),
    ;
}

impl Distance for Fixed {
    /// The absolute difference.
    open spec fn distance_spec(self, other: Fixed) -> Fixed {
        Fixed { raw: sat(spec_abs(other.raw - self.raw)) as i64 }
    }

    fn distance(self, other: Fixed) -> (r: Fixed)
        ensures
            r == self.distance_spec(other),
    {
        other.sub(self).abs()
    }

    proof fn lemma_distance_nonneg(self, other: Fixed) {
    }

    proof fn lemma_distance_sym(self, other: Fixed) {
    }
}

} // verus!
