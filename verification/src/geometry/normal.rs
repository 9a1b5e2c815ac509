//! Outward normals as a capability.

use vstd::prelude::*;
use crate::geometry::vector::Vector;

verus! {

/// A point type from which two neighbours yield a perpendicular to their
/// chord.  The result is not normalized; callers that need a unit vector
/// normalize it themselves, guarding the zero chord.
pub trait Normal: Sized {
    spec fn normal_between_spec(p1: Self, p2: Self) -> Vector;

    fn normal_between(p1: Self, p2: Self) -> (r: Vector)
        ensures
            r == Self::normal_between_spec(p1, p2),
    ;
}

} // verus!
