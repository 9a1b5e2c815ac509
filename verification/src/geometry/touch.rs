//! Pointer samples: a position with a pressure.

use vstd::prelude::*;
use crate::geometry::distance::Distance;
use crate::geometry::mix::Mix;
use crate::geometry::normal::Normal;
use crate::geometry::scalar::{Fixed, Ratio};
use crate::geometry::vector::Vector;

verus! {

/// A pointer sample.  Pressure takes part in interpolation but not in
/// distance.
#[derive(Clone, Copy, Debug, PartialEq, Eq, Structural)]
pub struct Touch {
    pub point: Vector,
    pub pressure: Fixed,
}

impl Touch {
    pub fn new(x: Fixed, y: Fixed, pressure: Fixed) -> (r: Touch)
        ensures
            r == (Touch { point: Vector { x, y }, pressure }),
    {
        Touch { point: Vector { x, y }, pressure }
    }

    pub fn x(&self) -> (r: Fixed)
        ensures
            r == self.point.x,
    {
        self.point.x
    }

    pub fn y(&self) -> (r: Fixed)
        ensures
            r == self.point.y,
    {
        self.point.y
    }

    /// Componentwise scaling, pressure included.
    pub open spec fn scale_spec(self, s: Fixed) -> Touch {
        Touch { point: self.point.scale_spec(s), pressure: self.pressure.mul_spec(s) }
    }

    pub fn scale(self, s: Fixed) -> (r: Touch)
        ensures
            r == self.scale_spec(s),
    {
        Touch { point: self.point.scale(s), pressure: self.pressure.mul(s) }
    }

    /// Componentwise addition, pressure included.
    pub open spec fn add_spec(self, other: Touch) -> Touch {
        Touch {
            point: self.point.add_spec(other.point),
            pressure: self.pressure.add_spec(other.pressure),
        }
    }

    pub fn add(self, other: Touch) -> (r: Touch)
        ensures
            r == self.add_spec(other),
    {
        Touch { point: self.point.add(other.point), pressure: self.pressure.add(other.pressure) }
    }
}

impl From<Touch> for Vector {
    /// A touch forgets its pressure.
    fn from(touch: Touch) -> (r: Vector) {
        touch.point
    }
}

impl vstd::std_specs::convert::FromSpecImpl<Touch> for Vector {
    open spec fn obeys_from_spec() -> bool {
        true
    }

    open spec fn from_spec(touch: Touch) -> Vector {
        touch.point
    }
}

impl Distance for Touch {
    /// Positional distance only: pressure does not contribute.
    open spec fn distance_spec(self, other: Touch) -> Fixed {
        self.point.distance_spec(other.point)
    }

    fn distance(self, other: Touch) -> (r: Fixed)
        ensures
            r == self.distance_spec(other),
    {
        self.point.distance(other.point)
    }

    proof fn lemma_distance_nonneg(self, other: Touch) {
        self.point.lemma_distance_nonneg(other.point);
    }

    proof fn lemma_distance_sym(self, other: Touch) {
        self.point.lemma_distance_sym(other.point);
    }
}

impl Mix for Touch {
    /// Interpolation composes fieldwise, pressure included.
    open spec fn mix_spec(self, other: Touch, t: Ratio) -> Touch {
        Touch {
            point: self.point.mix_spec(other.point, t),
            pressure: self.pressure.mix_spec(other.pressure, t),
        }
    }

    fn mix(self, other: Touch, t: Ratio) -> (r: Touch)
        ensures
            r == self.mix_spec(other, t),
    {
        Touch {
            point: self.point.mix(other.point, t),
            pressure: self.pressure.mix(other.pressure, t),
        }
    }

    proof fn lemma_mix_bounds(self, other: Touch, t: Ratio) {
        self.point.lemma_mix_bounds(other.point, t);
        self.pressure.lemma_mix_bounds(other.pressure, t);
    }
}

impl Normal for Touch {
    /// The perpendicular of the chord between the two positions.
    open spec fn normal_between_spec(p1: Touch, p2: Touch) -> Vector {
        <Vector as Normal>::normal_between_spec(p1.point, p2.point)
    }

    fn normal_between(p1: Touch, p2: Touch) -> (r: Vector)
        ensures
            r == Touch::normal_between_spec(p1, p2),
    {
        <Vector as Normal>::normal_between(p1.point, p2.point)
    }
}

} // verus!
