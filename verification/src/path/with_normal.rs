//! The normal-annotating transform.
//!
//! Attaches to every point the perpendicular of the chord through its
//! neighbours: interior points use the chord between both neighbours,
//! endpoints the single adjacent chord, and a lone point the zero vector.
//! The attached normals are not unit length; the consumer normalizes them,
//! which keeps the zero-chord guard in one place.

use vstd::prelude::*;
use crate::geometry::distance::Distance;
use crate::geometry::mix::Mix;
use crate::geometry::normal::Normal;
use crate::geometry::scalar::{Fixed, Ratio};
use crate::geometry::vector::Vector;
use crate::path::source::PathSource;
use crate::path::with_neighbours::{neighbours_seq, WithNeighbours, WithNeighboursIterator};

verus! {

/// A point annotated with an outward normal.
#[derive(Clone, Copy, Debug)]
pub struct WithNormal<T> {
    pub point: T,
    pub normal: Vector,
}

impl<T: Copy> WithNormal<T> {
    /// Unit-normalizes the attached normal; the zero vector stays zero.
    pub fn normalize(self) -> (r: WithNormal<T>)
        ensures
            r.point == self.point,
            self.normal == Vector::zero_spec() ==> r.normal == Vector::zero_spec(),
            self.normal != Vector::zero_spec() ==> r.normal == self.normal.normalize_spec(),
    {
        if self.normal.is_zero() {
            self
        } else {
            WithNormal { point: self.point, normal: self.normal.normalize() }
        }
    }
}

impl<T: Distance + Copy> Distance for WithNormal<T> {
    /// Delegates to the wrapped point; the normal does not contribute.
    open spec fn distance_spec(self, other: Self) -> Fixed {
        self.point.distance_spec(other.point)
    }

    fn distance(self, other: Self) -> (r: Fixed)
        ensures
            r == self.distance_spec(other),
    {
        self.point.distance(other.point)
    }

    proof fn lemma_distance_nonneg(self, other: Self) {
        self.point.lemma_distance_nonneg(other.point);
    }

    proof fn lemma_distance_sym(self, other: Self) {
        self.point.lemma_distance_sym(other.point);
    }
}

impl<T: Mix + Copy> Mix for WithNormal<T> {
    /// Interpolation composes fieldwise, the normal included.
    open spec fn mix_spec(self, other: Self, t: Ratio) -> Self {
        WithNormal {
            point: self.point.mix_spec(other.point, t),
            normal: self.normal.mix_spec(other.normal, t),
        }
    }

    fn mix(self, other: Self, t: Ratio) -> (r: Self)
        ensures
            r == self.mix_spec(other, t),
    {
        WithNormal {
            point: self.point.mix(other.point, t),
            normal: self.normal.mix(other.normal, t),
        }
    }

    proof fn lemma_mix_bounds(self, other: Self, t: Ratio) {
        self.point.lemma_mix_bounds(other.point, t);
        self.normal.lemma_mix_bounds(other.normal, t);
    }
}

/// The annotation of one neighbour window.
pub open spec fn normal_triple<T: Normal + Copy>(t: WithNeighbours<T>) -> WithNormal<T> {
    WithNormal {
        point: t.1,
        normal: match (t.0, t.2) {
            (Option::Some(p1), Option::Some(p3)) => T::normal_between_spec(p1, p3),
            (Option::None, Option::Some(p3)) => T::normal_between_spec(t.1, p3),
            (Option::Some(p1), Option::None) => T::normal_between_spec(p1, t.1),
            (Option::None, Option::None) => Vector::zero_spec(),
        },
    }
}

/// A whole sequence annotated with chord normals.
pub open spec fn normals_seq<T: Normal + Copy>(s: Seq<T>) -> Seq<WithNormal<T>> {
    neighbours_seq(s).map_values(|t: WithNeighbours<T>| normal_triple(t))
}

pub struct WithNormalIterator<I: PathSource> {
    iterator: WithNeighboursIterator<I>,
}

impl<I: PathSource> WithNormalIterator<I> where I::Item: Normal + Copy {
    pub fn new(iterator: I) -> (r: WithNormalIterator<I>)
        ensures
            r.remaining() == normals_seq(iterator.remaining()),
    {
        WithNormalIterator { iterator: WithNeighboursIterator::new(iterator) }
    }
}

impl<I: PathSource> PathSource for WithNormalIterator<I> where I::Item: Normal + Copy {
    type Item = WithNormal<I::Item>;

    closed spec fn remaining(&self) -> Seq<WithNormal<I::Item>> {
        self.iterator.remaining().map_values(|t: WithNeighbours<I::Item>| normal_triple(t))
    }

    fn next(&mut self) -> (r: Option<WithNormal<I::Item>>)
        ensures
            old(self).remaining().len() == 0 ==> r is None && final(self).remaining() == old(
                self).remaining(),
            old(self).remaining().len() > 0 ==> r == Some(old(self).remaining()[0]) && final(
                self).remaining() == old(self).remaining().drop_first(),
    {
        match self.iterator.next() {
            Option::None => {
                proof {
                    assert(self.remaining() =~= old(self).remaining());
                }
                Option::None
            },
            Option::Some(t) => {
                proof {
                    assert(old(self).remaining()[0] == normal_triple(t));
                    assert(self.remaining() =~= old(self).remaining().drop_first());
                }
                Option::Some(
                    WithNormal {
                        point: t.1,
                        normal: match (t.0, t.2) {
                            (Option::Some(p1), Option::Some(p3)) => Normal::normal_between(p1, p3),
                            (Option::None, Option::Some(p3)) => Normal::normal_between(t.1, p3),
                            (Option::Some(p1), Option::None) => Normal::normal_between(p1, t.1),
                            (Option::None, Option::None) => Vector::zero(),
                        },
                    },
                )
            },
        }
    }
}

} // verus!
