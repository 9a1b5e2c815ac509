//! The input boundary: an ordered list of pointer samples plus the pixel
//! size that controls the first resampling step.

use vstd::prelude::*;
use crate::geometry::scalar::Fixed;
use crate::geometry::touch::Touch;
use crate::geometry::vector::Vector;

verus! {

#[derive(Clone, Debug)]
pub struct TouchList {
    pixel_size: Fixed,
    points: Vec<Touch>,
}

impl TouchList {
    pub closed spec fn points_spec(&self) -> Seq<Touch> {
        self.points@
    }

    pub closed spec fn pixel_size_spec(&self) -> Fixed {
        self.pixel_size
    }

    pub fn new(pixel_size: Fixed) -> (r: TouchList)
        ensures
            r.points_spec() == Seq::<Touch>::empty(),
            r.pixel_size_spec() == pixel_size,
    {
        let r = TouchList { pixel_size, points: Vec::new() };
        proof {
            assert(r.points_spec() =~= Seq::<Touch>::empty());
        }
        r
    }

    pub fn with_capacity(pixel_size: Fixed, capacity: usize) -> (r: TouchList)
        ensures
            r.points_spec() == Seq::<Touch>::empty(),
            r.pixel_size_spec() == pixel_size,
    {
        let r = TouchList { pixel_size, points: Vec::with_capacity(capacity) };
        proof {
            assert(r.points_spec() =~= Seq::<Touch>::empty());
        }
        r
    }

    pub fn len(&self) -> (r: usize)
        ensures
            r == self.points_spec().len(),
    {
        self.points.len()
    }

    pub fn push(&mut self, x: Fixed, y: Fixed, pressure: Fixed)
        ensures
            final(self).points_spec() == old(self).points_spec().push(
                Touch { point: Vector { x, y }, pressure },
            ),
            final(self).pixel_size_spec() == old(self).pixel_size_spec(),
    {
        self.points.push(Touch::new(x, y, pressure));
    }

    pub fn pixel_size(&self) -> (r: Fixed)
        ensures
            r == self.pixel_size_spec(),
    {
        self.pixel_size
    }

    /// The samples as a plain vector, in order.
    pub fn points_vec(&self) -> (r: Vec<Touch>)
        ensures
            r@ == self.points_spec(),
    {
        let mut out: Vec<Touch> = Vec::new();
        let mut i: usize = 0;
        while i < self.points.len()
            invariant
                i <= self.points.len(),
                out@ =~= self.points@.take(i as int),
            decreases self.points.len() - i,
        {
            out.push(self.points[i]);
            i = i + 1;
        }
        proof {
            assert(out@ =~= self.points_spec());
        }
        out
    }
}

} // verus!
