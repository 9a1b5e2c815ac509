//! The pull-based protocol every pipeline stage speaks.

use vstd::prelude::*;

verus! {

/// A lazy, single-pass source of path elements.
///
/// `remaining()` is the whole sequence of elements the source will still
/// yield; `next` pops its head.  Every stage of the pipeline both consumes
/// and implements this trait, so stages compose without materializing
/// intermediate buffers.
pub trait PathSource: Sized {
    type Item;

    spec fn remaining(&self) -> Seq<Self::Item>;

    fn next(&mut self) -> (r: Option<Self::Item>)
        ensures
            old(self).remaining().len() == 0 ==> r is None && final(self).remaining() == old(
                self).remaining(),
            old(self).remaining().len() > 0 ==> r == Some(old(self).remaining()[0]) && final(
                self).remaining() == old(self).remaining().drop_first(),
    ;
}

/// A source that yields the elements of a vector, in order.
pub struct PointsSource<T> {
    points: Vec<T>,
    position: usize,
}

impl<T: Copy> PointsSource<T> {
    pub fn new(points: Vec<T>) -> (r: PointsSource<T>)
        ensures
            r.remaining() == points@,
    {
        let r = PointsSource { points, position: 0 };
        proof {
            assert(r.remaining() =~= r.points@);
        }
        r
    }
}

impl<T: Copy> PathSource for PointsSource<T> {
    type Item = T;

    closed spec fn remaining(&self) -> Seq<T> {
        if self.position as int <= self.points@.len() {
            self.points@.skip(self.position as int)
        } else {
            Seq::empty()
        }
    }

    fn next(&mut self) -> (r: Option<T>)
        ensures
            old(self).remaining().len() == 0 ==> r is None && final(self).remaining() == old(
                self).remaining(),
            old(self).remaining().len() > 0 ==> r == Some(old(self).remaining()[0]) && final(
                self).remaining() == old(self).remaining().drop_first(),
    {
        if self.position < self.points.len() {
            let v: T = self.points[self.position];
            self.position = self.position + 1;
            proof {
                assert(old(self).remaining()[0] == old(self).points@[old(self).position as int]);
                assert(self.remaining() =~= old(self).remaining().drop_first());
            }
            Some(v)
        } else {
            None
        }
    }
}

/// Drains a source into a vector: the eager view of a lazy pipeline.
pub fn collect_points<I: PathSource>(source: I) -> (r: Vec<I::Item>)
    ensures
        r@ == source.remaining(),
{
    let mut it = source;
    let ghost whole: Seq<I::Item> = it.remaining();
    let mut out: Vec<I::Item> = Vec::new();
    loop
        invariant
            out@ + it.remaining() == whole,
        ensures
            out@ == whole,
        decreases it.remaining().len(),
    {
        match it.next() {
            Some(v) => {
                out.push(v);
                proof {
                    assert(out@ + it.remaining() =~= whole);
                }
            },
            None => {
                proof {
                    assert(out@ =~= whole);
                }
                break ;
            },
        }
    }
    out
}

} // verus!
