//! The arc-length offset transform.

use vstd::prelude::*;
use crate::geometry::distance::Distance;
use crate::geometry::scalar::Fixed;
use crate::path::source::PathSource;

verus! {

/// A point annotated with the cumulative arc length traveled since the
/// first point of its sequence.
#[derive(Clone, Copy, Debug)]
pub struct WithOffset<T> {
    pub point: T,
    pub offset: Fixed,
}

impl<T: Distance> Distance for WithOffset<T> {
    /// Delegates to the wrapped point; the annotation does not contribute.
    open spec fn distance_spec(self, other: Self) -> Fixed {
        self.point.distance_spec(other.point)
    }

    fn distance(self, other: Self) -> (r: Fixed)
        ensures
            r == self.distance_spec(other),
    {
        self.point.distance(other.point)
    }

    proof fn lemma_distance_nonneg(self, other: Self) {
        self.point.lemma_distance_nonneg(other.point);
    }

    proof fn lemma_distance_sym(self, other: Self) {
        self.point.lemma_distance_sym(other.point);
    }
}

/// The annotated elements still to come, given the one emitted last.
pub open spec fn offsets_rem<T: Distance>(prev: Option<WithOffset<T>>, s: Seq<T>) -> Seq<
    WithOffset<T>,
>
    decreases s.len(),
{
    if s.len() == 0 {
        Seq::empty()
    } else {
        let w = WithOffset {
            point: s[0],
            offset: match prev {
                Option::None => Fixed { raw: 0 },
                Option::Some(pw) => pw.offset.add_spec(pw.point.distance_spec(s[0])),
            },
        };
        seq![w] + offsets_rem(Option::Some(w), s.drop_first())
    }
}

/// A whole sequence annotated with cumulative arc length: the first offset
/// is zero, and each later one adds the distance from its predecessor.
pub open spec fn offsets_seq<T: Distance>(s: Seq<T>) -> Seq<WithOffset<T>> {
    offsets_rem(Option::None, s)
}

pub struct WithOffsetIterator<I: PathSource> {
    iterator: I,
    previous: Option<WithOffset<I::Item>>,
}

impl<I: PathSource> WithOffsetIterator<I> where I::Item: Distance + Copy {
    pub fn new(iterator: I) -> (r: WithOffsetIterator<I>)
        ensures
            r.remaining() == offsets_seq(iterator.remaining()),
    {
        WithOffsetIterator { iterator, previous: Option::None }
    }
}

impl<I: PathSource> PathSource for WithOffsetIterator<I> where I::Item: Distance + Copy {
    type Item = WithOffset<I::Item>;

    closed spec fn remaining(&self) -> Seq<WithOffset<I::Item>> {
        offsets_rem(self.previous, self.iterator.remaining())
    }

    fn next(&mut self) -> (r: Option<WithOffset<I::Item>>)
        ensures
            old(self).remaining().len() == 0 ==> r is None && final(self).remaining() == old(
                self).remaining(),
            old(self).remaining().len() > 0 ==> r == Some(old(self).remaining()[0]) && final(
                self).remaining() == old(self).remaining().drop_first(),
    {
        let point: I::Item = match self.iterator.next() {
            Option::Some(v) => v,
            Option::None => {
                return Option::None;
            },
        };
        let w: WithOffset<I::Item> = match self.previous {
            Option::None => WithOffset { point, offset: Fixed { raw: 0 } },
            Option::Some(prev) => WithOffset {
                point,
                offset: prev.offset.add(prev.point.distance(point)),
            },
        };
        self.previous = Option::Some(w);
        proof {
            assert(old(self).remaining().len() > 0);
            assert(old(self).remaining()[0] == w);
            assert(self.remaining() =~= old(self).remaining().drop_first());
        }
        Option::Some(w)
    }
}

/// Law: annotating with offsets keeps every point and gives the sequence of
/// cumulative distances: zero first, then each previous offset plus the
/// distance from the previous point, never decreasing.
pub proof fn lemma_offsets_shape<T: Distance>(s: Seq<T>)
    ensures
        offsets_seq(s).len() == s.len(),
        forall|i: int| 0 <= i < s.len() ==> (#[trigger] offsets_seq(s)[i]).point == s[i],
        s.len() > 0 ==> offsets_seq(s)[0].offset == (Fixed { raw: 0 }),
        forall|i: int|
            1 <= i < s.len() ==> (#[trigger] offsets_seq(s)[i]).offset == offsets_seq(s)[i
                - 1].offset.add_spec(s[i - 1].distance_spec(s[i])),
        forall|i: int|
            1 <= i < s.len() ==> (#[trigger] offsets_seq(s)[i]).offset.raw >= offsets_seq(s)[i
                - 1].offset.raw,
{
    lemma_offsets_rem_shape(Option::None, s);
}

/// Offsets never decrease along the annotated sequence, between any two
/// positions.
pub proof fn lemma_offsets_sorted<T: Distance>(s: Seq<T>, i: int, j: int)
    requires
        0 <= i <= j < s.len(),
    ensures
        offsets_seq(s)[i].offset.raw <= offsets_seq(s)[j].offset.raw,
    decreases j - i,
{
    lemma_offsets_shape(s);
    if i < j {
        lemma_offsets_sorted(s, i, j - 1);
    }
}

proof fn lemma_offsets_rem_shape<T: Distance>(prev: Option<WithOffset<T>>, s: Seq<T>)
    ensures
        ({
            let r = offsets_rem(prev, s);
            &&& r.len() == s.len()
            &&& forall|i: int| 0 <= i < r.len() ==> (#[trigger] r[i]).point == s[i]
            &&& s.len() > 0 ==> r[0].offset == match prev {
                Option::None => Fixed { raw: 0 },
                Option::Some(pw) => pw.offset.add_spec(pw.point.distance_spec(s[0])),
            }
            &&& forall|i: int|
                1 <= i < r.len() ==> (#[trigger] r[i]).offset == r[i - 1].offset.add_spec(
                    s[i - 1].distance_spec(s[i]),
                )
            &&& forall|i: int| 1 <= i < r.len() ==> (#[trigger] r[i]).offset.raw >= r[i
                - 1].offset.raw
            &&& prev is Some && s.len() > 0 ==> r[0].offset.raw >= prev->0.offset.raw
        }),
    decreases s.len(),
{
    if s.len() > 0 {
        let w = offsets_rem(prev, s)[0];
        lemma_offsets_rem_shape(Option::Some(w), s.drop_first());
        match prev {
            Option::Some(pw) => {
                pw.point.lemma_distance_nonneg(s[0]);
            },
            Option::None => {},
        }
        if s.len() > 1 {
            w.point.lemma_distance_nonneg(s[1]);
        }
    }
}

} // verus!
