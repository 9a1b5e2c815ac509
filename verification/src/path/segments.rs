//! Consecutive pairs of a point sequence.

use vstd::prelude::*;
use crate::path::source::PathSource;

verus! {

/// The pairs still to come, given the buffered left endpoint.
pub open spec fn segments_rem<T>(prev: Option<T>, s: Seq<T>) -> Seq<(T, T)>
    decreases s.len(), (if prev is None { 1int } else { 0int }),
{
    if s.len() == 0 {
        Seq::empty()
    } else {
        match prev {
            Option::None => segments_rem(Option::Some(s[0]), s.drop_first()),
            Option::Some(p) => seq![(p, s[0])] + segments_rem(Option::Some(s[0]), s.drop_first()),
        }
    }
}

/// The consecutive pairs of a whole sequence.
pub open spec fn segments_seq<T>(s: Seq<T>) -> Seq<(T, T)> {
    segments_rem(Option::None, s)
}

/// Turns a source of points into a source of consecutive pairs: an input of
/// `n` elements yields `n - 1` overlapping segments.
pub struct SegmentsIterator<I: PathSource> {
    iterator: I,
    previous: Option<I::Item>,
}

impl<I: PathSource> SegmentsIterator<I> where I::Item: Copy {
    pub fn new(iterator: I) -> (r: SegmentsIterator<I>)
        ensures
            r.remaining() == segments_seq(iterator.remaining()),
    {
        SegmentsIterator { iterator, previous: Option::None }
    }
}

impl<I: PathSource> PathSource for SegmentsIterator<I> where I::Item: Copy {
    type Item = (I::Item, I::Item);

    closed spec fn remaining(&self) -> Seq<(I::Item, I::Item)> {
        segments_rem(self.previous, self.iterator.remaining())
    }

    fn next(&mut self) -> (r: Option<(I::Item, I::Item)>)
        ensures
            old(self).remaining().len() == 0 ==> r is None && final(self).remaining() == old(
                self).remaining(),
            old(self).remaining().len() > 0 ==> r == Some(old(self).remaining()[0]) && final(
                self).remaining() == old(self).remaining().drop_first(),
    {
        let p: I::Item = match self.previous {
            Option::Some(p) => p,
            Option::None => {
                match self.iterator.next() {
                    Option::Some(v) => v,
                    Option::None => {
                        return Option::None;
                    },
                }
            },
        };
        proof {
            let up = self.iterator.remaining();
            if old(self).previous is None {
                assert(old(self).iterator.remaining()[0] == p);
                assert(old(self).iterator.remaining().drop_first() =~= up);
            }
            assert(old(self).remaining() == segments_rem(Option::Some(p), up));
        }
        match self.iterator.next() {
            Option::Some(n) => {
                self.previous = Option::Some(n);
                proof {
                    assert(old(self).remaining().len() > 0);
                    assert(old(self).remaining()[0] == (p, n));
                    assert(self.remaining() =~= old(self).remaining().drop_first());
                }
                Option::Some((p, n))
            },
            Option::None => {
                self.previous = Option::Some(p);
                proof {
                    assert(old(self).remaining().len() == 0);
                    assert(self.remaining() =~= old(self).remaining());
                }
                Option::None
            },
        }
    }
}

/// Law: a sequence of `n` elements has `max(n - 1, 0)` segments, and the
/// `i`th segment joins the `i`th element to the next one.
pub proof fn lemma_segments_shape<T>(s: Seq<T>)
    ensures
        s.len() == 0 ==> segments_seq(s).len() == 0,
        s.len() > 0 ==> segments_seq(s).len() == s.len() - 1,
        forall|i: int|
            0 <= i < s.len() - 1 ==> (#[trigger] segments_seq(s)[i]) == (s[i], s[i + 1]),
{
    lemma_segments_rem_shape::<T>(Option::None, s);
}

proof fn lemma_segments_rem_shape<T>(prev: Option<T>, s: Seq<T>)
    ensures
        ({
            let r = segments_rem(prev, s);
            &&& prev is None ==> r.len() == (if s.len() == 0 {
                0int
            } else {
                s.len() - 1
            })
            &&& prev is Some ==> r.len() == s.len()
            &&& prev is None ==> forall|i: int|
                0 <= i < r.len() ==> (#[trigger] r[i]) == (s[i], s[i + 1])
            &&& prev is Some ==> forall|i: int|
                0 <= i < r.len() ==> (#[trigger] r[i]) == (
                    if i == 0 {
                        prev->0
                    } else {
                        s[i - 1]
                    },
                    s[i],
                )
        }),
    decreases s.len(), (if prev is None { 1int } else { 0int }),
{
    if s.len() > 0 {
        lemma_segments_rem_shape(Option::Some(s[0]), s.drop_first());
    }
}

} // verus!
