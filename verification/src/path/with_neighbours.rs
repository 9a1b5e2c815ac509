//! The neighbour-window transform.
//!
//! Yields one `(previous, current, next)` triple per input element.  This is
//! the one place the pipeline looks ahead, so every windowed operator built
//! on it stays single-pass with O(1) extra state.

use vstd::prelude::*;
use crate::path::source::PathSource;

verus! {

pub type WithNeighbours<T> = (Option<T>, T, Option<T>);

/// The triples still to come, given the buffered previous element, the
/// buffered current element, and the elements after it.
pub open spec fn triples_rem<T>(prev: Option<T>, cur: Option<T>, rest: Seq<T>) -> Seq<
    WithNeighbours<T>,
>
    decreases rest.len(),
{
    match cur {
        Option::None => Seq::empty(),
        Option::Some(c) => {
            if rest.len() == 0 {
                seq![(prev, c, Option::<T>::None)]
            } else {
                seq![(prev, c, Option::Some(rest[0]))] + triples_rem(
                    Option::Some(c),
                    Option::Some(rest[0]),
                    rest.drop_first(),
                )
            }
        },
    }
}

/// The neighbour windows of a whole sequence.
pub open spec fn neighbours_seq<T>(s: Seq<T>) -> Seq<WithNeighbours<T>> {
    if s.len() == 0 {
        Seq::empty()
    } else {
        triples_rem(Option::None, Option::Some(s[0]), s.drop_first())
    }
}

pub struct WithNeighboursIterator<I: PathSource> {
    iterator: I,
    state: (Option<I::Item>, Option<I::Item>),
}

impl<I: PathSource> WithNeighboursIterator<I> where I::Item: Copy {
    pub fn new(iterator: I) -> (r: WithNeighboursIterator<I>)
        ensures
            r.remaining() == neighbours_seq(iterator.remaining()),
    {
        let mut inner = iterator;
        let first: Option<I::Item> = inner.next();
        WithNeighboursIterator { state: (Option::None, first), iterator: inner }
    }
}

impl<I: PathSource> PathSource for WithNeighboursIterator<I> where I::Item: Copy {
    type Item = WithNeighbours<I::Item>;

    closed spec fn remaining(&self) -> Seq<WithNeighbours<I::Item>> {
        triples_rem(self.state.0, self.state.1, self.iterator.remaining())
    }

    fn next(&mut self) -> (r: Option<WithNeighbours<I::Item>>)
        ensures
            old(self).remaining().len() == 0 ==> r is None && final(self).remaining() == old(
                self).remaining(),
            old(self).remaining().len() > 0 ==> r == Some(old(self).remaining()[0]) && final(
                self).remaining() == old(self).remaining().drop_first(),
    {
        let cur: I::Item = match self.state.1 {
            Option::Some(c) => c,
            Option::None => {
                return Option::None;
            },
        };
        let prev: Option<I::Item> = self.state.0;
        let nxt: Option<I::Item> = self.iterator.next();
        self.state = (Option::Some(cur), nxt);
        proof {
            if old(self).remaining().len() > 0 {
                assert(self.remaining() =~= old(self).remaining().drop_first());
            }
        }
        Option::Some((prev, cur, nxt))
    }
}

/// The shape of a run of neighbour windows: one triple per element, with
/// each current element flanked by its true neighbours.
pub proof fn lemma_triples_shape<T>(prev: Option<T>, c: T, rest: Seq<T>)
    ensures
        ({
            let r = triples_rem(prev, Option::Some(c), rest);
            &&& r.len() == 1 + rest.len()
            &&& r[0].0 == prev
            &&& forall|i: int|
                0 <= i < r.len() ==> (#[trigger] r[i]).1 == if i == 0 {
                    c
                } else {
                    rest[i - 1]
                }
            &&& forall|i: int|
                1 <= i < r.len() ==> (#[trigger] r[i]).0 == Option::Some(
                    if i == 1 {
                        c
                    } else {
                        rest[i - 2]
                    },
                )
            &&& forall|i: int|
                0 <= i < r.len() ==> (#[trigger] r[i]).2 == if i < rest.len() {
                    Option::Some(rest[i])
                } else {
                    Option::<T>::None
                }
        }),
    decreases rest.len(),
{
    let r = triples_rem(prev, Option::Some(c), rest);
    if rest.len() > 0 {
        lemma_triples_shape(Option::Some(c), rest[0], rest.drop_first());
        let tail = triples_rem(Option::Some(c), Option::Some(rest[0]), rest.drop_first());
        assert(forall|i: int| 1 <= i < r.len() ==> #[trigger] r[i] == tail[i - 1]);
    }
}

/// Law: the neighbour-window transform yields exactly one triple per input
/// element, in order; only the first triple lacks a previous neighbour and
/// only the last lacks a next one.
pub proof fn lemma_neighbour_window_shape<T>(s: Seq<T>)
    ensures
        neighbours_seq(s).len() == s.len(),
        forall|i: int| 0 <= i < s.len() ==> (#[trigger] neighbours_seq(s)[i]).1 == s[i],
        forall|i: int|
            0 <= i < s.len() ==> (((#[trigger] neighbours_seq(s)[i]).0 is None) <==> i == 0),
        forall|i: int|
            0 <= i < s.len() ==> (((#[trigger] neighbours_seq(s)[i]).2 is None) <==> i == s.len()
                - 1),
        forall|i: int|
            1 <= i < s.len() ==> (#[trigger] neighbours_seq(s)[i]).0 == Option::Some(s[i - 1]),
        forall|i: int|
            0 <= i < s.len() - 1 ==> (#[trigger] neighbours_seq(s)[i]).2 == Option::Some(s[i + 1]),
{
    if s.len() > 0 {
        lemma_triples_shape(Option::None, s[0], s.drop_first());
    }
}

} // verus!
