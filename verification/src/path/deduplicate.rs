//! The deduplicating transform.
//!
//! Collapses runs of identical consecutive elements, so that no zero-length
//! segment reaches the operators downstream.

use vstd::prelude::*;
use crate::geometry::scalar::Fixed;
use crate::geometry::touch::Touch;
use crate::geometry::vector::Vector;
use crate::path::source::PathSource;

verus! {

/// Exact value equality, decided by executable code.
pub trait ValueEq: Sized {
    fn value_eq(&self, other: &Self) -> (r: bool)
        ensures
            r <==> *self == *other,
    ;
}

impl ValueEq for Fixed {
    fn value_eq(&self, other: &Fixed) -> (r: bool)
        ensures
            r <==> *self == *other,
    {
        self.raw == other.raw
    }
}

impl ValueEq for Vector {
    fn value_eq(&self, other: &Vector) -> (r: bool)
        ensures
            r <==> *self == *other,
    {
        self.x.raw == other.x.raw && self.y.raw == other.y.raw
    }
}

impl ValueEq for Touch {
    fn value_eq(&self, other: &Touch) -> (r: bool)
        ensures
            r <==> *self == *other,
    {
        self.point.value_eq(&other.point) && self.pressure.raw == other.pressure.raw
    }
}

/// What deduplication still yields, given the last emitted element.
pub open spec fn dedup_rem<T>(prev: Option<T>, s: Seq<T>) -> Seq<T>
    decreases s.len(),
{
    if s.len() == 0 {
        Seq::empty()
    } else if prev == Option::Some(s[0]) {
        dedup_rem(prev, s.drop_first())
    } else {
        seq![s[0]] + dedup_rem(Option::Some(s[0]), s.drop_first())
    }
}

/// The deduplication of a whole sequence: the first element of every run.
pub open spec fn dedup_seq<T>(s: Seq<T>) -> Seq<T> {
    dedup_rem(Option::None, s)
}

/// Drops every element equal to the one emitted just before it.
pub struct DeduplicateIterator<I: PathSource> {
    iterator: I,
    previous: Option<I::Item>,
}

impl<I: PathSource> DeduplicateIterator<I> where I::Item: Copy + ValueEq {
    pub fn new(iterator: I) -> (r: DeduplicateIterator<I>)
        ensures
            r.remaining() == dedup_seq(iterator.remaining()),
    {
        DeduplicateIterator { iterator, previous: Option::None }
    }
}

impl<I: PathSource> PathSource for DeduplicateIterator<I> where I::Item: Copy + ValueEq {
    type Item = I::Item;

    closed spec fn remaining(&self) -> Seq<I::Item> {
        dedup_rem(self.previous, self.iterator.remaining())
    }

    fn next(&mut self) -> (r: Option<I::Item>)
        ensures
            old(self).remaining().len() == 0 ==> r is None && final(self).remaining() == old(
                self).remaining(),
            old(self).remaining().len() > 0 ==> r == Some(old(self).remaining()[0]) && final(
                self).remaining() == old(self).remaining().drop_first(),
    {
        proof {
            assert(old(self).remaining() == dedup_rem(
                old(self).previous,
                old(self).iterator.remaining(),
            ));
        }
        let ghost pre: Seq<I::Item> = self.iterator.remaining();
        let mut result: Option<I::Item> = self.iterator.next();
        proof {
            assert(opt_cons(result, self.iterator.remaining()) =~= pre);
        }
        loop
            invariant
                self.previous == old(self).previous,
                dedup_rem(self.previous, opt_cons(result, self.iterator.remaining())) == old(
                    self).remaining(),
                result is None ==> self.iterator.remaining().len() == 0,
            ensures
                self.previous == old(self).previous,
                dedup_rem(self.previous, opt_cons(result, self.iterator.remaining())) == old(
                    self).remaining(),
                result is None ==> self.iterator.remaining().len() == 0,
                !(result is Some && self.previous == result),
            decreases opt_cons(result, self.iterator.remaining()).len(),
        {
            let repeat: bool = match (&result, &self.previous) {
                (Option::Some(a), Option::Some(b)) => a.value_eq(b),
                _ => false,
            };
            if !repeat {
                break ;
            }
            let ghost mid: Seq<I::Item> = self.iterator.remaining();
            proof {
                let whole = opt_cons(result, mid);
                assert(whole.len() > 0 && whole[0] == result->0);
                assert(whole.drop_first() =~= mid);
                assert(dedup_rem(self.previous, whole) == dedup_rem(self.previous, mid));
            }
            result = self.iterator.next();
            proof {
                assert(opt_cons(result, self.iterator.remaining()) =~= mid);
            }
        }
        self.previous = result;
        proof {
            let up = self.iterator.remaining();
            match result {
                Option::Some(v) => {
                    let whole = opt_cons(result, up);
                    assert(whole.len() > 0 && whole[0] == v);
                    assert(whole.drop_first() =~= up);
                    assert(old(self).remaining() == seq![v] + dedup_rem(Option::Some(v), up));
                    assert(old(self).remaining()[0] == v);
                    assert(self.remaining() =~= old(self).remaining().drop_first());
                },
                Option::None => {
                    assert(old(self).remaining().len() == 0);
                    assert(self.remaining() =~= old(self).remaining());
                },
            }
        }
        result
    }
}

/// A possibly buffered head element in front of the elements after it.
pub open spec fn opt_cons<T>(head: Option<T>, s: Seq<T>) -> Seq<T> {
    match head {
        Option::None => s,
        Option::Some(v) => seq![v] + s,
    }
}

/// Law: no two consecutive deduplicated elements are equal.
pub proof fn lemma_dedup_no_consecutive<T>(s: Seq<T>)
    ensures
        forall|i: int|
            0 <= i < dedup_seq(s).len() - 1 ==> (#[trigger] dedup_seq(s)[i]) != dedup_seq(s)[i + 1],
{
    lemma_dedup_rem_no_consecutive(Option::None, s);
}

proof fn lemma_dedup_rem_no_consecutive<T>(prev: Option<T>, s: Seq<T>)
    ensures
        ({
            let r = dedup_rem(prev, s);
            &&& forall|i: int| 0 <= i < r.len() - 1 ==> (#[trigger] r[i]) != r[i + 1]
            &&& r.len() > 0 ==> Option::Some(r[0]) != prev
        }),
    decreases s.len(),
{
    if s.len() > 0 {
        lemma_dedup_rem_no_consecutive(prev, s.drop_first());
        lemma_dedup_rem_no_consecutive(Option::Some(s[0]), s.drop_first());
    }
}

/// Whether `a` is a subsequence of `b`: all of `a`'s elements appear in `b`,
/// in order.
pub open spec fn subsequence_of<T>(a: Seq<T>, b: Seq<T>) -> bool
    decreases a.len() + b.len(),
{
    if a.len() == 0 {
        true
    } else if b.len() == 0 {
        false
    } else if a[0] == b[0] {
        subsequence_of(a.drop_first(), b.drop_first())
    } else {
        subsequence_of(a, b.drop_first())
    }
}

/// Law: deduplication only removes elements: its output is a subsequence of
/// its input, and on a non-empty input it keeps the input's first element.
pub proof fn lemma_dedup_subsequence<T>(s: Seq<T>)
    ensures
        subsequence_of(dedup_seq(s), s),
        s.len() > 0 ==> dedup_seq(s).len() > 0 && dedup_seq(s)[0] == s[0],
{
    lemma_dedup_rem_subsequence(Option::None, s);
}

proof fn lemma_dedup_rem_subsequence<T>(prev: Option<T>, s: Seq<T>)
    ensures
        subsequence_of(dedup_rem(prev, s), s),
        s.len() > 0 && prev != Option::Some(s[0]) ==> dedup_rem(prev, s).len() > 0 && dedup_rem(
            prev,
            s,
        )[0] == s[0],
    decreases s.len(),
{
    if s.len() > 0 {
        if prev == Option::Some(s[0]) {
            lemma_dedup_rem_subsequence(prev, s.drop_first());
            lemma_subsequence_skip(dedup_rem(prev, s.drop_first()), s);
        } else {
            lemma_dedup_rem_subsequence(Option::Some(s[0]), s.drop_first());
            let r = dedup_rem(prev, s);
            assert(r[0] == s[0]);
            assert(r.drop_first() =~= dedup_rem(Option::Some(s[0]), s.drop_first()));
        }
    }
}

/// A subsequence of the tail of `b` is a subsequence of `b`.
proof fn lemma_subsequence_skip<T>(a: Seq<T>, b: Seq<T>)
    requires
        b.len() > 0,
        subsequence_of(a, b.drop_first()),
    ensures
        subsequence_of(a, b),
    decreases a.len() + b.len(),
{
    if a.len() > 0 && a[0] == b[0] {
        lemma_subsequence_tail(a, b.drop_first());
    }
}

/// Dropping the head of `a` preserves being a subsequence.
proof fn lemma_subsequence_tail<T>(a: Seq<T>, c: Seq<T>)
    requires
        a.len() > 0,
        subsequence_of(a, c),
    ensures
        subsequence_of(a.drop_first(), c),
    decreases a.len() + c.len(),
{
    if a[0] == c[0] {
        lemma_subsequence_skip(a.drop_first(), c);
    } else {
        lemma_subsequence_tail(a, c.drop_first());
        lemma_subsequence_skip(a.drop_first(), c);
    }
}

} // verus!
