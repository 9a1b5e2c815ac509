//! One pass of 3-tap box smoothing.
//!
//! An interior point becomes the average of itself and the midpoint of the
//! chord through its neighbours; endpoints and isolated points pass through
//! unchanged.  The pipeline applies this transform twice: a second pass
//! widens the kernel toward a near-Gaussian shape while each pass stays
//! single-pass and allocation-free.

use vstd::prelude::*;
use crate::geometry::mix::Mix;
use crate::geometry::scalar::{sat, spec_abs, tdiv, Fixed, Ratio};
use crate::geometry::touch::Touch;
use crate::path::source::PathSource;
use crate::path::with_neighbours::{neighbours_seq, triples_rem, WithNeighbours, WithNeighboursIterator};

verus! {

/// The fraction one half.
pub open spec fn half() -> Ratio {
    Ratio { num: 1, den: 2 }
}

/// How one neighbour window is smoothed: `mix(mix(prev, next, 1/2),
/// current, 1/2)` for interior points, the point itself otherwise.
pub open spec fn smooth_triple<T: Mix>(t: WithNeighbours<T>) -> T {
    match (t.0, t.2) {
        (Option::Some(p1), Option::Some(p3)) => p1.mix_spec(p3, half()).mix_spec(t.1, half()),
        _ => t.1,
    }
}

/// A whole sequence smoothed once.
pub open spec fn smooth_seq<T: Mix>(s: Seq<T>) -> Seq<T> {
    neighbours_seq(s).map_values(|t: WithNeighbours<T>| smooth_triple(t))
}

/// The midpoint of two scalars an equal step away from `b` lands on `b`
/// exactly, and averaging `b` with itself is the identity.
proof fn lemma_fixed_midpoint(a: Fixed, b: Fixed, c: Fixed)
    requires
        b.raw - a.raw == c.raw - b.raw,
        -0x1000_0000_0000_0000 <= a.raw <= 0x1000_0000_0000_0000,
        -0x1000_0000_0000_0000 <= b.raw <= 0x1000_0000_0000_0000,
        -0x1000_0000_0000_0000 <= c.raw <= 0x1000_0000_0000_0000,
    ensures
        a.mix_spec(c, half()).mix_spec(b, half()) == b,
{
    let h = half();
    let d = b.raw - a.raw;
    assert(sat(c.raw - a.raw) == 2 * d);
    assert(tdiv(2 * d * 1, 2) == d) by {
        assert(2 * d * 1 == 2 * d) by (nonlinear_arith);
        if d >= 0 {
            assert(spec_abs(2 * d) == 2 * d);
            vstd::arithmetic::div_mod::lemma_div_multiples_vanish(d, 2);
        } else {
            assert(spec_abs(2 * d) == 2 * (-d));
            vstd::arithmetic::div_mod::lemma_div_multiples_vanish(-d, 2);
        }
    }
    let mid = a.mix_spec(c, h);
    assert(mid.raw == b.raw);
    assert(tdiv(0int * 1, 2) == 0) by {
        vstd::arithmetic::div_mod::lemma_div_of0(2);
    }
    assert(mid.mix_spec(b, h).raw == b.raw);
}

/// Law: one smoothing pass maps three colinear, equally spaced points to
/// themselves: the endpoints pass through, and the interior point's
/// position is exactly preserved.  The coordinate bound keeps the chord
/// arithmetic out of saturation.
pub proof fn lemma_smooth_straight_line(p: Touch, c: Touch, n: Touch)
    requires
        c.point.x.raw - p.point.x.raw == n.point.x.raw - c.point.x.raw,
        c.point.y.raw - p.point.y.raw == n.point.y.raw - c.point.y.raw,
        spec_abs(p.point.x.raw as int) <= 0x1000_0000_0000_0000,
        spec_abs(p.point.y.raw as int) <= 0x1000_0000_0000_0000,
        spec_abs(c.point.x.raw as int) <= 0x1000_0000_0000_0000,
        spec_abs(c.point.y.raw as int) <= 0x1000_0000_0000_0000,
        spec_abs(n.point.x.raw as int) <= 0x1000_0000_0000_0000,
        spec_abs(n.point.y.raw as int) <= 0x1000_0000_0000_0000,
    ensures
        smooth_seq(seq![p, c, n]).len() == 3,
        smooth_seq(seq![p, c, n])[0] == p,
        smooth_seq(seq![p, c, n])[2] == n,
        smooth_seq(seq![p, c, n])[1].point == c.point,
{
    let s = seq![p, c, n];
    assert(s.drop_first() =~= seq![c, n]);
    assert(seq![c, n].drop_first() =~= seq![n]);
    assert(seq![n].drop_first() =~= Seq::<Touch>::empty());
    let t2 = triples_rem(Option::Some(c), Option::Some(n), Seq::<Touch>::empty());
    let t1 = triples_rem(Option::Some(p), Option::Some(c), seq![n]);
    let t0 = triples_rem(Option::<Touch>::None, Option::Some(p), seq![c, n]);
    assert(t2 =~= seq![(Option::Some(c), n, Option::<Touch>::None)]);
    assert(t1 =~= seq![(Option::Some(p), c, Option::Some(n))] + t2);
    assert(t0 =~= seq![(Option::<Touch>::None, p, Option::Some(c))] + t1);
    assert(neighbours_seq(s) == t0);
    assert(smooth_seq(s).len() == 3);
    assert(smooth_seq(s)[0] == smooth_triple((Option::<Touch>::None, p, Option::Some(c))));
    assert(smooth_seq(s)[1] == smooth_triple((Option::Some(p), c, Option::Some(n))));
    assert(smooth_seq(s)[2] == smooth_triple((Option::Some(c), n, Option::<Touch>::None)));
    let h = half();
    lemma_fixed_midpoint(p.point.x, c.point.x, n.point.x);
    lemma_fixed_midpoint(p.point.y, c.point.y, n.point.y);
    assert(smooth_seq(s)[1].point == p.point.mix_spec(n.point, h).mix_spec(c.point, h));
}

pub struct SmoothIterator<I: PathSource> {
    iterator: WithNeighboursIterator<I>,
}

impl<I: PathSource> SmoothIterator<I> where I::Item: Mix + Copy {
    pub fn new(iterator: I) -> (r: SmoothIterator<I>)
        ensures
            r.remaining() == smooth_seq(iterator.remaining()),
    {
        SmoothIterator { iterator: WithNeighboursIterator::new(iterator) }
    }
}

impl<I: PathSource> PathSource for SmoothIterator<I> where I::Item: Mix + Copy {
    type Item = I::Item;

    closed spec fn remaining(&self) -> Seq<I::Item> {
        self.iterator.remaining().map_values(|t: WithNeighbours<I::Item>| smooth_triple(t))
    }

    fn next(&mut self) -> (r: Option<I::Item>)
        ensures
            old(self).remaining().len() == 0 ==> r is None && final(self).remaining() == old(
                self).remaining(),
            old(self).remaining().len() > 0 ==> r == Some(old(self).remaining()[0]) && final(
                self).remaining() == old(self).remaining().drop_first(),
    {
        let half_t: Ratio = Ratio { num: 1, den: 2 };
        match self.iterator.next() {
            Option::None => {
                proof {
                    assert(self.remaining() =~= old(self).remaining());
                }
                Option::None
            },
            Option::Some(t) => {
                proof {
                    assert(old(self).remaining()[0] == smooth_triple(t));
                    assert(self.remaining() =~= old(self).remaining().drop_first());
                }
                Option::Some(
                    match t {
                        (Option::Some(p1), p2, Option::Some(p3)) => p1.mix(p3, half_t).mix(
                            p2,
                            half_t,
                        ),
                        (_, p2, _) => p2,
                    },
                )
            },
        }
    }
}

} // verus!
