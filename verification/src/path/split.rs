//! The resample-by-distance transform (arc-length split).
//!
//! Yields points evenly spaced `step` apart along the polyline's arc
//! length: a running target offset advances by `step` per output, segments
//! wholly behind the target are skipped, an endpoint at or before the
//! target is emitted exactly, and otherwise the target is linearly
//! interpolated into its segment.  The final input point is always emitted,
//! even when the last step falls short.
//!
//! The operator assumes a pre-deduplicated input, as the pipeline provides:
//! a zero-length segment (coincident consecutive points) carries no arc
//! length to interpolate into.  It still defends against one directly
//! rather than divide by zero: a zero-length segment ahead of the target
//! has its endpoint emitted whole.  Offsets are integers here, so a target
//! strictly inside a segment of positive length always interpolates with a
//! positive denominator.

use vstd::prelude::*;
use crate::geometry::distance::Distance;
use crate::geometry::mix::Mix;
use crate::geometry::scalar::{sat, Fixed, Ratio};
use crate::path::source::PathSource;
use crate::path::with_neighbours::{neighbours_seq, triples_rem, WithNeighbours, WithNeighboursIterator};
use crate::path::with_offset::{lemma_offsets_shape, lemma_offsets_sorted, offsets_seq, WithOffset, WithOffsetIterator};

verus! {

/// A neighbour window over arc-length-annotated points.
pub type Segment<T> = WithNeighbours<WithOffset<T>>;

pub open spec fn seg_flag<T>(seg: Option<Segment<T>>) -> int {
    if seg is Some {
        1int
    } else {
        0int
    }
}

pub open spec fn seg_gap<T>(seg: Option<Segment<T>>, target: Fixed) -> int {
    match seg {
        Option::Some(s) => {
            if s.1.offset.raw > target.raw {
                s.1.offset.raw - target.raw
            } else {
                0int
            }
        },
        Option::None => 0int,
    }
}

/// What the split still yields, given the buffered segment, the running
/// target offset, the step, and the neighbour windows still to come.
pub open spec fn split_rem<T: Mix + Distance + Copy>(
    seg: Option<Segment<T>>,
    target: Fixed,
    step: Fixed,
    ts: Seq<Segment<T>>,
) -> Seq<T>
    decreases ts.len(), seg_flag(seg), seg_gap(seg, target),
{
    if step.raw <= 0 {
        Seq::empty()
    } else {
        match seg {
            Option::None => {
                if ts.len() == 0 {
                    Seq::empty()
                } else {
                    split_rem(Option::Some(ts[0]), target, step, ts.drop_first())
                }
            },
            Option::Some(s) => {
                if s.1.offset.raw <= target.raw && s.2 is Some {
                    split_rem(Option::<Segment<T>>::None, target, step, ts)
                } else {
                    match s.0 {
                        Option::None => {
                            if s.2 is None {
                                seq![s.1.point] + split_rem(
                                    Option::<Segment<T>>::None,
                                    target.add_spec(step),
                                    step,
                                    ts,
                                )
                            } else {
                                Seq::empty()
                            }
                        },
                        Option::Some(p1) => {
                            if s.1.offset.raw <= target.raw {
                                seq![s.1.point] + split_rem(
                                    Option::<Segment<T>>::None,
                                    target.add_spec(step),
                                    step,
                                    ts,
                                )
                            } else if s.1.offset.sub_spec(p1.offset).raw == 0 {
                                seq![s.1.point] + split_rem(
                                    Option::<Segment<T>>::None,
                                    target.add_spec(step),
                                    step,
                                    ts,
                                )
                            } else {
                                let frac = Ratio {
                                    num: target.sub_spec(p1.offset).raw,
                                    den: s.1.offset.sub_spec(p1.offset).raw,
                                };
                                seq![p1.point.mix_spec(s.1.point, frac)] + split_rem(
                                    Option::Some(s),
                                    target.add_spec(step),
                                    step,
                                    ts,
                                )
                            }
                        },
                    }
                }
            },
        }
    }
}

/// A whole sequence resampled at even arc-length intervals.
pub open spec fn split_seq<T: Mix + Distance + Copy>(s: Seq<T>, step: Fixed) -> Seq<T> {
    split_rem(
        Option::<Segment<T>>::None,
        Fixed { raw: 0 },
        step,
        neighbours_seq(offsets_seq(s)),
    )
}

/// The buffered segment a resampling run holds while walking a chain whose
/// current element is `cur` with `rest` after it.
spec fn chain_seg<T>(prev: WithOffset<T>, cur: WithOffset<T>, rest: Seq<WithOffset<T>>) -> Segment<T> {
    (
        Option::Some(prev),
        cur,
        if rest.len() == 0 {
            Option::<WithOffset<T>>::None
        } else {
            Option::Some(rest[0])
        },
    )
}

/// The neighbour windows still ahead of `chain_seg(prev, cur, rest)`.
spec fn chain_ts<T>(cur: WithOffset<T>, rest: Seq<WithOffset<T>>) -> Seq<Segment<T>> {
    if rest.len() == 0 {
        Seq::empty()
    } else {
        triples_rem(Option::Some(cur), Option::Some(rest[0]), rest.drop_first())
    }
}

/// Offsets rise strictly along `cur` and everything after it.
spec fn strict_chain<T>(cur: WithOffset<T>, rest: Seq<WithOffset<T>>) -> bool {
    forall|i: int|
        0 <= i < rest.len() ==> (if i == 0 {
            cur
        } else {
            rest[i - 1]
        }).offset.raw < (#[trigger] rest[i]).offset.raw
}

/// The point of the last element of `cur` followed by `rest`.
spec fn chain_last<T>(cur: WithOffset<T>, rest: Seq<WithOffset<T>>) -> T {
    if rest.len() == 0 {
        cur.point
    } else {
        rest.last().point
    }
}

/// Resampling a buffered segment of a strictly increasing chain always
/// yields at least one more point, and the last point it yields is the
/// chain's final input point.
proof fn lemma_split_rem_last<T: Mix + Distance + Copy>(
    prev: WithOffset<T>,
    cur: WithOffset<T>,
    rest: Seq<WithOffset<T>>,
    target: Fixed,
    step: Fixed,
)
    requires
        step.raw > 0,
        prev.offset.raw < cur.offset.raw,
        strict_chain(cur, rest),
    ensures
        ({
            let out = split_rem(
                Option::Some(chain_seg(prev, cur, rest)),
                target,
                step,
                chain_ts(cur, rest),
            );
            out.len() >= 1 && out.last() == chain_last(cur, rest)
        }),
    decreases rest.len(), seg_gap(Option::Some(chain_seg(prev, cur, rest)), target),
{
    let seg = chain_seg(prev, cur, rest);
    let ts = chain_ts(cur, rest);
    let out = split_rem(Option::Some(seg), target, step, ts);
    if cur.offset.raw <= target.raw && seg.2 is Some {
        // The segment is wholly behind the target: it is skipped and the
        // next chain element becomes the buffered segment.
        let cur2 = rest[0];
        let rest2 = rest.drop_first();
        assert(ts[0] == chain_seg(cur, cur2, rest2));
        assert(ts.drop_first() =~= chain_ts(cur2, rest2));
        assert(forall|i: int| 0 <= i < rest2.len() ==> #[trigger] rest2[i] == rest[i + 1]);
        assert(strict_chain(cur2, rest2));
        lemma_split_rem_last(cur, cur2, rest2, target, step);
        assert(split_rem(Option::Some(seg), target, step, ts) == split_rem(
            Option::<Segment<T>>::None,
            target,
            step,
            ts,
        ));
        assert(split_rem(Option::<Segment<T>>::None, target, step, ts) == split_rem(
            Option::Some(ts[0]),
            target,
            step,
            ts.drop_first(),
        ));
        assert(chain_last(cur2, rest2) == chain_last(cur, rest));
    } else if cur.offset.raw <= target.raw {
        // No next element: the final input point is emitted exactly.
        assert(rest.len() == 0);
        assert(out =~= seq![cur.point] + split_rem(
            Option::<Segment<T>>::None,
            target.add_spec(step),
            step,
            ts,
        ));
        assert(out.last() == cur.point);
    } else {
        // The target falls short of the segment's end: an interpolated
        // point is emitted and the target advances.
        assert(cur.offset.sub_spec(prev.offset).raw > 0);
        let target2 = target.add_spec(step);
        assert(seg_gap(Option::Some(seg), target2) < seg_gap(Option::Some(seg), target));
        lemma_split_rem_last(prev, cur, rest, target2, step);
        let tail = split_rem(Option::Some(seg), target2, step, ts);
        let frac = Ratio {
            num: target.sub_spec(prev.offset).raw,
            den: cur.offset.sub_spec(prev.offset).raw,
        };
        assert(out =~= seq![prev.point.mix_spec(cur.point, frac)] + tail);
        assert(out.last() == tail.last());
    }
}

/// Law: resampling a non-empty path at a positive step keeps both
/// endpoints: the first output is exactly the first input point and the
/// last output is exactly the last input point.  The hypothesis asks for
/// strictly increasing arc-length offsets, which holds whenever no two
/// consecutive points coincide positionally and the total length stays in
/// range; a pair of touches at the same position with different pressures
/// is resampled from the second one on, so the first output could differ.
#[verifier::rlimit(50)]
pub proof fn lemma_split_endpoints<T: Mix + Distance + Copy>(s: Seq<T>, step: Fixed)
    requires
        step.raw > 0,
        s.len() > 0,
        forall|i: int|
            1 <= i < s.len() ==> (#[trigger] offsets_seq(s)[i]).offset.raw > offsets_seq(
                s,
            )[i - 1].offset.raw,
    ensures
        split_seq(s, step).len() >= 1,
        split_seq(s, step)[0] == s[0],
        split_seq(s, step).last() == s[s.len() - 1],
{
    let ws = offsets_seq(s);
    lemma_offsets_shape(s);
    let ts_full = neighbours_seq(ws);
    let out = split_seq(s, step);
    let zero = Fixed { raw: 0 };
    if s.len() == 1 {
        let t0 = (Option::<WithOffset<T>>::None, ws[0], Option::<WithOffset<T>>::None);
        assert(ws.drop_first() =~= Seq::<WithOffset<T>>::empty());
        assert(ts_full =~= seq![t0]);
        assert(ts_full.drop_first() =~= Seq::<Segment<T>>::empty());
        assert(out == split_rem(Option::Some(t0), zero, step, ts_full.drop_first()));
        assert(split_rem(Option::Some(t0), zero, step, Seq::<Segment<T>>::empty()) =~= seq![
            ws[0].point,
        ] + split_rem(
            Option::<Segment<T>>::None,
            zero.add_spec(step),
            step,
            Seq::<Segment<T>>::empty(),
        ));
        assert(out =~= seq![ws[0].point]);
        assert(out[0] == s[0] && out.last() == s[0]);
    } else {
        let w0 = ws[0];
        let w1 = ws[1];
        let rest1 = ws.skip(2);
        assert(ws.drop_first().drop_first() =~= rest1);
        assert(ws.drop_first()[0] == w1);
        assert(ts_full == triples_rem(
            Option::<WithOffset<T>>::None,
            Option::Some(w0),
            ws.drop_first(),
        ));
        assert(ts_full =~= seq![
            (Option::<WithOffset<T>>::None, w0, Option::Some(w1)),
        ] + triples_rem(Option::Some(w0), Option::Some(w1), rest1));
        let ts1 = triples_rem(Option::Some(w0), Option::Some(w1), rest1);
        assert(ts1 =~= seq![chain_seg(w0, w1, rest1)] + chain_ts(w1, rest1));
        // The zero-offset head is skipped, and the first emission
        // interpolates at fraction zero: exactly the first input point.
        assert(w0.offset == zero && w1.offset.raw > 0);
        assert(ts_full[0] == (Option::<WithOffset<T>>::None, w0, Option::Some(w1)));
        assert(ts_full.drop_first() =~= ts1);
        assert(out == split_rem(Option::Some(ts_full[0]), zero, step, ts_full.drop_first()));
        assert(out == split_rem(
            Option::Some((Option::<WithOffset<T>>::None, w0, Option::Some(w1))),
            zero,
            step,
            ts1,
        ));
        assert(out == split_rem(Option::<Segment<T>>::None, zero, step, ts1));
        assert(ts1[0] == chain_seg(w0, w1, rest1));
        assert(ts1.drop_first() =~= chain_ts(w1, rest1));
        assert(out == split_rem(
            Option::Some(chain_seg(w0, w1, rest1)),
            zero,
            step,
            chain_ts(w1, rest1),
        ));
        let denom = w1.offset.sub_spec(w0.offset);
        assert(denom.raw > 0);
        let frac = Ratio { num: zero.sub_spec(w0.offset).raw, den: denom.raw };
        assert(frac.num == 0);
        let head = w0.point.mix_spec(w1.point, frac);
        assert(head == w0.point) by {
            w0.point.lemma_mix_bounds(w1.point, frac);
        }
        assert(strict_chain(w1, rest1)) by {
            assert(forall|i: int|
                0 <= i < rest1.len() ==> #[trigger] rest1[i] == ws[i + 2] && (if i == 0 {
                    w1
                } else {
                    rest1[i - 1]
                }) == ws[i + 1]);
        }
        lemma_split_rem_last(w0, w1, rest1, zero.add_spec(step), step);
        let tail = split_rem(
            Option::Some(chain_seg(w0, w1, rest1)),
            zero.add_spec(step),
            step,
            chain_ts(w1, rest1),
        );
        assert(out =~= seq![head] + tail);
        assert(out[0] == s[0]);
        assert(chain_last(w1, rest1) == ws.last().point) by {
            if rest1.len() > 0 {
                assert(rest1.last() == ws.last());
            }
        }
        assert(out.last() == tail.last());
    }
}

/// Law: the endpoint guarantee stated over the input itself.  Whenever
/// every consecutive pair of input points lies a positive distance apart
/// (in particular there are no consecutive duplicates) and the total arc
/// length stays below the saturation bound, resampling at any positive
/// step keeps both endpoints exactly: the first output is the first input
/// point, and the final point is emitted as a short last step rather than
/// overshot or dropped.
pub proof fn lemma_split_endpoints_of_distances<T: Mix + Distance + Copy>(s: Seq<T>, step: Fixed)
    requires
        step.raw > 0,
        s.len() > 0,
        forall|i: int| 1 <= i < s.len() ==> (#[trigger] s[i - 1].distance_spec(s[i])).raw > 0,
        offsets_seq(s).last().offset.raw < i64::MAX,
    ensures
        split_seq(s, step).len() >= 1,
        split_seq(s, step)[0] == s[0],
        split_seq(s, step).last() == s[s.len() - 1],
{
    let ws = offsets_seq(s);
    lemma_offsets_shape(s);
    assert forall|i: int| 1 <= i < s.len() implies (#[trigger] ws[i]).offset.raw > ws[i
        - 1].offset.raw by {
        lemma_offsets_sorted(s, i - 1, s.len() - 1);
        assert(ws[i - 1].offset.raw < i64::MAX);
        let d = s[i - 1].distance_spec(s[i]);
        assert(ws[i].offset == ws[i - 1].offset.add_spec(d));
        assert(ws[i].offset.raw == sat(ws[i - 1].offset.raw + d.raw));
    }
    lemma_split_endpoints(s, step);
}

pub struct SplitIterator<I: PathSource> where I::Item: Mix + Distance + Copy {
    iterator: WithNeighboursIterator<WithOffsetIterator<I>>,
    segment: Option<Segment<I::Item>>,
    offset: Fixed,
    step: Fixed,
}

impl<I: PathSource> SplitIterator<I> where I::Item: Mix + Distance + Copy {
    pub fn new(iterator: I, step: Fixed) -> (r: SplitIterator<I>)
        requires
            step.raw > 0,
        ensures
            r.remaining() == split_seq(iterator.remaining(), step),
    {
        SplitIterator {
            iterator: WithNeighboursIterator::new(WithOffsetIterator::new(iterator)),
            segment: Option::None,
            offset: Fixed { raw: 0 },
            step,
        }
    }
}

impl<I: PathSource> PathSource for SplitIterator<I> where I::Item: Mix + Distance + Copy {
    type Item = I::Item;

    closed spec fn remaining(&self) -> Seq<I::Item> {
        split_rem(self.segment, self.offset, self.step, self.iterator.remaining())
    }

    fn next(&mut self) -> (r: Option<I::Item>)
        ensures
            old(self).remaining().len() == 0 ==> r is None && final(self).remaining() == old(
                self).remaining(),
            old(self).remaining().len() > 0 ==> r == Some(old(self).remaining()[0]) && final(
                self).remaining() == old(self).remaining().drop_first(),
    {
        if self.step.raw <= 0 {
            proof {
                assert(self.remaining() =~= old(self).remaining());
            }
            return Option::None;
        }
        let target: Fixed = self.offset;
        let mut segment: Segment<I::Item> = match self.segment {
            Option::Some(s) => s,
            Option::None => {
                match self.iterator.next() {
                    Option::Some(s) => s,
                    Option::None => {
                        proof {
                            assert(self.remaining() =~= old(self).remaining());
                        }
                        return Option::None;
                    },
                }
            },
        };
        loop
            invariant
                self.step == old(self).step,
                self.offset == old(self).offset,
                self.segment == old(self).segment,
                self.step.raw > 0,
                target == self.offset,
                split_rem(Option::Some(segment), target, self.step, self.iterator.remaining())
                    == old(self).remaining(),
                match old(self).segment {
                    Option::Some(s0) => s0 == segment || (s0.1.offset.raw <= target.raw
                        && s0.2 is Some),
                    Option::None => true,
                },
            ensures
                self.step == old(self).step,
                self.offset == old(self).offset,
                self.segment == old(self).segment,
                target == self.offset,
                split_rem(Option::Some(segment), target, self.step, self.iterator.remaining())
                    == old(self).remaining(),
                !(segment.1.offset.raw <= target.raw && segment.2 is Some),
            decreases self.iterator.remaining().len(),
        {
            let skip_now: bool = segment.1.offset.raw <= target.raw && segment.2.is_some();
            if !skip_now {
                break ;
            }
            let ghost pre: Seq<Segment<I::Item>> = self.iterator.remaining();
            proof {
                assert(split_rem(Option::Some(segment), target, self.step, pre) == split_rem(
                    Option::<Segment<I::Item>>::None,
                    target,
                    self.step,
                    pre,
                ));
            }
            segment = match self.iterator.next() {
                Option::Some(s) => s,
                Option::None => {
                    proof {
                        assert(pre.len() == 0);
                        assert(split_rem(
                            Option::<Segment<I::Item>>::None,
                            target,
                            self.step,
                            pre,
                        ) =~= Seq::<I::Item>::empty());
                        assert(old(self).remaining().len() == 0);
                        match old(self).segment {
                            Option::None => {
                                assert(self.remaining() =~= old(self).remaining());
                            },
                            Option::Some(s0) => {
                                if s0 == segment {
                                    assert(s0.1.offset.raw <= target.raw && s0.2 is Some);
                                }
                                assert(split_rem(
                                    Option::Some(s0),
                                    target,
                                    self.step,
                                    self.iterator.remaining(),
                                ) == split_rem(
                                    Option::<Segment<I::Item>>::None,
                                    target,
                                    self.step,
                                    self.iterator.remaining(),
                                ));
                                assert(self.remaining() =~= old(self).remaining());
                            },
                        }
                    }
                    return Option::None;
                },
            };
            proof {
                assert(pre.len() > 0);
                assert(segment == pre[0] && self.iterator.remaining() == pre.drop_first());
                assert(split_rem(Option::<Segment<I::Item>>::None, target, self.step, pre)
                    == split_rem(
                    Option::Some(segment),
                    target,
                    self.step,
                    self.iterator.remaining(),
                ));
            }
        }
        match segment {
            (Option::None, point, Option::None) => {
                self.segment = Option::None;
                self.offset = target.add(self.step);
                proof {
                    assert(old(self).remaining()[0] == point.point);
                    assert(self.remaining() =~= old(self).remaining().drop_first());
                }
                Option::Some(point.point)
            },
            (Option::Some(p1), p2, _) => {
                if p2.offset.raw <= target.raw {
                    self.segment = Option::None;
                    self.offset = target.add(self.step);
                    proof {
                        assert(old(self).remaining()[0] == p2.point);
                        assert(self.remaining() =~= old(self).remaining().drop_first());
                    }
                    Option::Some(p2.point)
                } else {
                    let denom: Fixed = p2.offset.sub(p1.offset);
                    if denom.raw == 0 {
                        self.segment = Option::None;
                        self.offset = target.add(self.step);
                        proof {
                            assert(old(self).remaining()[0] == p2.point);
                            assert(self.remaining() =~= old(self).remaining().drop_first());
                        }
                        Option::Some(p2.point)
                    } else {
                        self.segment = Option::Some(segment);
                        self.offset = target.add(self.step);
                        let frac: Ratio = Ratio { num: target.sub(p1.offset).raw, den: denom.raw };
                        proof {
                            assert(old(self).remaining()[0] == p1.point.mix_spec(p2.point, frac));
                            assert(self.remaining() =~= old(self).remaining().drop_first());
                        }
                        Option::Some(p1.point.mix(p2.point, frac))
                    }
                }
            },
            (Option::None, _, Option::Some(_)) => {
                self.segment = Option::Some(segment);
                proof {
                    assert(old(self).remaining() =~= Seq::<I::Item>::empty());
                    assert(self.remaining() =~= old(self).remaining());
                }
                Option::None
            },
        }
    }
}

} // verus!
