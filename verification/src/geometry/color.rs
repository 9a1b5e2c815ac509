//! Premultiplied linear RGBA color over exact rationals.
//!
//! Channels are exact rational scalars, so premultiplying by alpha and
//! un-premultiplying again cancel exactly; gamma decoding, which has no
//! exact finite representation, is left to the unverified layer around the
//! library.

use vstd::prelude::*;
use crate::geometry::scalar::Ratio;

verus! {

pub open spec fn ratio_wf(r: Ratio) -> bool {
    r.den > 0
}

/// Value equality of two rationals, by cross multiplication.
pub open spec fn ratio_eq(a: Ratio, b: Ratio) -> bool {
    a.num * b.den == b.num * a.den
}

/// The exact product of two rationals with small components.
pub open spec fn ratio_mul(a: Ratio, b: Ratio) -> Ratio {
    Ratio { num: (a.num * b.num) as i64, den: (a.den * b.den) as i64 }
}

/// The exact quotient of two rationals with small components; the divisor
/// must be positive.
pub open spec fn ratio_div(a: Ratio, b: Ratio) -> Ratio {
    Ratio { num: (a.num * b.den) as i64, den: (a.den * b.num) as i64 }
}

pub open spec fn ratio_zero() -> Ratio {
    Ratio { num: 0, den: 1 }
}

pub open spec fn ratio_one() -> Ratio {
    Ratio { num: 1, den: 1 }
}

/// Channel inputs small enough that premultiplying stays exact.
pub open spec fn ratio_small(r: Ratio) -> bool {
    &&& -0x8000 <= r.num <= 0x8000
    &&& 0 < r.den <= 0x8000
}

/// Channels of a premultiplied color: one exact product of small inputs.
pub open spec fn ratio_mid(r: Ratio) -> bool {
    &&& -0x4000_0000 <= r.num <= 0x4000_0000
    &&& 0 < r.den <= 0x4000_0000
}

/// Exact linear interpolation of two rationals by a rational fraction:
/// `a + (b - a) * t`, over the common denominator, with the boundary
/// fractions exact.
pub open spec fn ratio_mix(a: Ratio, b: Ratio, t: Ratio) -> Ratio {
    if t.num == 0 {
        a
    } else if t.num == t.den {
        b
    } else {
        Ratio {
            num: (a.num * b.den * (t.den - t.num) + b.num * a.den * t.num) as i64,
            den: (a.den * b.den * t.den) as i64,
        }
    }
}

/// A premultiplied linear RGBA color.
#[derive(Clone, Copy, Debug)]
pub struct Color {
    pub r: Ratio,
    pub g: Ratio,
    pub b: Ratio,
    pub a: Ratio,
}

/// Channelwise exact interpolation, alpha included.
pub open spec fn color_mix_spec(c1: Color, c2: Color, t: Ratio) -> Color {
    Color {
        r: ratio_mix(c1.r, c2.r, t),
        g: ratio_mix(c1.g, c2.g, t),
        b: ratio_mix(c1.b, c2.b, t),
        a: ratio_mix(c1.a, c2.a, t),
    }
}

/// A fraction within `[0, 1]` whose denominator is small enough for
/// channel interpolation to stay exact in machine words.
pub open spec fn fraction_small(t: Ratio) -> bool {
    0 <= t.num <= t.den <= 0x8000
}

/// What the premultiplying constructor builds.
pub open spec fn color_new_spec(r: Ratio, g: Ratio, b: Ratio, a: Ratio) -> Color {
    Color { r: ratio_mul(r, a), g: ratio_mul(g, a), b: ratio_mul(b, a), a }
}

/// Whether the stored alpha is bounded away from zero: above 1/10000.
pub open spec fn alpha_usable(a: Ratio) -> bool {
    a.num * 10000 > a.den
}

/// What un-premultiplying recovers: each channel divided by alpha, at full
/// alpha; a color with near-zero alpha collapses to opaque black.
pub open spec fn color_opaque_spec(c: Color) -> Color {
    if alpha_usable(c.a) {
        Color {
            r: ratio_div(c.r, c.a),
            g: ratio_div(c.g, c.a),
            b: ratio_div(c.b, c.a),
            a: ratio_one(),
        }
    } else {
        Color { r: ratio_zero(), g: ratio_zero(), b: ratio_zero(), a: ratio_one() }
    }
}

impl Color {
    /// Builds a premultiplied color from direct linear channels.
    pub fn new(r: Ratio, g: Ratio, b: Ratio, a: Ratio) -> (c: Color)
        requires
            ratio_small(r),
            ratio_small(g),
            ratio_small(b),
            ratio_small(a),
        ensures
            c == color_new_spec(r, g, b, a),
            ratio_mid(c.r) && ratio_mid(c.g) && ratio_mid(c.b) && ratio_mid(c.a),
            ratio_wf(c.r) && ratio_wf(c.g) && ratio_wf(c.b) && ratio_wf(c.a),
    {
        proof {
            lemma_small_product(r, a);
            lemma_small_product(g, a);
            lemma_small_product(b, a);
            lemma_small_product(a, a);
        }
        Color {
            r: Ratio { num: r.num * a.num, den: r.den * a.den },
            g: Ratio { num: g.num * a.num, den: g.den * a.den },
            b: Ratio { num: b.num * a.num, den: b.den * a.den },
            a,
        }
    }

    /// Un-premultiplies, guarded against a near-zero alpha, which falls
    /// back to opaque black.
    pub fn opaque(&self) -> (c: Color)
        requires
            ratio_mid(self.r),
            ratio_mid(self.g),
            ratio_mid(self.b),
            ratio_mid(self.a),
        ensures
            c == color_opaque_spec(*self),
    {
        proof {
            lemma_mid_product(self.r, self.a);
            lemma_mid_product(self.g, self.a);
            lemma_mid_product(self.b, self.a);
        }
        if self.a.num * 10000 > self.a.den {
            Color {
                r: Ratio { num: self.r.num * self.a.den, den: self.r.den * self.a.num },
                g: Ratio { num: self.g.num * self.a.den, den: self.g.den * self.a.num },
                b: Ratio { num: self.b.num * self.a.den, den: self.b.den * self.a.num },
                a: Ratio { num: 1, den: 1 },
            }
        } else {
            Color {
                r: Ratio { num: 0, den: 1 },
                g: Ratio { num: 0, den: 1 },
                b: Ratio { num: 0, den: 1 },
                a: Ratio { num: 1, den: 1 },
            }
        }
    }

    /// Interpolates toward another color, channel by channel and exactly,
    /// the boundary fractions included.  The component bounds keep every
    /// cross product in machine range.
    pub fn mix(&self, other: &Color, t: Ratio) -> (c: Color)
        requires
            ratio_small(self.r),
            ratio_small(self.g),
            ratio_small(self.b),
            ratio_small(self.a),
            ratio_small(other.r),
            ratio_small(other.g),
            ratio_small(other.b),
            ratio_small(other.a),
            fraction_small(t),
        ensures
            c == color_mix_spec(*self, *other, t),
            ratio_wf(c.r) && ratio_wf(c.g) && ratio_wf(c.b) && ratio_wf(c.a),
    {
        if t.num == 0 {
            *self
        } else if t.num == t.den {
            *other
        } else {
            Color {
                r: mix_channel(self.r, other.r, t),
                g: mix_channel(self.g, other.g, t),
                b: mix_channel(self.b, other.b, t),
                a: mix_channel(self.a, other.a, t),
            }
        }
    }
}

/// One interpolated channel, for a fraction strictly inside `(0, 1)`.
fn mix_channel(a: Ratio, b: Ratio, t: Ratio) -> (r: Ratio)
    requires
        ratio_small(a),
        ratio_small(b),
        fraction_small(t),
        0 < t.num < t.den,
    ensures
        r == ratio_mix(a, b, t),
        ratio_wf(r),
{
    proof {
        lemma_mix_channel_bounds(a, b, t);
    }
    Ratio {
        num: a.num * b.den * (t.den - t.num) + b.num * a.den * t.num,
        den: a.den * b.den * t.den,
    }
}

/// The terms of one channel interpolation stay within machine range.
proof fn lemma_mix_channel_bounds(a: Ratio, b: Ratio, t: Ratio)
    requires
        ratio_small(a),
        ratio_small(b),
        fraction_small(t),
        t.den >= 1,
    ensures
        -0x4000_0000 <= a.num * b.den <= 0x4000_0000,
        -0x4000_0000 <= b.num * a.den <= 0x4000_0000,
        0 < a.den * b.den <= 0x4000_0000,
        -0x2000_0000_0000 <= a.num * b.den * (t.den - t.num) <= 0x2000_0000_0000,
        -0x2000_0000_0000 <= b.num * a.den * t.num <= 0x2000_0000_0000,
        0 < a.den * b.den * t.den <= 0x2000_0000_0000,
{
    assert((-0x4000_0000 <= a.num * b.den <= 0x4000_0000) && (-0x4000_0000 <= b.num * a.den
        <= 0x4000_0000) && (0 < a.den * b.den <= 0x4000_0000) && (-0x2000_0000_0000 <= a.num
        * b.den * (t.den - t.num) <= 0x2000_0000_0000) && (-0x2000_0000_0000 <= b.num * a.den
        * t.num <= 0x2000_0000_0000) && (0 < a.den * b.den * t.den <= 0x2000_0000_0000))
        by (nonlinear_arith)
        requires
            ratio_small(a),
            ratio_small(b),
            fraction_small(t),
            t.den >= 1,
    ;
}

/// Law: `opaque(Color::new(r, g, b, a))` recovers `(r, g, b, 1)` exactly,
/// channel by channel as rational values, whenever the alpha is bounded
/// away from zero.
pub proof fn lemma_color_round_trip(r: Ratio, g: Ratio, b: Ratio, a: Ratio)
    requires
        ratio_small(r),
        ratio_small(g),
        ratio_small(b),
        ratio_small(a),
        alpha_usable(a),
    ensures
        ratio_eq(color_opaque_spec(color_new_spec(r, g, b, a)).r, r),
        ratio_eq(color_opaque_spec(color_new_spec(r, g, b, a)).g, g),
        ratio_eq(color_opaque_spec(color_new_spec(r, g, b, a)).b, b),
        ratio_eq(color_opaque_spec(color_new_spec(r, g, b, a)).a, ratio_one()),
{
    lemma_ratio_cancel(r, a);
    lemma_ratio_cancel(g, a);
    lemma_ratio_cancel(b, a);
}

/// Products of small rational components stay well within machine range.
proof fn lemma_small_product(x: Ratio, a: Ratio)
    requires
        ratio_small(x),
        ratio_small(a),
    ensures
        -0x4000_0000 <= x.num * a.num <= 0x4000_0000,
        0 < x.den * a.den <= 0x4000_0000,
        -0x4000_0000 <= x.num * a.den <= 0x4000_0000,
{
    assert(-0x4000_0000 <= x.num * a.num <= 0x4000_0000 && 0 < x.den * a.den <= 0x4000_0000
        && -0x4000_0000 <= x.num * a.den <= 0x4000_0000) by (nonlinear_arith)
        requires
            ratio_small(x),
            ratio_small(a),
    ;
}

/// Products of one mid-sized and one mid-sized rational component stay
/// within machine range.
proof fn lemma_mid_product(x: Ratio, a: Ratio)
    requires
        ratio_mid(x),
        ratio_mid(a),
    ensures
        -0x1000_0000_0000_0000 <= x.num * a.den <= 0x1000_0000_0000_0000,
        a.num > 0 ==> 0 < x.den * a.num <= 0x1000_0000_0000_0000,
{
    assert((-0x1000_0000_0000_0000 <= x.num * a.den <= 0x1000_0000_0000_0000) && (a.num > 0 ==> 0
        < x.den * a.num <= 0x1000_0000_0000_0000)) by (nonlinear_arith)
        requires
            ratio_mid(x),
            ratio_mid(a),
    ;
}

/// Multiplying by `a` and dividing by `a` again cancel exactly when the
/// products stay within machine range.
proof fn lemma_ratio_cancel(x: Ratio, a: Ratio)
    requires
        ratio_small(x),
        ratio_small(a),
        alpha_usable(a),
    ensures
        ratio_eq(ratio_div(ratio_mul(x, a), a), x),
{
    assert(a.num >= 1);
    let m = ratio_mul(x, a);
    assert(-0x4000_0000 <= x.num * a.num <= 0x4000_0000 && 0 < x.den * a.den <= 0x4000_0000)
        by (nonlinear_arith)
        requires
            ratio_small(x),
            ratio_small(a),
    ;
    assert(m.num == x.num * a.num && m.den == x.den * a.den);
    let d = ratio_div(m, a);
    assert(-0x4000_0000_0000 <= m.num * a.den <= 0x4000_0000_0000 && 0 < m.den * a.num
        <= 0x4000_0000_0000) by (nonlinear_arith)
        requires
            -0x4000_0000 <= m.num <= 0x4000_0000,
            0 < m.den <= 0x4000_0000,
            0 < a.den <= 0x8000,
            0 < a.num <= 0x8000,
    ;
    assert(d.num == m.num * a.den && d.den == m.den * a.num);
    assert(d.num * x.den == x.num * d.den) by (nonlinear_arith)
        requires
            d.num == (x.num * a.num) * a.den,
            d.den == (x.den * a.den) * a.num,
    ;
}

} // verus!
