//! Bezier-style curves over any interpolable type.

use vstd::prelude::*;
use crate::geometry::mix::Mix;
use crate::geometry::scalar::Ratio;

verus! {

/// A curve evaluated by a fraction in `[0, one]`.
pub trait Curve<T: Mix + Copy>: Sized {
    spec fn value_at_spec(&self, t: Ratio) -> T;

    fn value_at(&self, t: Ratio) -> (r: T)
        ensures
            r == self.value_at_spec(t),
    ;
}

#[derive(Clone, Copy, Debug)]
pub struct Curve0<T: Mix + Copy>(pub T);

#[derive(Clone, Copy, Debug)]
pub struct Curve1<T: Mix + Copy>(pub T, pub T);

#[derive(Clone, Copy, Debug)]
pub struct Curve2<T: Mix + Copy>(pub T, pub T, pub T);

#[derive(Clone, Copy, Debug)]
pub struct Curve3<T: Mix + Copy>(pub T, pub T, pub T, pub T);

impl<T: Mix + Copy> Curve<T> for Curve0<T> {
    /// A constant curve.
    open spec fn value_at_spec(&self, t: Ratio) -> T {
        self.0
    }

    fn value_at(&self, t: Ratio) -> (r: T)
        ensures
            r == self.value_at_spec(t),
    {
        self.0
    }
}

impl<T: Mix + Copy> Curve<T> for Curve1<T> {
    /// A straight segment.
    open spec fn value_at_spec(&self, t: Ratio) -> T {
        self.0.mix_spec(self.1, t)
    }

    /// The boundary fractions short-circuit, exactly as the interpolation
    /// law guarantees.
    fn value_at(&self, t: Ratio) -> (r: T)
        ensures
            r == self.value_at_spec(t),
    {
        proof {
            self.0.lemma_mix_bounds(self.1, t);
        }
        if t.num == 0 {
            self.0
        } else if t.num == t.den && t.den > 0 {
            self.1
        } else {
            self.0.mix(self.1, t)
        }
    }
}

impl<T: Mix + Copy> Curve<T> for Curve2<T> {
    /// A quadratic curve by repeated interpolation.
    open spec fn value_at_spec(&self, t: Ratio) -> T {
        self.0.mix_spec(self.1, t).mix_spec(self.1.mix_spec(self.2, t), t)
    }

    fn value_at(&self, t: Ratio) -> (r: T)
        ensures
            r == self.value_at_spec(t),
    {
        proof {
            lemma_curve2_bounds(self.0, self.1, self.2, t);
        }
        if t.num == 0 {
            self.0
        } else if t.num == t.den && t.den > 0 {
            self.2
        } else {
            let v1: T = self.0.mix(self.1, t);
            let v2: T = self.1.mix(self.2, t);
            v1.mix(v2, t)
        }
    }
}

/// At the boundary fractions a quadratic interpolation chain collapses to
/// its endpoints.
proof fn lemma_curve2_bounds<T: Mix + Copy>(a: T, b: T, c: T, t: Ratio)
    ensures
        t.num == 0 ==> a.mix_spec(b, t).mix_spec(b.mix_spec(c, t), t) == a,
        t.num == t.den && t.den > 0 ==> a.mix_spec(b, t).mix_spec(b.mix_spec(c, t), t) == c,
{
    a.lemma_mix_bounds(b, t);
    b.lemma_mix_bounds(c, t);
    a.mix_spec(b, t).lemma_mix_bounds(b.mix_spec(c, t), t);
}

impl<T: Mix + Copy> Curve<T> for Curve3<T> {
    /// A cubic curve by repeated interpolation.
    open spec fn value_at_spec(&self, t: Ratio) -> T {
        ({
            let v1 = self.0.mix_spec(self.1, t);
            let v2 = self.1.mix_spec(self.2, t);
            let v3 = self.2.mix_spec(self.3, t);
            v1.mix_spec(v2, t).mix_spec(v2.mix_spec(v3, t), t)
        })
    }

    fn value_at(&self, t: Ratio) -> (r: T)
        ensures
            r == self.value_at_spec(t),
    {
        proof {
            lemma_curve3_bounds(self.0, self.1, self.2, self.3, t);
        }
        if t.num == 0 {
            self.0
        } else if t.num == t.den && t.den > 0 {
            self.3
        } else {
            let v1: T = self.0.mix(self.1, t);
            let v2: T = self.1.mix(self.2, t);
            let v3: T = self.2.mix(self.3, t);
            let x1: T = v1.mix(v2, t);
            let x2: T = v2.mix(v3, t);
            x1.mix(x2, t)
        }
    }
}

/// At the boundary fractions a cubic interpolation chain collapses to its
/// endpoints.
proof fn lemma_curve3_bounds<T: Mix + Copy>(a: T, b: T, c: T, d: T, t: Ratio)
    ensures
        t.num == 0 ==> ({
            let v1 = a.mix_spec(b, t);
            let v2 = b.mix_spec(c, t);
            let v3 = c.mix_spec(d, t);
            v1.mix_spec(v2, t).mix_spec(v2.mix_spec(v3, t), t) == a
        }),
        t.num == t.den && t.den > 0 ==> ({
            let v1 = a.mix_spec(b, t);
            let v2 = b.mix_spec(c, t);
            let v3 = c.mix_spec(d, t);
            v1.mix_spec(v2, t).mix_spec(v2.mix_spec(v3, t), t) == d
        }),
{
    let v1 = a.mix_spec(b, t);
    let v2 = b.mix_spec(c, t);
    let v3 = c.mix_spec(d, t);
    a.lemma_mix_bounds(b, t);
    b.lemma_mix_bounds(c, t);
    c.lemma_mix_bounds(d, t);
    v1.lemma_mix_bounds(v2, t);
    v2.lemma_mix_bounds(v3, t);
    v1.mix_spec(v2, t).lemma_mix_bounds(v2.mix_spec(v3, t), t);
}

} // verus!
