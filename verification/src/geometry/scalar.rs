//! Exact fixed-point scalars.
//!
//! A `Fixed` stores a signed raw count of 1/65536ths of a unit.  All
//! arithmetic is total: results are truncated toward zero where a division
//! rounds, and saturated symmetrically at `±i64::MAX` where they would
//! overflow, so that negation and the symmetry of distances hold exactly.

use vstd::prelude::*;

verus! {

/// Number of raw units in one whole unit: a `Fixed` holds `raw / 65536`.
pub const SCALE: i64 = 65536;

pub open spec fn spec_abs(v: int) -> int {
    if v >= 0 {
        v
    } else {
        -v
    }
}

/// Symmetric saturation: clamps to `[-i64::MAX, i64::MAX]`.
pub open spec fn sat(v: int) -> int {
    if v > i64::MAX {
        i64::MAX as int
    } else if v < -(i64::MAX as int) {
        -(i64::MAX as int)
    } else {
        v
    }
}

/// Division truncated toward zero.
pub open spec fn tdiv(n: int, d: int) -> int
    recommends
        d != 0,
{
    if (n < 0) == (d < 0) {
        spec_abs(n) / spec_abs(d)
    } else {
        -(spec_abs(n) / spec_abs(d))
    }
}

/// Floor of the square root of a non-negative integer.
pub open spec fn sqrt_floor(n: nat) -> nat
    decreases n,
{
    if n == 0 {
        0
    } else {
        let r = sqrt_floor((n - 1) as nat);
        if (r + 1) * (r + 1) <= n {
            r + 1
        } else {
            r
        }
    }
}

pub proof fn lemma_sqrt_floor_bounds(n: nat)
    ensures
        sqrt_floor(n) * sqrt_floor(n) <= n,
        n < (sqrt_floor(n) + 1) * (sqrt_floor(n) + 1),
    decreases n,
{
    if n > 0 {
        lemma_sqrt_floor_bounds((n - 1) as nat);
        let r = sqrt_floor((n - 1) as nat);
        assert(n - 1 < (r + 1) * (r + 1));
        assert((r + 1) * (r + 1) < (r + 2) * (r + 2)) by (nonlinear_arith);
        if (r + 1) * (r + 1) <= n {
            assert(sqrt_floor(n) == r + 1);
            assert(sqrt_floor(n) * sqrt_floor(n) == (r + 1) * (r + 1)) by (nonlinear_arith)
                requires
                    sqrt_floor(n) == r + 1,
            ;
            assert((sqrt_floor(n) + 1) * (sqrt_floor(n) + 1) == (r + 2) * (r + 2))
                by (nonlinear_arith)
                requires
                    sqrt_floor(n) == r + 1,
            ;
            assert(n < (sqrt_floor(n) + 1) * (sqrt_floor(n) + 1));
        } else {
            assert(sqrt_floor(n) == r);
            assert((sqrt_floor(n) + 1) * (sqrt_floor(n) + 1) == (r + 1) * (r + 1))
                by (nonlinear_arith)
                requires
                    sqrt_floor(n) == r,
            ;
            assert(n < (sqrt_floor(n) + 1) * (sqrt_floor(n) + 1));
        }
    } else {
        assert(sqrt_floor(n) == 0);
        assert((sqrt_floor(n) + 1) * (sqrt_floor(n) + 1) == 1) by (nonlinear_arith)
            requires
                sqrt_floor(n) == 0,
        ;
    }
}

/// The two bounds of `sqrt_floor` pin the root down uniquely.
pub proof fn lemma_sqrt_floor_unique(n: nat, r: nat)
    requires
        r * r <= n,
        n < (r + 1) * (r + 1),
    ensures
        r == sqrt_floor(n),
{
    lemma_sqrt_floor_bounds(n);
    let s = sqrt_floor(n);
    if r < s {
        assert((r + 1) * (r + 1) <= s * s) by (nonlinear_arith)
            requires
                r + 1 <= s,
        ;
    }
    if s < r {
        assert((s + 1) * (s + 1) <= r * r) by (nonlinear_arith)
            requires
                s + 1 <= r,
        ;
    }
}

/// A scalar measured in 1/65536ths of a unit.
#[derive(Clone, Copy, Debug, PartialEq, Eq, Structural)]
pub struct Fixed {
    pub raw: i64,
}

/// An exact rational scalar.  Interpolation fractions and color channels
/// are ratios, so that values such as a target offset's position within a
/// segment need no early rounding.
#[derive(Clone, Copy, Debug, PartialEq, Eq, Structural)]
pub struct Ratio {
    pub num: i64,
    pub den: i64,
}

/// Magnitude of a signed value, exactly.
pub(crate) fn umag(v: i64) -> (m: u128)
    ensures
        m == spec_abs(v as int),
{
    if v >= 0 {
        v as u128
    } else {
        (-(v as i128)) as u128
    }
}

/// Clamp a wide intermediate back into the symmetric `i64` range.
pub(crate) fn sat_narrow(v: i128) -> (r: i64)
    ensures
        r as int == sat(v as int),
{
    if v > i64::MAX as i128 {
        i64::MAX
    } else if v < -(i64::MAX as i128) {
        -i64::MAX
    } else {
        v as i64
    }
}

/// `tdiv(a * b, d)`, computed wide so that nothing overflows, with its
/// magnitude bounded by the product of the operand magnitudes.
pub(crate) fn mul_tdiv(a: i64, b: i64, d: i64) -> (r: i128)
    requires
        d != 0,
    ensures
        r as int == tdiv(a as int * b as int, d as int),
        spec_abs(r as int) <= (i64::MAX as int + 1) * (i64::MAX as int + 1),
{
    let ma: u128 = umag(a);
    let mb: u128 = umag(b);
    let md: u128 = umag(d);
    let neg: bool = ((a < 0) != (b < 0)) != (d < 0);
    proof {
        assert(ma as int * mb as int <= i128::MAX as int && ma as int * mb as int <= (i64::MAX
            as int + 1) * (i64::MAX as int + 1)) by (nonlinear_arith)
            requires
                ma as int <= i64::MAX as int + 1,
                mb as int <= i64::MAX as int + 1,
                ma >= 0,
                mb >= 0,
        ;
    }
    let mag: u128 = (ma * mb) / md;
    proof {
        assert(mag as int <= ma as int * mb as int) by (nonlinear_arith)
            requires
                md >= 1,
                mag as int == (ma as int * mb as int) / (md as int),
                ma as int * mb as int >= 0,
        ;
        lemma_tdiv_signs(a as int, b as int, d as int);
    }
    if neg {
        -(mag as i128)
    } else {
        mag as i128
    }
}

impl Fixed {
    pub fn new(raw: i64) -> (r: Fixed)
        ensures
            r.raw == raw,
    {
        Fixed { raw }
    }

    pub open spec fn zero_spec() -> Fixed {
        Fixed { raw: 0 }
    }

    pub fn zero() -> (r: Fixed)
        ensures
            r == Fixed::zero_spec(),
    {
        Fixed { raw: 0 }
    }

    pub open spec fn one_spec() -> Fixed {
        Fixed { raw: SCALE }
    }

    pub fn one() -> (r: Fixed)
        ensures
            r == Fixed::one_spec(),
    {
        Fixed { raw: SCALE }
    }

    pub open spec fn add_spec(self, other: Fixed) -> Fixed {
        Fixed { raw: sat(self.raw + other.raw) as i64 }
    }

    pub fn add(self, other: Fixed) -> (r: Fixed)
        ensures
            r == self.add_spec(other),
    {
        let wide: i128 = self.raw as i128 + other.raw as i128;
        Fixed { raw: sat_narrow(wide) }
    }

    pub open spec fn sub_spec(self, other: Fixed) -> Fixed {
        Fixed { raw: sat(self.raw - other.raw) as i64 }
    }

    pub fn sub(self, other: Fixed) -> (r: Fixed)
        ensures
            r == self.sub_spec(other),
    {
        let wide: i128 = self.raw as i128 - other.raw as i128;
        Fixed { raw: sat_narrow(wide) }
    }

    pub open spec fn neg_spec(self) -> Fixed {
        Fixed { raw: sat(-self.raw) as i64 }
    }

    pub fn neg(self) -> (r: Fixed)
        ensures
            r == self.neg_spec(),
    {
        let wide: i128 = -(self.raw as i128);
        Fixed { raw: sat_narrow(wide) }
    }

    pub open spec fn abs_spec(self) -> Fixed {
        Fixed { raw: sat(spec_abs(self.raw as int)) as i64 }
    }

    pub fn abs(self) -> (r: Fixed)
        ensures
            r == self.abs_spec(),
    {
        if self.raw >= 0 {
            Fixed { raw: self.raw }
        } else {
            let wide: i128 = -(self.raw as i128);
            Fixed { raw: sat_narrow(wide) }
        }
    }

    /// `self * other`, in units: `(a.raw * b.raw) / SCALE`, truncated.
    pub open spec fn mul_spec(self, other: Fixed) -> Fixed {
        Fixed { raw: sat(tdiv(self.raw * other.raw, SCALE as int)) as i64 }
    }

    pub fn mul(self, other: Fixed) -> (r: Fixed)
        ensures
            r == self.mul_spec(other),
    {
        let ma: u128 = umag(self.raw);
        let mb: u128 = umag(other.raw);
        let neg: bool = (self.raw < 0) != (other.raw < 0);
        proof {
            assert(ma as int * mb as int <= i128::MAX as int) by (nonlinear_arith)
                requires
                    ma as int <= i64::MAX as int + 1,
                    mb as int <= i64::MAX as int + 1,
                    ma >= 0,
                    mb >= 0,
            ;
        }
        let mag: u128 = (ma * mb) / (SCALE as u128);
        proof {
            lemma_div_mag_bound(ma as int, SCALE as int, mb as int);
            lemma_tdiv_signs(self.raw as int, other.raw as int, SCALE as int);
        }
        let signed: i128 = if neg {
            -(mag as i128)
        } else {
            mag as i128
        };
        Fixed { raw: sat_narrow(signed) }
    }

    /// `self / other`, in units: `(a.raw * SCALE) / b.raw`, truncated.
    pub open spec fn div_spec(self, other: Fixed) -> Fixed {
        Fixed { raw: sat(tdiv(self.raw * SCALE, other.raw as int)) as i64 }
    }

    pub fn div(self, other: Fixed) -> (r: Fixed)
        requires
            other.raw != 0,
        ensures
            r == self.div_spec(other),
    {
        let ma: u128 = umag(self.raw);
        let mb: u128 = umag(other.raw);
        let neg: bool = (self.raw < 0) != (other.raw < 0);
        proof {
            assert(ma as int * SCALE as int <= i128::MAX as int) by (nonlinear_arith)
                requires
                    ma as int <= i64::MAX as int + 1,
                    ma >= 0,
                    SCALE == 65536,
            ;
        }
        let mag: u128 = (ma * (SCALE as u128)) / mb;
        proof {
            lemma_div_mag_bound(ma as int, mb as int, SCALE as int);
            lemma_tdiv_signs(self.raw as int, SCALE as int, other.raw as int);
        }
        let signed: i128 = if neg {
            -(mag as i128)
        } else {
            mag as i128
        };
        Fixed { raw: sat_narrow(signed) }
    }
}

/// Truncated division distributes over sign/magnitude decomposition:
/// `tdiv(a * b, d)` equals the sign-adjusted quotient of magnitudes.
pub(crate) proof fn lemma_tdiv_signs(a: int, b: int, d: int)
    requires
        d != 0,
    ensures
        spec_abs(a * b) == spec_abs(a) * spec_abs(b),
        tdiv(a * b, d) == if ((a < 0) != (b < 0)) != (d < 0) {
            -(spec_abs(a) * spec_abs(b) / spec_abs(d))
        } else {
            spec_abs(a) * spec_abs(b) / spec_abs(d)
        },
{
    assert(spec_abs(a * b) == spec_abs(a) * spec_abs(b)) by (nonlinear_arith);
    if a * b == 0 {
        assert(spec_abs(a) * spec_abs(b) == 0);
        assert(spec_abs(a) * spec_abs(b) / spec_abs(d) == 0) by {
            vstd::arithmetic::div_mod::lemma_div_of0(spec_abs(d));
        }
    } else {
        assert((a * b < 0) == ((a < 0) != (b < 0))) by (nonlinear_arith)
            requires
                a * b != 0,
        ;
    }
}

/// The magnitude of a quotient `(m * s) / d` with `d >= 1` is at most `m * s`.
pub(crate) proof fn lemma_div_mag_bound(m: int, d: int, s: int)
    requires
        d >= 1,
        m >= 0,
        s >= 0,
    ensures
        (m * s) / d <= m * s,
{
    assert((m * s) / d <= m * s) by (nonlinear_arith)
        requires
            d >= 1,
            m >= 0,
            s >= 0,
    ;
}

/// Floor square root on the wide unsigned range, by binary search.
pub fn isqrt(n: u128) -> (r: u64)
    ensures
        r == sqrt_floor(n as nat),
{
    let mut lo: u128 = 0;
    let mut hi: u128 = 0x1_0000_0000_0000_0000u128;
    proof {
        assert((0x1_0000_0000_0000_0000u128 as int) * (0x1_0000_0000_0000_0000u128 as int) > u128::MAX
            as int) by (nonlinear_arith);
    }
    while lo + 1 < hi
        invariant
            lo < hi,
            hi <= 0x1_0000_0000_0000_0000u128,
            (lo as int) * (lo as int) <= n as int,
            (n as int) < (hi as int) * (hi as int),
        decreases hi - lo,
    {
        let mid: u128 = lo + (hi - lo) / 2;
        assert(lo < mid < hi);
        assert((mid as int) * (mid as int) < u128::MAX as int) by (nonlinear_arith)
            requires
                mid < 0x1_0000_0000_0000_0000u128,
                (0x1_0000_0000_0000_0000u128 as int) * (0x1_0000_0000_0000_0000u128 as int)
                    > u128::MAX as int,
        ;
        if mid * mid <= n {
            lo = mid;
        } else {
            hi = mid;
        }
    }
    proof {
        lemma_sqrt_floor_unique(n as nat, lo as nat);
    }
    lo as u64
}

} // verus!
