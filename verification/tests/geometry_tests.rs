use freehand::geometry::color::Color;
use freehand::geometry::curve::{Curve, Curve0, Curve1, Curve2, Curve3};
use freehand::geometry::distance::Distance;
use freehand::geometry::mix::Mix;
use freehand::geometry::scalar::{isqrt, Fixed, Ratio};
use freehand::geometry::touch::Touch;
use freehand::geometry::vector::Vector;

fn fx(raw: i64) -> Fixed {
    Fixed { raw }
}

fn vec2(x: i64, y: i64) -> Vector {
    Vector { x: fx(x), y: fx(y) }
}

const ONE: i64 = 65536;
const HALF: i64 = 32768;

#[test]
fn fixed_arithmetic_is_exact() {
    assert_eq!(fx(3 * ONE).add(fx(ONE)), fx(4 * ONE));
    assert_eq!(fx(3 * ONE).sub(fx(ONE)), fx(2 * ONE));
    assert_eq!(fx(-5).abs(), fx(5));
    assert_eq!(fx(2 * ONE).mul(fx(3 * ONE)), fx(6 * ONE));
    assert_eq!(fx(3 * ONE).div(fx(2 * ONE)), fx(ONE + HALF));
    // Multiplication truncates toward zero.
    assert_eq!(fx(3).mul(fx(3)), fx(0));
    assert_eq!(fx(-ONE - 1).mul(fx(HALF)), fx(-HALF));
}

#[test]
fn fixed_saturates_symmetrically() {
    let top = i64::MAX;
    assert_eq!(fx(top).add(fx(top)), fx(top));
    assert_eq!(fx(-top).sub(fx(top)), fx(-top));
    assert_eq!(fx(i64::MIN).neg(), fx(top));
}

#[test]
fn fixed_mix_is_exact_at_boundaries() {
    let a = fx(12345);
    let b = fx(-98765);
    assert_eq!(a.mix(b, ratio(0, 1)), a);
    assert_eq!(a.mix(b, ratio(1, 1)), b);
    assert_eq!(fx(0).mix(fx(2 * ONE), ratio(1, 2)), fx(ONE));
    // An exact third: no fixed-point fraction could represent it.
    assert_eq!(fx(0).mix(fx(3 * ONE), ratio(1, 3)), fx(ONE));
}

#[test]
fn fixed_distance_is_symmetric() {
    let a = fx(100);
    let b = fx(-250);
    assert_eq!(a.distance(b), fx(350));
    assert_eq!(b.distance(a), fx(350));
}

#[test]
fn isqrt_rounds_down() {
    assert_eq!(isqrt(0), 0);
    assert_eq!(isqrt(1), 1);
    assert_eq!(isqrt(24), 4);
    assert_eq!(isqrt(25), 5);
    assert_eq!(isqrt(26), 5);
}

#[test]
fn vector_length_of_pythagorean_triple() {
    let v = vec2(3 * ONE, 4 * ONE);
    assert_eq!(v.length(), fx(5 * ONE));
    assert_eq!(vec2(0, 0).distance(vec2(3 * ONE, 4 * ONE)), fx(5 * ONE));
}

#[test]
fn vector_normalize_gives_unit_axis() {
    let v = vec2(0, 7 * ONE);
    assert_eq!(v.normalize(), vec2(0, ONE));
    assert_eq!(vec2(-3 * ONE, 0).normalize(), vec2(-ONE, 0));
}

#[test]
fn vector_normal_rotates_left() {
    assert_eq!(vec2(ONE, 0).normal(), vec2(0, ONE));
    assert_eq!(vec2(0, ONE).normal(), vec2(-ONE, 0));
}

#[test]
fn vector_dot_and_square() {
    let v = vec2(2 * ONE, 3 * ONE);
    assert_eq!(v.dot(vec2(4 * ONE, 5 * ONE)), fx(23 * ONE));
    assert_eq!(v.square(), fx(13 * ONE));
}

#[test]
fn touch_distance_ignores_pressure() {
    let a = Touch {
        point: vec2(0, 0),
        pressure: fx(0),
    };
    let b = Touch {
        point: vec2(3 * ONE, 4 * ONE),
        pressure: fx(ONE),
    };
    assert_eq!(a.distance(b), fx(5 * ONE));
}

#[test]
fn touch_mix_interpolates_pressure() {
    let half = ratio(1, 2);
    let a = Touch {
        point: vec2(0, 0),
        pressure: fx(0),
    };
    let b = Touch {
        point: vec2(2 * ONE, 0),
        pressure: fx(ONE),
    };
    let m = a.mix(b, half);
    assert_eq!(m.point, vec2(ONE, 0));
    assert_eq!(m.pressure, fx(HALF));
}

fn ratio(num: i64, den: i64) -> Ratio {
    Ratio { num, den }
}

fn ratio_value_eq(a: Ratio, b: Ratio) -> bool {
    a.num * b.den == b.num * a.den
}

#[test]
fn color_premultiplies() {
    let c = Color::new(ratio(1, 2), ratio(1, 4), ratio(3, 4), ratio(1, 2));
    assert!(ratio_value_eq(c.r, ratio(1, 4)));
    assert!(ratio_value_eq(c.g, ratio(1, 8)));
    assert!(ratio_value_eq(c.b, ratio(3, 8)));
    assert!(ratio_value_eq(c.a, ratio(1, 2)));
}

#[test]
fn color_round_trip_recovers_channels() {
    let c = Color::new(ratio(1, 2), ratio(1, 4), ratio(3, 4), ratio(1, 2));
    let o = c.opaque();
    assert!(ratio_value_eq(o.r, ratio(1, 2)));
    assert!(ratio_value_eq(o.g, ratio(1, 4)));
    assert!(ratio_value_eq(o.b, ratio(3, 4)));
    assert!(ratio_value_eq(o.a, ratio(1, 1)));
}

#[test]
fn color_near_zero_alpha_goes_black() {
    let c = Color::new(ratio(1, 2), ratio(1, 2), ratio(1, 2), ratio(1, 10001));
    let o = c.opaque();
    assert!(ratio_value_eq(o.r, ratio(0, 1)));
    assert!(ratio_value_eq(o.g, ratio(0, 1)));
    assert!(ratio_value_eq(o.b, ratio(0, 1)));
    assert!(ratio_value_eq(o.a, ratio(1, 1)));
}

#[test]
fn color_mix_is_exact() {
    let c1 = Color {
        r: ratio(0, 1),
        g: ratio(1, 2),
        b: ratio(1, 1),
        a: ratio(1, 1),
    };
    let c2 = Color {
        r: ratio(1, 1),
        g: ratio(1, 1),
        b: ratio(0, 1),
        a: ratio(1, 2),
    };
    let m = c1.mix(&c2, ratio(1, 4));
    assert!(ratio_value_eq(m.r, ratio(1, 4)));
    assert!(ratio_value_eq(m.g, ratio(5, 8)));
    assert!(ratio_value_eq(m.b, ratio(3, 4)));
    assert!(ratio_value_eq(m.a, ratio(7, 8)));
    // The boundary fractions are exact.
    let at_zero = c1.mix(&c2, ratio(0, 1));
    let at_one = c1.mix(&c2, ratio(1, 1));
    assert!(ratio_value_eq(at_zero.g, c1.g));
    assert!(ratio_value_eq(at_one.g, c2.g));
}

#[test]
fn curves_interpolate() {
    let half = ratio(1, 2);
    let zero_t = ratio(0, 1);
    let one_t = ratio(1, 1);
    assert_eq!(Curve0(fx(7)).value_at(half), fx(7));
    assert_eq!(Curve1(fx(0), fx(2 * ONE)).value_at(half), fx(ONE));
    assert_eq!(Curve1(fx(0), fx(2 * ONE)).value_at(zero_t), fx(0));
    assert_eq!(Curve1(fx(0), fx(2 * ONE)).value_at(one_t), fx(2 * ONE));
    // A quadratic through 0, 2, 0 peaks at 1 in the middle.
    let q = Curve2(fx(0), fx(2 * ONE), fx(0));
    assert_eq!(q.value_at(half), fx(ONE));
    assert_eq!(q.value_at(zero_t), fx(0));
    assert_eq!(q.value_at(one_t), fx(0));
    // A cubic with all control points equal is constant.
    let c = Curve3(fx(ONE), fx(ONE), fx(ONE), fx(ONE));
    assert_eq!(c.value_at(half), fx(ONE));
    assert_eq!(c.value_at(one_t), fx(ONE));
}
