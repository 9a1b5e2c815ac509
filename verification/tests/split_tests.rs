use freehand::geometry::scalar::Fixed;
use freehand::geometry::vector::Vector;
use freehand::path::source::{collect_points, PointsSource};
use freehand::path::split::SplitIterator;

fn fx(raw: i64) -> Fixed {
    Fixed { raw }
}

fn vec2(x: i64, y: i64) -> Vector {
    Vector { x: fx(x), y: fx(y) }
}

const HALF: i64 = 32768;
const ONE: i64 = 65536;

#[test]
fn split_single() {
    let split = collect_points(SplitIterator::new(
        PointsSource::new(vec![vec2(ONE, ONE)]),
        fx(HALF),
    ));
    assert_eq!(split, vec![vec2(ONE, ONE)]);
}

#[test]
fn horizontal_line() {
    let points = collect_points(SplitIterator::new(
        PointsSource::new(vec![vec2(0, 0), vec2(2 * ONE, 0)]),
        fx(HALF),
    ));
    assert_eq!(
        points,
        vec![
            vec2(0, 0),
            vec2(HALF, 0),
            vec2(ONE, 0),
            vec2(ONE + HALF, 0),
            vec2(2 * ONE, 0)
        ]
    );
}

#[test]
fn not_ceil_length() {
    // 1.25 units long: the final step is short, with no overshoot.
    let points = collect_points(SplitIterator::new(
        PointsSource::new(vec![vec2(0, 0), vec2(ONE + ONE / 4, 0)]),
        fx(HALF),
    ));
    assert_eq!(
        points,
        vec![vec2(0, 0), vec2(HALF, 0), vec2(ONE, 0), vec2(ONE + ONE / 4, 0)]
    );
}

#[test]
fn split_keeps_endpoints_of_diagonal() {
    // A diagonal whose length (5 units) is not a multiple of the step.
    let first = vec2(0, 0);
    let last = vec2(3 * ONE, 4 * ONE);
    let points = collect_points(SplitIterator::new(
        PointsSource::new(vec![first, last]),
        fx(2 * ONE),
    ));
    assert_eq!(points.first().copied(), Some(first));
    assert_eq!(points.last().copied(), Some(last));
    assert_eq!(points.len(), 4);
}
