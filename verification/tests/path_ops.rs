use freehand::geometry::scalar::Fixed;
use freehand::geometry::touch::Touch;
use freehand::geometry::vector::Vector;
use freehand::geometry::distance::Distance;
use freehand::path::deduplicate::DeduplicateIterator;
use freehand::path::segments::SegmentsIterator;
use freehand::path::smooth::SmoothIterator;
use freehand::path::source::{collect_points, PathSource, PointsSource};
use freehand::path::with_neighbours::WithNeighboursIterator;
use freehand::path::with_normal::WithNormalIterator;
use freehand::path::with_offset::{WithOffset, WithOffsetIterator};

fn fx(raw: i64) -> Fixed {
    Fixed { raw }
}

fn vec2(x: i64, y: i64) -> Vector {
    Vector { x: fx(x), y: fx(y) }
}

fn touch(x: i64, y: i64, pressure: i64) -> Touch {
    Touch {
        point: vec2(x, y),
        pressure: fx(pressure),
    }
}

#[test]
fn basic() {
    let mut segments: Vec<(f32, f32)> = Vec::new();
    let mut it = SegmentsIterator::new(PointsSource::new(vec![0.0, 1.0, 2.0, 3.0]));
    while let Some(pair) = it.next() {
        segments.push(pair);
    }
    assert_eq!(segments, vec![(0.0, 1.0), (1.0, 2.0), (2.0, 3.0)]);
}

#[test]
fn simple() {
    let data: Vec<f32> = vec![1.0, 2.0, 3.0, 4.0];
    let mut result: Vec<(Option<f32>, f32, Option<f32>)> = Vec::new();
    let mut it = WithNeighboursIterator::new(PointsSource::new(data));
    while let Some(triple) = it.next() {
        result.push(triple);
    }
    assert_eq!(
        result,
        vec![
            (None, 1.0, Some(2.0)),
            (Some(1.0), 2.0, Some(3.0)),
            (Some(2.0), 3.0, Some(4.0)),
            (Some(3.0), 4.0, None)
        ]
    );
}

#[test]
fn with_neighbours_single() {
    let data: Vec<f32> = vec![1.0];
    let mut result: Vec<(Option<f32>, f32, Option<f32>)> = Vec::new();
    let mut it = WithNeighboursIterator::new(PointsSource::new(data));
    while let Some(triple) = it.next() {
        result.push(triple);
    }
    assert_eq!(result, vec![(None, 1.0, None)]);
}

#[test]
fn deduplicate_collapses_runs() {
    let data = vec![fx(1), fx(1), fx(2), fx(2), fx(2), fx(3), fx(1)];
    let out = collect_points(DeduplicateIterator::new(PointsSource::new(data)));
    assert_eq!(out, vec![fx(1), fx(2), fx(3), fx(1)]);
}

#[test]
fn deduplicate_keeps_distinct_pressure() {
    // Two touches at one position but different pressures are distinct.
    let data = vec![touch(0, 0, 0), touch(0, 0, 65536)];
    let out = collect_points(DeduplicateIterator::new(PointsSource::new(data.clone())));
    assert_eq!(out.len(), 2);
    assert_eq!(out[0], data[0]);
    assert_eq!(out[1], data[1]);
}

#[test]
fn offsets_accumulate_distance() {
    // A unit square's corners: each side is one unit long.
    let data = vec![vec2(0, 0), vec2(65536, 0), vec2(65536, 65536)];
    let out = collect_points(WithOffsetIterator::new(PointsSource::new(data)));
    assert_eq!(out.len(), 3);
    assert_eq!(out[0].offset, fx(0));
    assert_eq!(out[1].offset, fx(65536));
    assert_eq!(out[2].offset, fx(131072));
    assert_eq!(out[0].point, vec2(0, 0));
    assert_eq!(out[2].point, vec2(65536, 65536));
}

#[test]
fn with_offset_distance_delegates_to_point() {
    // Equal offsets, distinct points: the distance is the points'.
    let a = WithOffset { point: vec2(0, 0), offset: fx(0) };
    let b = WithOffset { point: vec2(3 * 65536, 4 * 65536), offset: fx(0) };
    assert_eq!(a.distance(b), fx(5 * 65536));
    assert_eq!(b.distance(a), fx(5 * 65536));
}

#[test]
fn smooth_keeps_straight_line() {
    // Three colinear, equally spaced touches stay in place.
    let data = vec![touch(0, 0, 0), touch(65536, 0, 0), touch(131072, 0, 0)];
    let out = collect_points(SmoothIterator::new(PointsSource::new(data.clone())));
    assert_eq!(out, data);
}

#[test]
fn smooth_pulls_corner_inward() {
    // A right-angle corner moves toward the chord's midpoint.
    let data = vec![vec2(0, 0), vec2(65536, 0), vec2(65536, 65536)];
    let out = collect_points(SmoothIterator::new(PointsSource::new(data.clone())));
    assert_eq!(out[0], data[0]);
    assert_eq!(out[2], data[2]);
    // Midpoint of the chord is (0.5, 0.5); averaged with the corner
    // (1, 0) this gives (0.75, 0.25).
    assert_eq!(out[1], vec2(49152, 16384));
}

#[test]
fn normals_are_chord_perpendiculars() {
    let data = vec![vec2(0, 0), vec2(65536, 0), vec2(131072, 0)];
    let out = collect_points(WithNormalIterator::new(PointsSource::new(data)));
    assert_eq!(out.len(), 3);
    // The chord direction is +x everywhere, so every un-normalized
    // normal points along +y with the chord's length.
    assert_eq!(out[0].normal, vec2(0, 65536));
    assert_eq!(out[1].normal, vec2(0, 131072));
    assert_eq!(out[2].normal, vec2(0, 65536));
    assert_eq!(out[1].point, vec2(65536, 0));
}

#[test]
fn lone_point_has_zero_normal() {
    let out = collect_points(WithNormalIterator::new(PointsSource::new(vec![vec2(7, 9)])));
    assert_eq!(out.len(), 1);
    assert_eq!(out[0].normal, vec2(0, 0));
}
