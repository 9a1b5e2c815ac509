use freehand::geometry::scalar::Fixed;
use freehand::geometry::touch::Touch;
use freehand::geometry::vector::Vector;
use freehand::path::with_normal::WithNormal;
use freehand::path::with_offset::WithOffset;
use freehand::tools::wave_pencil::WavePencil;
use freehand::touch_list::TouchList;

fn fx(raw: i64) -> Fixed {
    Fixed { raw }
}

fn vec2(x: i64, y: i64) -> Vector {
    Vector { x: fx(x), y: fx(y) }
}

const ONE: i64 = 65536;

fn pencil() -> WavePencil {
    WavePencil {
        thickness: fx(2 * ONE),
        amplitude: fx(ONE),
        period: fx(ONE),
    }
}

fn annotated(x: i64, y: i64, nx: i64, ny: i64, offset: i64) -> WithOffset<WithNormal<Touch>> {
    WithOffset {
        point: WithNormal {
            point: Touch {
                point: vec2(x, y),
                pressure: fx(0),
            },
            normal: vec2(nx, ny),
        },
        offset: fx(offset),
    }
}

#[test]
fn touch_list_collects_samples() {
    let mut list = TouchList::new(fx(ONE));
    assert_eq!(list.len(), 0);
    assert_eq!(list.pixel_size(), fx(ONE));
    list.push(fx(1), fx(2), fx(3));
    list.push(fx(4), fx(5), fx(6));
    assert_eq!(list.len(), 2);
    let points = list.points_vec();
    assert_eq!(points[0], Touch { point: vec2(1, 2), pressure: fx(3) });
    assert_eq!(points[1], Touch { point: vec2(4, 5), pressure: fx(6) });
    let with_cap = TouchList::with_capacity(fx(ONE), 16);
    assert_eq!(with_cap.len(), 0);
}

#[test]
fn ribbon_vertices_shift_by_scaled_normal() {
    let path = vec![annotated(0, 0, 0, 3 * ONE, 0), annotated(ONE, 0, 0, 5 * ONE, ONE)];
    let vertices = pencil().ribbon_vertices(&path);
    assert_eq!(vertices.len(), 6);
    // The normal is normalized to unit length before scaling, so both
    // points shift by the full thickness along +y.
    assert_eq!(vertices[0].position, vec2(0, -2 * ONE));
    assert_eq!(vertices[1].position, vec2(0, 0));
    assert_eq!(vertices[2].position, vec2(0, 2 * ONE));
    assert_eq!(vertices[3].position, vec2(ONE, -2 * ONE));
    assert_eq!(vertices[4].position, vec2(ONE, 0));
    assert_eq!(vertices[5].position, vec2(ONE, 2 * ONE));
    assert_eq!(vertices[0].offset, fx(-ONE));
    assert_eq!(vertices[1].offset, fx(0));
    assert_eq!(vertices[2].offset, fx(ONE));
    assert_eq!(vertices[0].width, fx(2 * ONE));
}

#[test]
fn ribbon_vertices_pass_zero_normal_through() {
    let path = vec![annotated(5, 7, 0, 0, 0)];
    let vertices = pencil().ribbon_vertices(&path);
    assert_eq!(vertices.len(), 3);
    assert_eq!(vertices[0].position, vec2(5, 7));
    assert_eq!(vertices[1].position, vec2(5, 7));
    assert_eq!(vertices[2].position, vec2(5, 7));
}

#[test]
fn ribbon_elements_join_triads() {
    let elements = pencil().ribbon_elements(3);
    assert_eq!(
        elements,
        vec![
            0, 3, 1, 1, 3, 4, 1, 4, 2, 2, 4, 5, //
            3, 6, 4, 4, 6, 7, 4, 7, 5, 5, 7, 8,
        ]
    );
    assert_eq!(pencil().ribbon_elements(0), Vec::<u32>::new());
    assert_eq!(pencil().ribbon_elements(1), Vec::<u32>::new());
}

#[test]
fn stroke_points_resample_evenly() {
    // A straight stroke four units long, sampled unevenly: the pipeline
    // yields unit-spaced points along it, keeping both endpoints.
    let mut list = TouchList::new(fx(ONE));
    list.push(fx(0), fx(0), fx(0));
    list.push(fx(0), fx(0), fx(0));
    list.push(fx(3 * ONE / 2), fx(0), fx(0));
    list.push(fx(4 * ONE), fx(0), fx(0));
    let points = freehand::tools::wave_pencil::stroke_points(&list);
    assert!(points.len() >= 2);
    assert_eq!(points[0].point.point.point, vec2(0, 0));
    assert_eq!(
        points[points.len() - 1].point.point.point,
        vec2(4 * ONE, 0)
    );
    assert_eq!(points[0].offset, fx(0));
    // Offsets never decrease and consecutive spacing is one unit until
    // the short final step.
    for i in 1..points.len() {
        assert!(points[i].offset.raw >= points[i - 1].offset.raw);
    }
}

#[test]
fn phase_geometry_matches_point_count() {
    let mut list = TouchList::new(fx(ONE));
    list.push(fx(0), fx(0), fx(0));
    list.push(fx(2 * ONE), fx(0), fx(0));
    let (vertices, elements) = pencil().phase_geometry(&list).unwrap();
    assert_eq!(vertices.len() % 3, 0);
    let count = vertices.len() / 3;
    assert!(count >= 2);
    assert_eq!(elements.len(), 12 * (count - 1));
    // Every element indexes a vertex.
    for e in elements {
        assert!((e as usize) < vertices.len());
    }
}
