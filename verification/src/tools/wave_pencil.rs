//! The stroke builder: drives the full path pipeline and emits exactly the
//! ribbon vertex and index layout the renderer consumes.

use vstd::prelude::*;
use crate::geometry::scalar::{Fixed, SCALE};
use crate::geometry::touch::Touch;
use crate::geometry::vector::Vector;
use crate::path::deduplicate::{dedup_seq, DeduplicateIterator};
use crate::path::smooth::{smooth_seq, SmoothIterator};
use crate::path::source::{collect_points, PointsSource};
use crate::path::split::{split_seq, SplitIterator};
use crate::path::with_normal::{normals_seq, WithNormal, WithNormalIterator};
use crate::path::with_offset::{offsets_seq, WithOffset, WithOffsetIterator};
use crate::touch_list::TouchList;

verus! {

/// A pencil drawing a ribbon stroke of the given thickness.
#[derive(Clone, Copy, Debug)]
pub struct WavePencil {
    pub thickness: Fixed,
    pub amplitude: Fixed,
    pub period: Fixed,
}

/// One ribbon vertex, as the render layer consumes it.
#[derive(Clone, Copy, Debug)]
pub struct RibbonVertex {
    pub position: Vector,
    /// Minus one on the left edge, zero on the centerline, one on the
    /// right edge.
    pub offset: Fixed,
    pub width: Fixed,
}

/// The fully annotated stroke points of a touch path: deduplicated,
/// resampled at the pixel size, smoothed twice, resampled at unit step,
/// then annotated with chord normals and arc-length offsets.
pub open spec fn stroke_points_seq(points: Seq<Touch>, pixel_size: Fixed) -> Seq<
    WithOffset<WithNormal<Touch>>,
> {
    offsets_seq(
        normals_seq(
            split_seq(
                smooth_seq(smooth_seq(split_seq(dedup_seq(points), pixel_size))),
                Fixed { raw: SCALE },
            ),
        ),
    )
}

/// Runs the whole pipeline over a touch path, lazily, materializing only
/// the final annotated points.
pub fn stroke_points(path: &TouchList) -> (r: Vec<WithOffset<WithNormal<Touch>>>)
    requires
        path.pixel_size_spec().raw > 0,
    ensures
        r@ == stroke_points_seq(path.points_spec(), path.pixel_size_spec()),
{
    let chain = WithOffsetIterator::new(
        WithNormalIterator::new(
            SplitIterator::new(
                SmoothIterator::new(
                    SmoothIterator::new(
                        SplitIterator::new(
                            DeduplicateIterator::new(PointsSource::new(path.points_vec())),
                            path.pixel_size(),
                        ),
                    ),
                ),
                Fixed { raw: SCALE },
            ),
        ),
    );
    collect_points(chain)
}

/// The unit direction of a normal, with the zero vector passing through.
pub open spec fn unit_normal_spec(n: Vector) -> Vector {
    if n == Vector::zero_spec() {
        Vector::zero_spec()
    } else {
        n.normalize_spec()
    }
}

/// The `k`th of the three vertices emitted for one stroke point: left
/// edge, centerline, right edge, each shifted by the scaled unit normal.
pub open spec fn ribbon_vertex_spec(
    p: WithOffset<WithNormal<Touch>>,
    thickness: Fixed,
    k: int,
) -> RibbonVertex {
    let position = p.point.point.point;
    let shift = unit_normal_spec(p.point.normal).scale_spec(thickness);
    if k == 0 {
        RibbonVertex {
            position: position.sub_spec(shift),
            offset: Fixed { raw: (-SCALE) as i64 },
            width: thickness,
        }
    } else if k == 1 {
        RibbonVertex { position, offset: Fixed { raw: 0 }, width: thickness }
    } else {
        RibbonVertex {
            position: position.add_spec(shift),
            offset: Fixed { raw: SCALE },
            width: thickness,
        }
    }
}

/// The twelve vertex indices of the four triangles that join the vertex
/// triad of point `i - 1` to the triad of point `i`.
pub open spec fn ribbon_indices(i: int) -> Seq<int> {
    let p1 = 3 * (i - 1);
    let p2 = 3 * i;
    seq![p1, p2, p1 + 1, p1 + 1, p2, p2 + 1, p1 + 1, p2 + 1, p1 + 2, p1 + 2, p2 + 1, p2 + 2]
}

/// The whole element list for `count` stroke points: one block of twelve
/// indices per consecutive pair of points.
pub open spec fn ribbon_elements_seq(count: int) -> Seq<int>
    decreases count,
{
    if count <= 1 {
        Seq::empty()
    } else {
        ribbon_elements_seq(count - 1) + ribbon_indices(count - 1)
    }
}

/// Law: every emitted element index addresses one of the `3 * count`
/// ribbon vertices.
pub proof fn lemma_ribbon_elements_bounds(count: int)
    ensures
        forall|e: int|
            0 <= e < ribbon_elements_seq(count).len() ==> 0 <= #[trigger] ribbon_elements_seq(
                count,
            )[e] < 3 * count,
    decreases count,
{
    if count > 1 {
        lemma_ribbon_elements_bounds(count - 1);
        assert(forall|e: int|
            0 <= e < ribbon_elements_seq(count - 1).len() ==> ribbon_elements_seq(count)[e]
                == ribbon_elements_seq(count - 1)[e]);
    }
}

impl WavePencil {
    /// Emits three vertices per stroke point: the point shifted against
    /// the scaled unit normal, the point itself, and the point shifted
    /// along it.
    pub fn ribbon_vertices(&self, path: &Vec<WithOffset<WithNormal<Touch>>>) -> (r: Vec<
        RibbonVertex,
    >)
        ensures
            r@.len() == 3 * path@.len(),
            forall|i: int|
                0 <= i < path@.len() ==> (#[trigger] r@[3 * i]) == ribbon_vertex_spec(
                    path@[i],
                    self.thickness,
                    0,
                ) && r@[3 * i + 1] == ribbon_vertex_spec(path@[i], self.thickness, 1) && r@[3 * i
                    + 2] == ribbon_vertex_spec(path@[i], self.thickness, 2),
    {
        let mut out: Vec<RibbonVertex> = Vec::new();
        let mut i: usize = 0;
        while i < path.len()
            invariant
                i <= path@.len(),
                out@.len() == 3 * i,
                forall|j: int|
                    0 <= j < i ==> (#[trigger] out@[3 * j]) == ribbon_vertex_spec(
                        path@[j],
                        self.thickness,
                        0,
                    ) && out@[3 * j + 1] == ribbon_vertex_spec(path@[j], self.thickness, 1)
                        && out@[3 * j + 2] == ribbon_vertex_spec(path@[j], self.thickness, 2),
            decreases path@.len() - i,
        {
            let p: WithOffset<WithNormal<Touch>> = path[i];
            let unit: WithNormal<Touch> = p.point.normalize();
            let shift: Vector = unit.normal.scale(self.thickness);
            let position: Vector = p.point.point.point;
            out.push(
                RibbonVertex {
                    position: position.sub(shift),
                    offset: Fixed { raw: -SCALE },
                    width: self.thickness,
                },
            );
            out.push(RibbonVertex { position, offset: Fixed { raw: 0 }, width: self.thickness });
            out.push(
                RibbonVertex {
                    position: position.add(shift),
                    offset: Fixed { raw: SCALE },
                    width: self.thickness,
                },
            );
            i = i + 1;
        }
        out
    }

    /// Emits the element list joining consecutive vertex triads, as
    /// 32-bit indices.
    pub fn ribbon_elements(&self, count: usize) -> (r: Vec<u32>)
        requires
            3 * count <= u32::MAX,
        ensures
            r@.map_values(|v: u32| v as int) == ribbon_elements_seq(count as int),
    {
        let mut out: Vec<u32> = Vec::new();
        if count == 0 {
            proof {
                assert(out@.map_values(|v: u32| v as int) =~= ribbon_elements_seq(count as int));
            }
            return out;
        }
        let mut i: usize = 1;
        while i < count
            invariant
                1 <= i <= count,
                3 * count <= u32::MAX,
                out@.map_values(|v: u32| v as int) == ribbon_elements_seq(i as int),
            decreases count - i,
        {
            let p1: u32 = (3 * (i - 1)) as u32;
            let p2: u32 = p1 + 3;
            out.push(p1);
            out.push(p2);
            out.push(p1 + 1);
            out.push(p1 + 1);
            out.push(p2);
            out.push(p2 + 1);
            out.push(p1 + 1);
            out.push(p2 + 1);
            out.push(p1 + 2);
            out.push(p1 + 2);
            out.push(p2 + 1);
            out.push(p2 + 2);
            proof {
                assert(out@.map_values(|v: u32| v as int) =~= ribbon_elements_seq(i as int)
                    + ribbon_indices(i as int));
            }
            i = i + 1;
        }
        proof {
            assert(out@.map_values(|v: u32| v as int) =~= ribbon_elements_seq(count as int));
        }
        out
    }

    /// The complete geometry of one stroke phase: the pipeline's points
    /// turned into ribbon vertices and elements.  Returns `None` exactly
    /// when the stroke has too many points for 32-bit vertex indices.
    pub fn phase_geometry(&self, path: &TouchList) -> (r: Option<(Vec<RibbonVertex>, Vec<u32>)>)
        requires
            path.pixel_size_spec().raw > 0,
        ensures
            r is Some <==> 3 * stroke_points_seq(path.points_spec(), path.pixel_size_spec()).len()
                <= u32::MAX,
            r is Some ==> ({
                let points = stroke_points_seq(path.points_spec(), path.pixel_size_spec());
                let vertices = (r->0).0;
                let elements = (r->0).1;
                &&& vertices@.len() == 3 * points.len()
                &&& forall|i: int|
                    0 <= i < points.len() ==> (#[trigger] vertices@[3 * i]) == ribbon_vertex_spec(
                        points[i],
                        self.thickness,
                        0,
                    ) && vertices@[3 * i + 1] == ribbon_vertex_spec(points[i], self.thickness, 1)
                        && vertices@[3 * i + 2] == ribbon_vertex_spec(points[i], self.thickness, 2)
                &&& elements@.map_values(|v: u32| v as int) == ribbon_elements_seq(
                    points.len() as int,
                )
            }),
    {
        let points: Vec<WithOffset<WithNormal<Touch>>> = stroke_points(path);
        if points.len() > (u32::MAX / 3) as usize {
            proof {
                assert(3 * points@.len() > u32::MAX);
            }
            return Option::None;
        }
        let vertices: Vec<RibbonVertex> = self.ribbon_vertices(&points);
        let elements: Vec<u32> = self.ribbon_elements(points.len());
        Option::Some((vertices, elements))
    }
}

} // verus!
