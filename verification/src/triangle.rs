//! Triangles: the builder reorders its three corners so they always
//! wind anti-clockwise, derives texture coordinates from the triangle's
//! bounding box, and emits three transformed vertices.

use vstd::prelude::*;

use crate::canvas::{draw_transition, Canvas};
use crate::color::Color;
use crate::fixed::SCALE;
use crate::matrix::{spec_mul, spec_transform_point, MatView, Matrix};
use crate::point::Point;
use crate::shape::{draw, vertex_block, zero_vec, assign_vertex, DescView, Shape};
use crate::utils::{bounding_box, have_anticlockwise_winding, map_i64, signed_area2, spec_map};

verus! {

/// The smaller of three values.
pub open spec fn min3(a: int, b: int, c: int) -> int {
    if a <= b && a <= c {
        a
    } else if b <= c {
        b
    } else {
        c
    }
}

/// The larger of three values.
pub open spec fn max3(a: int, b: int, c: int) -> int {
    if a >= b && a >= c {
        a
    } else if b >= c {
        b
    } else {
        c
    }
}

/// The corner order the builder emits: the given order when it already
/// winds anti-clockwise, otherwise the first two corners swapped, which
/// flips the winding.
pub open spec fn spec_triangle_order(p1: Point, p2: Point, p3: Point) -> (Point, Point, Point) {
    if signed_area2(p1, p2, p3) > 0 {
        (p1, p2, p3)
    } else {
        (p2, p1, p3)
    }
}

/// One emitted triangle vertex: the corner transformed by `m`, with
/// texture coordinates interpolated over the triangle's bounding box.
pub open spec fn spec_triangle_vertex(
    q: Point,
    p1: Point,
    p2: Point,
    p3: Point,
    m: MatView,
    c: Color,
) -> Seq<i64> {
    let l = min3(p1.x as int, p2.x as int, p3.x as int);
    let r = max3(p1.x as int, p2.x as int, p3.x as int);
    let b = min3(p1.y as int, p2.y as int, p3.y as int);
    let t = max3(p1.y as int, p2.y as int, p3.y as int);
    vertex_block(
        spec_transform_point(m, q),
        spec_map(q.x as int, l, r, 0, SCALE as int) as i64,
        spec_map(q.y as int, b, t, 0, SCALE as int) as i64,
        c,
    )
}

/// The full vertex array of a triangle.
pub open spec fn spec_triangle_vertex_data(
    p1: Point,
    p2: Point,
    p3: Point,
    m: MatView,
    c: Color,
) -> Seq<i64> {
    let (q1, q2, q3) = spec_triangle_order(p1, p2, p3);
    spec_triangle_vertex(q1, p1, p2, p3, m, c) + spec_triangle_vertex(q2, p1, p2, p3, m, c)
        + spec_triangle_vertex(q3, p1, p2, p3, m, c)
}

/// The canonical descriptor of a filled triangle.
pub open spec fn triangle_descriptor_view(
    p1: Point,
    p2: Point,
    p3: Point,
    m: MatView,
    c: Color,
) -> DescView {
    DescView {
        vertex_data: spec_triangle_vertex_data(p1, p2, p3, m, c),
        index_data: seq![0u32, 1u32, 2u32],
        vertex_shader: None,
        fragment_shader: None,
        is_stroke: false,
    }
}

/// A built triangle, ready to draw.
#[derive(Debug)]
pub struct Triangle {
    pub vertex_data: Vec<i64>,
    pub index_data: Vec<u32>,
}

impl Triangle {
    /// Build a triangle from its corners, the current composed
    /// transform, and the fill color.  The emitted corner order always
    /// winds anti-clockwise: its signed area is never negative,
    /// whatever order the caller gave the corners in.
    pub fn new(p1: Point, p2: Point, p3: Point, transform: &Matrix, color: Color) -> (t: Triangle)
        requires
            p1.bounded(),
            p2.bounded(),
            p3.bounded(),
            transform.wf(),
            transform@.rows == 4,
            transform@.cols == 4,
        ensures
            t.vertex_data@ == spec_triangle_vertex_data(p1, p2, p3, transform@, color),
            t.index_data@ == seq![0u32, 1u32, 2u32],
            ({
                let (q1, q2, q3) = spec_triangle_order(p1, p2, p3);
                signed_area2(q1, q2, q3) >= 0
            }),
    {
        proof {
            if signed_area2(p1, p2, p3) <= 0 {
                crate::utils::lemma_swap_negates_area(p1, p2, p3);
            }
        }
        let acw = have_anticlockwise_winding(&p1, &p2, &p3);
        let q1 = if acw {
            p1
        } else {
            p2
        };
        let q2 = if acw {
            p2
        } else {
            p1
        };
        let q3 = p3;
        let mut pts: Vec<Point> = Vec::new();
        pts.push(q1);
        pts.push(q2);
        pts.push(q3);
        let bbox = bounding_box(&pts);
        let l = bbox.0;
        let top = bbox.1;
        let r = bbox.2;
        let bottom = bbox.3;
        proof {
            assert(pts@[0] == q1 && pts@[1] == q2 && pts@[2] == q3);
            assert(l == min3(p1.x as int, p2.x as int, p3.x as int));
            assert(r == max3(p1.x as int, p2.x as int, p3.x as int));
            assert(bottom == min3(p1.y as int, p2.y as int, p3.y as int));
            assert(top == max3(p1.y as int, p2.y as int, p3.y as int));
        }
        let mut vd = zero_vec(27);
        let t1 = transform.transform_point(&q1);
        let t2 = transform.transform_point(&q2);
        let t3 = transform.transform_point(&q3);
        let u1 = map_i64(q1.x, l, r, 0, SCALE);
        let v1 = map_i64(q1.y, bottom, top, 0, SCALE);
        let u2 = map_i64(q2.x, l, r, 0, SCALE);
        let v2 = map_i64(q2.y, bottom, top, 0, SCALE);
        let u3 = map_i64(q3.x, l, r, 0, SCALE);
        let v3 = map_i64(q3.y, bottom, top, 0, SCALE);
        assign_vertex(&mut vd, 0, &t1, u1, v1, &color);
        assign_vertex(&mut vd, 9, &t2, u2, v2, &color);
        assign_vertex(&mut vd, 18, &t3, u3, v3, &color);
        let mut id: Vec<u32> = Vec::new();
        id.push(0);
        id.push(1);
        id.push(2);
        proof {
            assert(vd@ =~= vd@.subrange(0, 9) + vd@.subrange(9, 18) + vd@.subrange(18, 27));
            assert(vd@.subrange(0, 9) == spec_triangle_vertex(q1, p1, p2, p3, transform@, color));
            assert(vd@.subrange(9, 18) == spec_triangle_vertex(q2, p1, p2, p3, transform@, color));
            assert(vd@.subrange(18, 27) == spec_triangle_vertex(q3, p1, p2, p3, transform@, color));
            assert(id@ =~= seq![0u32, 1u32, 2u32]);
        }
        Triangle { vertex_data: vd, index_data: id }
    }
}

impl Shape for Triangle {
    open spec fn model(&self) -> DescView {
        DescView {
            vertex_data: self.vertex_data@,
            index_data: self.index_data@,
            vertex_shader: None,
            fragment_shader: None,
            is_stroke: false,
        }
    }

    fn vertex_data(&self) -> (r: &Vec<i64>) {
        &self.vertex_data
    }

    fn index_data(&self) -> (r: &Vec<u32>) {
        &self.index_data
    }

    fn vertex_shader(&self) -> (r: Option<String>) {
        None
    }

    fn fragment_shader(&self) -> (r: Option<String>) {
        None
    }

    fn is_stroke(&self) -> (r: bool) {
        false
    }
}

impl Canvas {
    /// Draw a filled triangle under the current transform and fill
    /// color.
    pub fn triangle(&mut self, p1: Point, p2: Point, p3: Point)
        requires
            old(self).wf(),
            p1.bounded(),
            p2.bounded(),
            p3.bounded(),
            old(self).next_object_id < u64::MAX,
        ensures
            final(self).wf(),
            draw_transition(
                *old(self),
                *final(self),
                triangle_descriptor_view(
                    p1,
                    p2,
                    p3,
                    spec_mul(old(self).sketch.transformation@, old(self).transformations.top()),
                    old(self).sketch.fill,
                ),
            ),
    {
        let mut tm = self.sketch.transformation.duplicate();
        tm.mul(self.transformations.current());
        let color = self.sketch.fill;
        let shape = Triangle::new(p1, p2, p3, &tm, color);
        draw(&shape, self);
    }
}

} // verus!
