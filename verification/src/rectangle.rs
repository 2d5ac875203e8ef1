//! Rectangles, and the stroked quads that lines are rendered as.
//!
//! A plain rectangle derives its two missing corners from the top-left
//! and bottom-right it was given.  When the quad stands for a line, the
//! two given points are treated as the segment's endpoints instead, and
//! each corner is offset perpendicularly by half the stroke weight
//! (rounded up), so the quad covers the stroked segment.

use vstd::prelude::*;

use crate::canvas::{draw_transition, Canvas};
use crate::color::Color;
use crate::fixed::{LIMIT, SCALE};
use crate::matrix::{spec_mul, spec_transform_point, MatView, Matrix};
use crate::point::{spec_set_mag, Point};
use crate::shape::{assign_vertex, draw, vertex_block, zero_vec, DescView, Shape};

verus! {

/// The perpendicular half-stroke offset for a line from `tl` to `br`:
/// the segment direction scaled to length `ceil(weight / 2)`, turned a
/// quarter turn anti-clockwise.
pub open spec fn spec_line_offset(tl: Point, br: Point, weight: u32) -> Point {
    let half_mag = ((weight + 1) as int / 2) * SCALE;
    let d = Point {
        x: (br.x - tl.x) as i64,
        y: (br.y - tl.y) as i64,
        z: (br.z - tl.z) as i64,
    };
    let line = spec_set_mag(d, half_mag);
    Point { x: (-line.y) as i64, y: line.x, z: line.z }
}

/// The four corners the builder emits, in the order top-left,
/// bottom-left, top-right, bottom-right.
pub open spec fn spec_rect_corners(tl: Point, br: Point, is_line: bool, weight: u32) -> (
    Point,
    Point,
    Point,
    Point,
) {
    if is_line {
        let acw = spec_line_offset(tl, br, weight);
        let cw = Point { x: (-acw.x) as i64, y: (-acw.y) as i64, z: acw.z };
        (
            Point { x: (tl.x + acw.x) as i64, y: (tl.y + acw.y) as i64, z: (tl.z + acw.z) as i64 },
            Point { x: (tl.x + cw.x) as i64, y: (tl.y + cw.y) as i64, z: (tl.z + cw.z) as i64 },
            Point { x: (br.x + acw.x) as i64, y: (br.y + acw.y) as i64, z: (br.z + acw.z) as i64 },
            Point { x: (br.x + cw.x) as i64, y: (br.y + cw.y) as i64, z: (br.z + cw.z) as i64 },
        )
    } else {
        (
            tl,
            Point { x: tl.x, y: br.y, z: br.z },
            Point { x: br.x, y: tl.y, z: tl.z },
            br,
        )
    }
}

/// The full vertex array of a rectangle or stroked-line quad: the four
/// corners transformed, with fixed texture coordinates per corner.
pub open spec fn spec_rect_vertex_data(
    tl: Point,
    br: Point,
    is_line: bool,
    weight: u32,
    m: MatView,
    c: Color,
) -> Seq<i64> {
    let (c0, c1, c2, c3) = spec_rect_corners(tl, br, is_line, weight);
    vertex_block(spec_transform_point(m, c0), 0, SCALE, c) + vertex_block(
        spec_transform_point(m, c1),
        0,
        0,
        c,
    ) + vertex_block(spec_transform_point(m, c2), SCALE, SCALE, c) + vertex_block(
        spec_transform_point(m, c3),
        SCALE,
        0,
        c,
    )
}

/// The canonical descriptor of a rectangle or stroked-line quad.
pub open spec fn rect_descriptor_view(
    tl: Point,
    br: Point,
    is_stroke: bool,
    is_line: bool,
    weight: u32,
    m: MatView,
    c: Color,
) -> DescView {
    DescView {
        vertex_data: spec_rect_vertex_data(tl, br, is_line, weight, m, c),
        index_data: seq![0u32, 1u32, 2u32, 3u32],
        vertex_shader: None,
        fragment_shader: None,
        is_stroke: is_stroke,
    }
}

/// Write the four corner vertices of a rectangle (or stroked-line quad)
/// into a flat vertex array.
pub fn get_rect_vertex_data(
    top_left: Point,
    bottom_right: Point,
    is_line: bool,
    stroke_weight: u32,
    transform: &Matrix,
    color: &Color,
    vertex_data: &mut Vec<i64>,
)
    requires
        top_left.bounded(),
        bottom_right.bounded(),
        stroke_weight < u32::MAX,
        transform.wf(),
        transform@.rows == 4,
        transform@.cols == 4,
        old(vertex_data)@.len() == 36,
    ensures
        final(vertex_data)@ == spec_rect_vertex_data(
            top_left,
            bottom_right,
            is_line,
            stroke_weight,
            transform@,
            *color,
        ),
{
    let (c0, c1, c2, c3): (Point, Point, Point, Point) = if is_line {
        let half: i64 = (((stroke_weight as i64) + 1) / 2) * SCALE;
        let d = bottom_right.sub(&top_left);
        let mut line = d;
        line.setMag(half);
        proof {
            lemma_set_mag_bounded(d, half as int);
        }
        let acw = Point { x: -line.y, y: line.x, z: line.z };
        let cw = Point { x: line.y, y: -line.x, z: line.z };
        (top_left.add(&acw), top_left.add(&cw), bottom_right.add(&acw), bottom_right.add(&cw))
    } else {
        (
            top_left,
            Point { x: top_left.x, y: bottom_right.y, z: bottom_right.z },
            Point { x: bottom_right.x, y: top_left.y, z: top_left.z },
            bottom_right,
        )
    };
    let t0 = transform.transform_point(&c0);
    let t1 = transform.transform_point(&c1);
    let t2 = transform.transform_point(&c2);
    let t3 = transform.transform_point(&c3);
    assign_vertex(vertex_data, 0, &t0, 0, SCALE, color);
    assign_vertex(vertex_data, 9, &t1, 0, 0, color);
    assign_vertex(vertex_data, 18, &t2, SCALE, SCALE, color);
    assign_vertex(vertex_data, 27, &t3, SCALE, 0, color);
    proof {
        assert(vertex_data@ =~= vertex_data@.subrange(0, 9) + vertex_data@.subrange(9, 18)
            + vertex_data@.subrange(18, 27) + vertex_data@.subrange(27, 36));
    }
}

/// The result of `setMag` stays inside the saturation band.
proof fn lemma_set_mag_bounded(d: Point, new_mag: int)
    requires
        d.bounded_within(2 * LIMIT as int),
    ensures
        spec_set_mag(d, new_mag).bounded_within(2 * LIMIT as int),
{
}

/// A built rectangle (or stroked-line quad), ready to draw.
#[derive(Debug)]
pub struct Rectangle {
    pub vertex_data: Vec<i64>,
    pub index_data: Vec<u32>,
    pub is_stroke: bool,
}

impl Rectangle {
    /// Build a rectangle from its top-left and bottom-right corners, or
    /// a stroked-line quad from the segment's endpoints.
    pub fn new(
        top_left: Point,
        bottom_right: Point,
        is_stroke: bool,
        is_line: bool,
        stroke_weight: u32,
        transform: &Matrix,
        color: Color,
    ) -> (r: Rectangle)
        requires
            top_left.bounded(),
            bottom_right.bounded(),
            stroke_weight < u32::MAX,
            transform.wf(),
            transform@.rows == 4,
            transform@.cols == 4,
        ensures
            r.vertex_data@ == spec_rect_vertex_data(
                top_left,
                bottom_right,
                is_line,
                stroke_weight,
                transform@,
                color,
            ),
            r.index_data@ == seq![0u32, 1u32, 2u32, 3u32],
            r.is_stroke == is_stroke,
    {
        let mut vd = zero_vec(36);
        get_rect_vertex_data(
            top_left,
            bottom_right,
            is_line,
            stroke_weight,
            transform,
            &color,
            &mut vd,
        );
        let mut id: Vec<u32> = Vec::new();
        id.push(0);
        id.push(1);
        id.push(2);
        id.push(3);
        proof {
            assert(id@ =~= seq![0u32, 1u32, 2u32, 3u32]);
        }
        Rectangle { vertex_data: vd, index_data: id, is_stroke }
    }
}

impl Shape for Rectangle {
    open spec fn model(&self) -> DescView {
        DescView {
            vertex_data: self.vertex_data@,
            index_data: self.index_data@,
            vertex_shader: None,
            fragment_shader: None,
            is_stroke: self.is_stroke,
        }
    }

    fn vertex_data(&self) -> (r: &Vec<i64>) {
        &self.vertex_data
    }

    fn index_data(&self) -> (r: &Vec<u32>) {
        &self.index_data
    }

    fn vertex_shader(&self) -> (r: Option<String>) {
        None
    }

    fn fragment_shader(&self) -> (r: Option<String>) {
        None
    }

    fn is_stroke(&self) -> (r: bool) {
        self.is_stroke
    }
}

impl Canvas {
    /// Draw a filled rectangle between its top-left and bottom-right
    /// corners, under the current transform and fill color.
    pub fn rect(&mut self, top_left: Point, bottom_right: Point)
        requires
            old(self).wf(),
            top_left.bounded(),
            bottom_right.bounded(),
            old(self).next_object_id < u64::MAX,
        ensures
            final(self).wf(),
            draw_transition(
                *old(self),
                *final(self),
                rect_descriptor_view(
                    top_left,
                    bottom_right,
                    false,
                    false,
                    old(self).sketch.stroke_weight,
                    spec_mul(old(self).sketch.transformation@, old(self).transformations.top()),
                    old(self).sketch.fill,
                ),
            ),
    {
        let mut tm = self.sketch.transformation.duplicate();
        tm.mul(self.transformations.current());
        let color = self.sketch.fill;
        let weight = self.sketch.stroke_weight;
        proof {
            lemma_rect_ignores_weight(
                top_left,
                bottom_right,
                weight,
                tm@,
                color,
            );
        }
        let shape = Rectangle::new(
            top_left,
            bottom_right,
            false,
            false,
            if weight < u32::MAX {
                weight
            } else {
                0
            },
            &tm,
            color,
        );
        draw(&shape, self);
    }
}

/// A plain (non-line) rectangle's vertex data does not depend on the
/// stroke weight.
proof fn lemma_rect_ignores_weight(tl: Point, br: Point, weight: u32, m: MatView, c: Color)
    ensures
        forall|w2: u32| #[trigger] spec_rect_vertex_data(tl, br, false, w2, m, c)
            == spec_rect_vertex_data(tl, br, false, weight, m, c),
{
}

} // verus!
