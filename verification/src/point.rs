//! Points in sketch space, in fixed-point coordinates.

use vstd::prelude::*;

use crate::fixed::{isqrt, is_isqrt, mul_div_sat, sat, tdiv, wide_mul, LIMIT, SCALE};

verus! {

/// A point (or vector) with fixed-point coordinates scaled by
/// [`SCALE`](crate::fixed::SCALE).
#[derive(Clone, Copy, Debug, PartialEq, Eq, Structural, Hash)]
pub struct Point {
    pub x: i64,
    pub y: i64,
    pub z: i64,
}

impl Point {
    /// All coordinates within the band every operation saturates into.
    pub open spec fn bounded(self) -> bool {
        self.bounded_within(LIMIT as int)
    }

    /// All coordinates within `[-m, m]`.
    pub open spec fn bounded_within(self, m: int) -> bool {
        &&& -m <= self.x <= m
        &&& -m <= self.y <= m
        &&& -m <= self.z <= m
    }

    /// The squared Euclidean length, as a mathematical integer.
    pub open spec fn norm2(self) -> int {
        self.x * self.x + self.y * self.y + self.z * self.z
    }

    pub fn new(x: i64, y: i64, z: i64) -> (p: Point)
        ensures
            p == (Point { x, y, z }),
    {
        Point { x, y, z }
    }

    /// The Euclidean length, rounded down to the nearest fixed-point step.
    pub fn mag(&self) -> (r: i64)
        requires
            self.bounded_within(2 * LIMIT as int),
        ensures
            is_isqrt(self.norm2(), r as int),
            r >= 0,
    {
        let xx = wide_mul(self.x, self.x);
        let yy = wide_mul(self.y, self.y);
        let zz = wide_mul(self.z, self.z);
        proof {
            lemma_square_bound(self.x as int);
            lemma_square_bound(self.y as int);
            lemma_square_bound(self.z as int);
        }
        let n: u128 = (xx + yy + zz) as u128;
        let r = isqrt(n);
        proof {
            assert(r as int * r as int <= n as int);
            assert(r as int <= LIMIT as int * 4) by (nonlinear_arith)
                requires
                    r as int * r as int <= n as int,
                    n as int <= 12 * ((LIMIT as int) * (LIMIT as int)),
                    r >= 0,
                    LIMIT == 0x100_0000_0000_0000i64,
            ;
        }
        r as i64
    }

    /// Rescale the vector so its length becomes `new_mag`.  A zero vector
    /// has no direction, so it is left unchanged.
    pub fn setMag(&mut self, new_mag: i64)
        requires
            old(self).bounded_within(2 * LIMIT as int),
        ensures
            *final(self) == spec_set_mag(*old(self), new_mag as int),
    {
        let m = self.mag();
        proof {
            let mm = choose|mm: int| is_isqrt(old(self).norm2(), mm);
            assert(is_isqrt(old(self).norm2(), m as int));
            lemma_isqrt_unique(old(self).norm2(), m as int, mm);
        }
        if m == 0 {
            return ;
        }
        self.x = mul_div_sat(self.x, new_mag, m, LIMIT);
        self.y = mul_div_sat(self.y, new_mag, m, LIMIT);
        self.z = mul_div_sat(self.z, new_mag, m, LIMIT);
    }

    /// Rescale the vector to unit length (a length of one whole unit).
    pub fn normalize(&mut self)
        requires
            old(self).bounded_within(2 * LIMIT as int),
        ensures
            *final(self) == spec_set_mag(*old(self), SCALE as int),
    {
        self.setMag(SCALE);
    }

    /// Componentwise sum.
    pub fn add(&self, other: &Point) -> (r: Point)
        requires
            self.bounded_within(2 * LIMIT as int),
            other.bounded_within(2 * LIMIT as int),
        ensures
            r == (Point {
                x: (self.x + other.x) as i64,
                y: (self.y + other.y) as i64,
                z: (self.z + other.z) as i64,
            }),
    {
        Point { x: self.x + other.x, y: self.y + other.y, z: self.z + other.z }
    }

    /// Componentwise difference.
    pub fn sub(&self, other: &Point) -> (r: Point)
        requires
            self.bounded(),
            other.bounded(),
        ensures
            r == (Point {
                x: (self.x - other.x) as i64,
                y: (self.y - other.y) as i64,
                z: (self.z - other.z) as i64,
            }),
            r.bounded_within(2 * LIMIT as int),
    {
        Point { x: self.x - other.x, y: self.y - other.y, z: self.z - other.z }
    }
}

/// What [`Point::setMag`] returns: each coordinate rescaled by the
/// ratio of `new_mag` to the current (rounded-down) length, or the
/// point itself when that length is zero.
pub open spec fn spec_set_mag(p: Point, new_mag: int) -> Point {
    let m = choose|m: int| is_isqrt(p.norm2(), m);
    if m == 0 {
        p
    } else {
        Point {
            x: sat(tdiv(p.x * new_mag, m), LIMIT as int) as i64,
            y: sat(tdiv(p.y * new_mag, m), LIMIT as int) as i64,
            z: sat(tdiv(p.z * new_mag, m), LIMIT as int) as i64,
        }
    }
}

/// The integer square root of a number is unique.
pub proof fn lemma_isqrt_unique(n: int, r1: int, r2: int)
    requires
        is_isqrt(n, r1),
        is_isqrt(n, r2),
    ensures
        r1 == r2,
{
    if r1 < r2 {
        assert((r1 + 1) * (r1 + 1) <= r2 * r2) by (nonlinear_arith)
            requires
                0 <= r1,
                r1 + 1 <= r2,
        ;
    }
    if r2 < r1 {
        assert((r2 + 1) * (r2 + 1) <= r1 * r1) by (nonlinear_arith)
            requires
                0 <= r2,
                r2 + 1 <= r1,
        ;
    }
}

proof fn lemma_square_bound(x: int)
    requires
        -2 * LIMIT <= x <= 2 * LIMIT,
    ensures
        0 <= x * x <= 4 * ((LIMIT as int) * (LIMIT as int)),
{
    assert(0 <= x * x <= 4 * ((LIMIT as int) * (LIMIT as int))) by (nonlinear_arith)
        requires
            -2 * LIMIT <= x <= 2 * LIMIT,
    ;
}

} // verus!

use crate::canvas::{draw_transition, Canvas};
use crate::ellipse::{ellipse_descriptor_view, ellipse_quarter_count, lemma_slots_to_flat, Ellipse};
use crate::matrix::{spec_mul, translation_view, Matrix};
use crate::shape::draw;

verus! {

impl Canvas {
    /// Draw a point as a small stroked ellipse of sixteen segments whose
    /// diameter is the current stroke weight.  `samples` holds one
    /// fixed-point (sine, cosine) pair per quarter sample.
    pub fn point(&mut self, p: Point, samples: &Vec<(i64, i64)>)
        requires
            old(self).wf(),
            p.bounded(),
            samples@.len() >= ellipse_quarter_count(16),
            forall|j: int|
                0 <= j < samples@.len() ==> -SCALE <= (#[trigger] samples@[j]).0 <= SCALE && -SCALE
                    <= samples@[j].1 <= SCALE,
            old(self).next_object_id < u64::MAX,
        ensures
            final(self).wf(),
            draw_transition(
                *old(self),
                *final(self),
                ellipse_descriptor_view(
                    16,
                    (old(self).sketch.stroke_weight as int * SCALE as int) as i64,
                    (old(self).sketch.stroke_weight as int * SCALE as int) as i64,
                    samples@,
                    spec_mul(
                        spec_mul(
                            old(self).sketch.transformation@,
                            old(self).transformations.top(),
                        ),
                        translation_view(p),
                    ),
                    old(self).sketch.stroke,
                    true,
                ),
            ),
    {
        let diameter = (self.sketch.stroke_weight as i64) * SCALE;
        let mut tm = self.sketch.transformation.duplicate();
        tm.mul(self.transformations.current());
        let centering = Matrix::translation(p);
        tm.mul(&centering);
        let color = self.sketch.stroke;
        let shape = Ellipse::new(diameter, diameter, 16, true, samples, &tm, color);
        proof {
            lemma_slots_to_flat(shape.vertex_data@, 16, diameter, diameter, samples@, tm@, color);
            assert(shape.index_data@ =~= Seq::new(16, |i: int| i as u32));
        }
        draw(&shape, self);
    }
}

} // verus!
