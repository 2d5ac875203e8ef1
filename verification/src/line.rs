//! Lines: a line is rendered as a stroked quad between its endpoints,
//! with small circular end caps added only when the stroke is heavy
//! enough that the bare quad would show its square ends.

use vstd::prelude::*;

use crate::canvas::{draw_transition, spec_draw_shape, Canvas};
use crate::ellipse::{ellipse_descriptor_view, ellipse_quarter_count};
use crate::fixed::SCALE;
use crate::matrix::{spec_mul, translation_view};
use crate::point::Point;
use crate::rectangle::{rect_descriptor_view, Rectangle};
use crate::shape::draw;

verus! {

/// Above this stroke weight a line gets circular end caps.
pub const CAP_THRESHOLD: u32 = 4;

impl Canvas {
    /// Draw a line from `start` to `end` as a stroked quad of the
    /// current stroke weight; when the weight exceeds
    /// [`CAP_THRESHOLD`], a round cap (a point) is drawn on each
    /// endpoint as well.  `samples` holds the quarter-circle pairs the
    /// caps are built from.
    pub fn line(&mut self, start: Point, end: Point, samples: &Vec<(i64, i64)>)
        requires
            old(self).wf(),
            start.bounded(),
            end.bounded(),
            old(self).sketch.stroke_weight < u32::MAX,
            samples@.len() >= ellipse_quarter_count(16),
            forall|j: int|
                0 <= j < samples@.len() ==> -SCALE <= (#[trigger] samples@[j]).0 <= SCALE && -SCALE
                    <= samples@[j].1 <= SCALE,
            old(self).next_object_id < u64::MAX - 2,
        ensures
            final(self).wf(),
            ({
                let m = spec_mul(
                    old(self).sketch.transformation@,
                    old(self).transformations.top(),
                );
                let w = old(self).sketch.stroke_weight;
                let stroke = old(self).sketch.stroke;
                let capacity = old(self).cache.capacity as nat;
                let d1 = rect_descriptor_view(start, end, true, true, w, m, stroke);
                let eff1 = spec_draw_shape(
                    old(self).cache.view_entries(),
                    capacity,
                    old(self).next_object_id,
                    d1,
                );
                if w > CAP_THRESHOLD {
                    let dia = (w as int * SCALE as int) as i64;
                    let d2 = ellipse_descriptor_view(
                        16,
                        dia,
                        dia,
                        samples@,
                        spec_mul(m, translation_view(start)),
                        stroke,
                        true,
                    );
                    let d3 = ellipse_descriptor_view(
                        16,
                        dia,
                        dia,
                        samples@,
                        spec_mul(m, translation_view(end)),
                        stroke,
                        true,
                    );
                    let eff2 = spec_draw_shape(eff1.cache, capacity, eff1.next_object_id, d2);
                    let eff3 = spec_draw_shape(eff2.cache, capacity, eff2.next_object_id, d3);
                    &&& final(self).cache.view_entries() == eff3.cache
                    &&& final(self).cache.capacity == old(self).cache.capacity
                    &&& final(self).next_object_id == eff3.next_object_id
                    &&& final(self).queue_view() == old(self).queue_view() + eff1.pushed
                        + eff2.pushed + eff3.pushed
                    &&& final(self).history@ == old(self).history@ + eff1.pushed + eff2.pushed
                        + eff3.pushed
                    &&& final(self).sketch == old(self).sketch
                    &&& final(self).transformations == old(self).transformations
                } else {
                    draw_transition(*old(self), *final(self), d1)
                }
            }),
    {
        let mut tm = self.sketch.transformation.duplicate();
        tm.mul(self.transformations.current());
        let color = self.sketch.stroke;
        let weight = self.sketch.stroke_weight;
        let shape = Rectangle::new(start, end, true, true, weight, &tm, color);
        draw(&shape, self);
        let ghost mid1 = *self;
        let width = self.get_stroke_weight();
        if width > CAP_THRESHOLD {
            self.point(start, samples);
            let ghost mid2 = *self;
            self.point(end, samples);
            proof {
                assert(self.queue_view() =~= old(self).queue_view() + spec_draw_shape(
                    old(self).cache.view_entries(),
                    old(self).cache.capacity as nat,
                    old(self).next_object_id,
                    rect_descriptor_view(start, end, true, true, weight, tm@, color),
                ).pushed + spec_draw_shape(
                    mid1.cache.view_entries(),
                    mid1.cache.capacity as nat,
                    mid1.next_object_id,
                    ellipse_descriptor_view(
                        16,
                        (weight as int * SCALE as int) as i64,
                        (weight as int * SCALE as int) as i64,
                        samples@,
                        spec_mul(tm@, translation_view(start)),
                        color,
                        true,
                    ),
                ).pushed + spec_draw_shape(
                    mid2.cache.view_entries(),
                    mid2.cache.capacity as nat,
                    mid2.next_object_id,
                    ellipse_descriptor_view(
                        16,
                        (weight as int * SCALE as int) as i64,
                        (weight as int * SCALE as int) as i64,
                        samples@,
                        spec_mul(tm@, translation_view(end)),
                        color,
                        true,
                    ),
                ).pushed);
                assert(self.history@ =~= old(self).history@ + spec_draw_shape(
                    old(self).cache.view_entries(),
                    old(self).cache.capacity as nat,
                    old(self).next_object_id,
                    rect_descriptor_view(start, end, true, true, weight, tm@, color),
                ).pushed + spec_draw_shape(
                    mid1.cache.view_entries(),
                    mid1.cache.capacity as nat,
                    mid1.next_object_id,
                    ellipse_descriptor_view(
                        16,
                        (weight as int * SCALE as int) as i64,
                        (weight as int * SCALE as int) as i64,
                        samples@,
                        spec_mul(tm@, translation_view(start)),
                        color,
                        true,
                    ),
                ).pushed + spec_draw_shape(
                    mid2.cache.view_entries(),
                    mid2.cache.capacity as nat,
                    mid2.next_object_id,
                    ellipse_descriptor_view(
                        16,
                        (weight as int * SCALE as int) as i64,
                        (weight as int * SCALE as int) as i64,
                        samples@,
                        spec_mul(tm@, translation_view(end)),
                        color,
                        true,
                    ),
                ).pushed);
            }
        }
    }
}

} // verus!
