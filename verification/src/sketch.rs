//! The sketch state store: canvas size, current colors, stroke weight,
//! and the base transform that maps sketch coordinates to clip space.

use vstd::prelude::*;

use crate::color::{Color, CHANNEL_MAX};
use crate::matrix::{identity_view, Matrix};

verus! {

/// The width a sketch window opens with.
pub const DEFAULT_WIDTH: u32 = 640;

/// The height a sketch window opens with.
pub const DEFAULT_HEIGHT: u32 = 360;

/// The mutable state every drawing primitive reads.
#[derive(Debug)]
pub struct Sketch {
    pub width: u32,
    pub height: u32,
    pub background: Color,
    pub fill: Color,
    pub stroke: Color,
    pub stroke_weight: u32,
    pub transformation: Matrix,
}

impl Sketch {
    /// Well-formed: the base transform is a well-formed 4x4.
    pub open spec fn wf(self) -> bool {
        &&& self.transformation.wf()
        &&& self.transformation@.rows == 4
        &&& self.transformation@.cols == 4
    }

    /// The default state: a 640x360 canvas, white background, green
    /// fill, black stroke, a stroke weight of one, and the identity as
    /// base transform.
    pub fn new() -> (s: Sketch)
        ensures
            s.wf(),
            s.width == DEFAULT_WIDTH,
            s.height == DEFAULT_HEIGHT,
            s.background == (Color {
                r: CHANNEL_MAX,
                g: CHANNEL_MAX,
                b: CHANNEL_MAX,
                a: CHANNEL_MAX,
            }),
            s.fill == (Color { r: 0, g: CHANNEL_MAX, b: 0, a: CHANNEL_MAX }),
            s.stroke == (Color { r: 0, g: 0, b: 0, a: CHANNEL_MAX }),
            s.stroke_weight == 1,
            s.transformation@ == identity_view(4, 4),
    {
        Sketch {
            width: DEFAULT_WIDTH,
            height: DEFAULT_HEIGHT,
            background: Color::gray(CHANNEL_MAX),
            fill: Color::rgb(0, CHANNEL_MAX, 0),
            stroke: Color::gray(0),
            stroke_weight: 1,
            transformation: Matrix::identity(4, 4),
        }
    }
}

} // verus!
