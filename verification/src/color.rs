//! Colors with four fixed-point channels.
//!
//! A channel stores a value in `[0, 1]` scaled by `CHANNEL_MAX`, so colors
//! compare bit-exactly and can serve as part of a shape-cache key.

use vstd::prelude::*;

verus! {

/// The channel value standing for 1.0 (full intensity).
pub const CHANNEL_MAX: u32 = 65536;

/// An RGBA color; each channel is a fixed-point value in
/// `[0, CHANNEL_MAX]` for the nominal range, though larger raw values are
/// carried through unchanged.
#[derive(Clone, Copy, Debug, PartialEq, Eq, Structural, Hash)]
pub struct Color {
    pub r: u32,
    pub g: u32,
    pub b: u32,
    pub a: u32,
}

impl Color {
    /// A color from all four channels.
    pub fn rgba(r: u32, g: u32, b: u32, a: u32) -> (c: Color)
        ensures
            c == (Color { r, g, b, a }),
    {
        Color { r, g, b, a }
    }

    /// An opaque color from three channels.
    pub fn rgb(r: u32, g: u32, b: u32) -> (c: Color)
        ensures
            c == (Color { r, g, b, a: CHANNEL_MAX }),
    {
        Color { r, g, b, a: CHANNEL_MAX }
    }

    /// An opaque gray: the same value on all three color channels.
    pub fn gray(v: u32) -> (c: Color)
        ensures
            c == (Color { r: v, g: v, b: v, a: CHANNEL_MAX }),
    {
        Color { r: v, g: v, b: v, a: CHANNEL_MAX }
    }

    /// A fully transparent black, the value set by
    /// `noFill` and `noStroke`.
    pub fn transparent() -> (c: Color)
        ensures
            c == (Color { r: 0, g: 0, b: 0, a: 0 }),
    {
        Color { r: 0, g: 0, b: 0, a: 0 }
    }

    /// The channels in r, g, b, a order.
    pub fn as_slice(&self) -> (s: [u32; 4])
        ensures
            s@ == seq![self.r, self.g, self.b, self.a],
    {
        let s = [self.r, self.g, self.b, self.a];
        proof {
            assert(s@ =~= seq![self.r, self.g, self.b, self.a]);
        }
        s
    }
}

} // verus!
