//! An immediate-mode drawing library: sketches describe shapes and
//! transformations each frame, and the library turns them into an ordered
//! stream of GPU commands.
//!
//! Geometry is carried in fixed-point coordinates so that every shape
//! descriptor is an exact, hashable value; the GPU-facing side of the
//! pipeline (window, context, raw GL calls) lives outside this crate and
//! only consumes the command stream produced here.

pub mod cache;
pub mod canvas;
pub mod channel;
pub mod color;
pub mod command;
pub mod ellipse;
pub mod fixed;
pub mod glapp;
pub mod line;
pub mod matrix;
pub mod point;
pub mod rectangle;
pub mod shape;
pub mod sketch;
pub mod triangle;
pub mod transformation;
pub mod utils;

pub use fixed::SCALE;
