//! Flattening of a tree of drawing primitives into a list of render-ready
//! layers.
//!
//! Geometry is carried in integer (logical pixel) coordinates throughout, so
//! that every coordinate computation can be stated and proved exactly.

pub mod geometry;
pub mod transformation;
pub mod primitive;
pub mod layer;
