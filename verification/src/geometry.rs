//! Value types of the renderer: colors, points, vectors.

pub mod color;
pub mod vector;

pub use color::Color;
pub use vector::{NormalVector, Point, Vector};
