//! A small ray tracer over fixed-point coordinates.
//!
//! Every quantity that the renderer computes with is a scaled integer:
//! a value of one unit is stored as `SCALE` (1000), so the smallest
//! representable step is a thousandth of a unit.  All geometry and
//! shading arithmetic is exact integer arithmetic and is verified.

pub mod engine;
pub mod geometry;
pub mod image;
pub mod lsystem;
pub mod num;
pub mod premade_scenes;
pub mod scene;
pub mod scene1;
pub mod trig;
