//! The additive shading terms, one module per rendering mode.

pub mod ambient;
pub mod diffusion;
pub mod intersection;
pub mod specularity;
