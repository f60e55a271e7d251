//! Ready-made scenes for trying the renderer out.

pub mod scene1;
pub mod scene2;
