//! Lights.  The one kind is a point light with an RGB intensity.

use vstd::prelude::*;
use crate::geometry::Point;
use crate::num::SCALE;

verus! {

/// A point light: a position and a fixed-point RGB intensity, where
/// `SCALE` stands for full intensity on a channel.
#[derive(Clone, Copy, Debug)]
pub struct PointLight {
    pos: Point,
    intensity: (i64, i64, i64),
}

impl PointLight {
    /// In the scene, with channel intensities in `[0, SCALE]`.
    pub open spec fn wf(self) -> bool {
        self.spec_pos().wf() && 0 <= self.spec_intensity().0 <= SCALE && 0
            <= self.spec_intensity().1 <= SCALE && 0 <= self.spec_intensity().2 <= SCALE
    }

    pub closed spec fn spec_pos(self) -> Point {
        self.pos
    }

    pub closed spec fn spec_intensity(self) -> (i64, i64, i64) {
        self.intensity
    }

    pub fn new(pos: Point, intensity: (i64, i64, i64)) -> (r: PointLight)
        ensures
            r.spec_pos() == pos,
            r.spec_intensity() == intensity,
    {
        PointLight { pos, intensity }
    }

    pub fn pos(&self) -> (r: Point)
        ensures
            r == self.spec_pos(),
    {
        self.pos
    }

    pub fn intensity(&self) -> (r: (i64, i64, i64))
        ensures
            r == self.spec_intensity(),
    {
        self.intensity
    }
}

} // verus!
