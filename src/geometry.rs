//! Shapes that draw themselves onto any pixel sink.
pub mod circle;
pub mod ellipse;
pub mod line;
pub mod rect;
pub mod triangle;

use crate::framebuffer::{Color, PixelDraw};
use vstd::prelude::*;

verus! {

/// A shape or widget that can render itself onto a pixel sink.
pub trait Drawable {
    /// Every coordinate that drawing computes fits an `i32`.
    spec fn fits(&self) -> bool;

    /// What drawing makes of a sink whose pixels are `canvas`.
    spec fn painted(&self, canvas: Map<(int, int), Color>) -> Map<(int, int), Color>;

    fn draw<C: PixelDraw>(&self, canvas: &mut C)
        requires
            self.fits(),
        ensures
            final(canvas).pixels() == self.painted(old(canvas).pixels()),
    ;
}

} // verus!
