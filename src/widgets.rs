//! Composite widgets built from the geometric primitives.
pub mod progress_bar;
pub mod scroller;
pub mod table;

use crate::coordinates::bounding_box::BBox;
use crate::framebuffer::{paint, Color, Framebuffer, Orientation, PixelDraw};
use crate::geometry::Drawable;
use progress_bar::{progress_bar_fits, progress_bar_painted, ProgressBar};
use scroller::{scroller_fits, scroller_painted, Scroller};
use table::{grid, Table};
use vstd::prelude::*;

verus! {

impl Framebuffer {
    /// Draws a progress bar at `progress` percent. Returns `false`, drawing nothing,
    /// when `progress` is over one hundred.
    pub fn progress_bar(&mut self, bbox: BBox, progress: u32, color: &Color) -> (r: bool)
        requires
            progress_bar_fits(bbox),
        ensures
            r == (progress <= 100),
            r ==> final(self).pixels() == progress_bar_painted(
                old(self).pixels(),
                bbox,
                progress as int,
                *color,
            ),
            !r ==> final(self).pixels() == old(self).pixels(),
    {
        if progress > 100 {
            return false;
        }
        ProgressBar::new(bbox, progress as u8, *color).draw(self);
        true
    }

    /// Draws a scroller; a horizontal one draws nothing. Always returns `true`.
    pub fn scroller(
        &mut self,
        bbox: BBox,
        position: i32,
        width: i32,
        orient: Orientation,
        color: &Color,
    ) -> (r: bool)
        requires
            scroller_fits(bbox, position as int, width as int, orient),
        ensures
            r,
            final(self).pixels() == scroller_painted(
                old(self).pixels(),
                bbox,
                position as int,
                width as int,
                orient,
                *color,
            ),
    {
        Scroller::new(bbox, position, width, orient, *color).draw(self);
        true
    }

    /// Draws a grid of `rows` by `columns` over `bbox`. Always returns `true`.
    pub fn table(&mut self, bbox: &BBox, rows: i32, columns: i32, color: &Color) -> (r: bool)
        ensures
            r,
            final(self).pixels() == paint(
                old(self).pixels(),
                grid(*bbox, rows as int, columns as int),
                *color,
            ),
    {
        Table::new(*bbox, rows, columns, *color).draw(self);
        true
    }
}

} // verus!
