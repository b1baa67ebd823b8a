//! The scene shown by the display emulator: a progress bar, a circle and an ellipse
//! whose parameters the user picks.
use crate::coordinates::bounding_box::BBox;
use crate::framebuffer::{blank_canvas, paint, required_len, Color, Framebuffer, PixelDraw};
use crate::geometry::circle::{clamped_depth, ring, Circle};
use crate::geometry::ellipse::{capped_depth, elliptic_ring, Ellipse};
use crate::geometry::line::{bbox_line_pixels, ConstructMethod, Line};
use crate::geometry::rect::{area, Rect};
use crate::geometry::Drawable;
use crate::widgets::progress_bar::{progress_bar_painted, ProgressBar};
use vstd::prelude::*;

verus! {

/// Largest circle radius offered.
pub const MAX_RADIUS: u32 = 16;

/// Largest half-axis of the ellipse offered.
pub const MAX_AXIS: u32 = 50;

/// Largest emulated display width.
pub const MAX_WIDTH: i32 = 640;

/// Largest emulated display height.
pub const MAX_HEIGHT: i32 = 480;

/// Parameters of the emulated display and of the shapes drawn on it.
#[derive(Clone, Copy, Debug)]
pub struct DisplayEmulator {
    pub radius: u32,
    pub circle_thickness: u32,
    pub progress: u8,
    pub resolution: (i32, i32),
    pub ellipse_width: u32,
    pub ellipse_height: u32,
    pub ellipse_thickness: u32,
}

/// The scene drawn over `canvas`: the right part of the display cleared to white, a
/// progress bar, a circle and an ellipse, in that order.
pub open spec fn scene_painted(canvas: Map<(int, int), Color>, s: DisplayEmulator) -> Map<
    (int, int),
    Color,
> {
    let cleared = paint(canvas, area(BBox { start: (90, 0), end: (159, 31) }), Color::White);
    let bar = progress_bar_painted(
        cleared,
        BBox { start: (15, 5), end: (90, 15) },
        s.progress as int,
        Color::Black,
    );
    let circle = paint(
        bar,
        ring((120, 16), s.radius as int, clamped_depth(s.radius as int, s.circle_thickness as int)),
        Color::Black,
    );
    paint(
        circle,
        elliptic_ring(
            (25, 25),
            s.ellipse_width as int,
            s.ellipse_height as int,
            capped_depth(s.ellipse_width as int, s.ellipse_height as int, s.ellipse_thickness as int),
        ),
        Color::Black,
    )
}

impl DisplayEmulator {
    /// Every parameter lies in the range the emulator offers.
    pub open spec fn in_range(&self) -> bool {
        &&& 1 <= self.resolution.0 <= MAX_WIDTH
        &&& 1 <= self.resolution.1 <= MAX_HEIGHT
        &&& self.radius <= MAX_RADIUS
        &&& self.ellipse_width <= MAX_AXIS
        &&& self.ellipse_height <= MAX_AXIS
    }

    /// A blank display of the chosen resolution with the scene drawn on it; the
    /// pixels it holds are those of the resolution.
    pub fn render(&self) -> (r: Framebuffer)
        requires
            self.in_range(),
        ensures
            r.pixels() == scene_painted(
                blank_canvas(self.resolution.0 as int, self.resolution.1 as int),
                *self,
            ),
    {
        let (width, height) = self.resolution;
        assert(required_len(width as int, height as int, 8) <= 640 * 480) by (nonlinear_arith)
            requires
                1 <= width <= 640,
                1 <= height <= 480,
                required_len(width as int, height as int, 8) == ((height + 7) / 8) * width,
        ;
        let mut fb = Framebuffer::blank(width, height).unwrap();
        Rect::new_filled(BBox::new((90, 0), (159, 31)), Color::White).draw(&mut fb);
        ProgressBar::new(BBox::new((15, 5), (90, 15)), self.progress, Color::Black).draw(&mut fb);
        Circle::new((120, 16), self.radius, Color::Black).thickness(self.circle_thickness).draw(
            &mut fb,
        );
        Ellipse::new(self.ellipse_width, self.ellipse_height, (25, 25), Color::Black).thickness(
            self.ellipse_thickness,
        ).draw(&mut fb);
        fb
    }

    /// Marks the points `(p, p)` and `(p, p + 2)` in black, `p` being the progress.
    pub fn draw_markers(&self, fb: &mut Framebuffer)
        ensures
            final(fb).pixels() == paint(
                paint(old(fb).pixels(), set![(self.progress as int, self.progress as int)], Color::Black),
                set![(self.progress as int, self.progress + 2)],
                Color::Black,
            ),
    {
        let mut cords: (i32, i32) = (self.progress as i32, self.progress as i32);
        let first = BBox::new(cords, cords);
        Line::new(ConstructMethod::FromBbox { bbox: first, vertical: false }, Color::Black).draw(fb);
        cords.1 = cords.1 + 2;
        let second = BBox::new(cords, cords);
        Line::new(ConstructMethod::FromBbox { bbox: second, vertical: false }, Color::Black).draw(fb);
        assert(bbox_line_pixels(first, false) =~= set![(self.progress as int, self.progress as int)]);
        assert(bbox_line_pixels(second, false) =~= set![(self.progress as int, self.progress + 2)]);
    }
}

impl Default for DisplayEmulator {
    fn default() -> (r: Self)
        ensures
            r.radius == 5,
            r.circle_thickness == 1,
            r.progress == 0,
            r.resolution == (160i32, 32i32),
            r.ellipse_width == 5,
            r.ellipse_height == 3,
            r.ellipse_thickness == 1,
    {
        Self {
            radius: 5,
            circle_thickness: 1,
            progress: 0,
            resolution: (160, 32),
            ellipse_width: 5,
            ellipse_height: 3,
            ellipse_thickness: 1,
        }
    }
}

} // verus!
