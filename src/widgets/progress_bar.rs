//! A horizontal progress bar.
use crate::coordinates::bounding_box::{Axis, BBox};
use crate::framebuffer::{paint, Color, PixelDraw};
use crate::geometry::rect::{area, outline, Rect};
use crate::geometry::Drawable;
use vstd::arithmetic::div_mod::{
    lemma_fundamental_div_mod,
    lemma_fundamental_div_mod_converse_div,
    lemma_mod_bound,
};
use vstd::prelude::*;

verus! {

/// `progress` kept to at most one hundred.
pub open spec fn clamped_progress(progress: int) -> int {
    if progress > 100 {
        100
    } else {
        progress
    }
}

/// The pixels strictly inside the border of `bbox`, spanning `x0 ..= x1` and
/// `y0 ..= y1`.
pub open spec fn span(x0: int, x1: int, y0: int, y1: int) -> Set<(int, int)> {
    Set::new(|p: (int, int)| x0 <= p.0 <= x1 && y0 <= p.1 <= y1)
}

/// Number of columns inside the one-pixel border of `bbox`.
pub open spec fn inner_columns(bbox: BBox) -> int {
    if bbox.end.0 - bbox.start.0 >= 2 {
        bbox.end.0 - bbox.start.0 - 1
    } else {
        0
    }
}

/// First column of the unfilled part: the filled part covers `progress` percent of
/// the inner columns, rounded down.
pub open spec fn split_column(bbox: BBox, progress: int) -> int {
    bbox.start.0 + 1 + inner_columns(bbox) * clamped_progress(progress) / 100
}

/// A progress bar over `bbox` at `progress` percent: the outline of the box in
/// `color`, then inside its border the filled part in `color` and the rest white.
pub open spec fn progress_bar_painted(
    canvas: Map<(int, int), Color>,
    bbox: BBox,
    progress: int,
    color: Color,
) -> Map<(int, int), Color> {
    let split = split_column(bbox, progress);
    let filled = span(bbox.start.0 + 1, split - 1, bbox.start.1 + 1, bbox.end.1 - 1);
    let empty = span(split, bbox.end.0 - 1, bbox.start.1 + 1, bbox.end.1 - 1);
    paint(paint(paint(canvas, outline(bbox), color), filled, color), empty, Color::White)
}

/// The border of `bbox` can be stepped inside without leaving the `i32` range.
pub open spec fn progress_bar_fits(bbox: BBox) -> bool {
    &&& bbox.start.0 < i32::MAX
    &&& bbox.start.1 < i32::MAX
    &&& bbox.end.0 > i32::MIN
    &&& bbox.end.1 > i32::MIN
}

/// Whether `p` lies strictly inside the border of `bbox`.
pub open spec fn inside_border(bbox: BBox, p: (int, int)) -> bool {
    bbox.start.0 < p.0 < bbox.end.0 && bbox.start.1 < p.1 < bbox.end.1
}

/// Inside the border, a pixel left of the split column ends up in the bar's colour
/// and any other ends up white, whatever the canvas held before.
pub proof fn lemma_progress_bar_interior(
    canvas: Map<(int, int), Color>,
    bbox: BBox,
    progress: int,
    color: Color,
    p: (int, int),
)
    requires
        0 <= progress,
        canvas.dom().contains(p),
        inside_border(bbox, p),
    ensures
        progress_bar_painted(canvas, bbox, progress, color).dom().contains(p),
        progress_bar_painted(canvas, bbox, progress, color)[p] == (if p.0 < split_column(
            bbox,
            progress,
        ) {
            color
        } else {
            Color::White
        }),
{
    lemma_filled_columns(inner_columns(bbox), clamped_progress(progress));
}

/// A bar at zero percent leaves every pixel inside its border white; at one hundred
/// percent or more it gives every such pixel its colour; at fifty percent the split
/// falls after half the inner columns, rounded down.
pub proof fn lemma_progress_bar_levels(canvas: Map<(int, int), Color>, bbox: BBox, color: Color)
    ensures
        forall|p: (int, int)|
            canvas.dom().contains(p) && inside_border(bbox, p) ==> #[trigger] progress_bar_painted(
                canvas,
                bbox,
                0,
                color,
            )[p] == Color::White,
        forall|progress: int, p: (int, int)|
            progress >= 100 && canvas.dom().contains(p) && inside_border(bbox, p)
                ==> #[trigger] progress_bar_painted(canvas, bbox, progress, color)[p] == color,
        split_column(bbox, 50) == bbox.start.0 + 1 + inner_columns(bbox) / 2,
{
    assert forall|p: (int, int)| canvas.dom().contains(p) && inside_border(bbox, p) implies #[trigger] progress_bar_painted(
        canvas,
        bbox,
        0,
        color,
    )[p] == Color::White by {
        lemma_progress_bar_interior(canvas, bbox, 0, color, p);
        lemma_filled_columns(inner_columns(bbox), 0);
    }
    assert forall|progress: int, p: (int, int)|
        progress >= 100 && canvas.dom().contains(p) && inside_border(
            bbox,
            p,
        ) implies #[trigger] progress_bar_painted(canvas, bbox, progress, color)[p] == color by {
        lemma_progress_bar_interior(canvas, bbox, progress, color, p);
        lemma_filled_columns(inner_columns(bbox), 100);
    }
    let columns = inner_columns(bbox);
    lemma_fundamental_div_mod(columns, 2);
    lemma_mod_bound(columns, 2);
    lemma_fundamental_div_mod_converse_div(columns * 50, 100, columns / 2, 50 * (columns % 2));
}

/// A bar that fills its box from the left in proportion to its progress.
pub struct ProgressBar {
    bbox: BBox,
    progress: u8,
    color: Color,
}

impl ProgressBar {
    pub closed spec fn spec_bbox(&self) -> BBox {
        self.bbox
    }

    pub closed spec fn spec_progress(&self) -> u8 {
        self.progress
    }

    pub closed spec fn spec_color(&self) -> Color {
        self.color
    }

    /// A bar over `bbox` at `progress` percent; values over one hundred count as one
    /// hundred.
    pub fn new(bbox: BBox, progress: u8, color: Color) -> (r: Self)
        ensures
            r.spec_bbox() == bbox,
            r.spec_progress() == progress,
            r.spec_color() == color,
    {
        Self { bbox, progress, color }
    }
}

/// The filled columns are never more than the inner columns.
proof fn lemma_filled_columns(columns: int, progress: int)
    requires
        0 <= columns,
        0 <= progress <= 100,
    ensures
        0 <= columns * progress / 100 <= columns,
        progress == 0 ==> columns * progress / 100 == 0,
        progress == 100 ==> columns * progress / 100 == columns,
{
    let q = columns * progress / 100;
    lemma_fundamental_div_mod(columns * progress, 100);
    lemma_mod_bound(columns * progress, 100);
    assert(0 <= q <= columns) by (nonlinear_arith)
        requires
            columns * progress == 100 * q + (columns * progress) % 100,
            0 <= (columns * progress) % 100 < 100,
            0 <= columns,
            0 <= progress <= 100,
    ;
    if progress == 0 {
        assert(columns * progress == 0) by (nonlinear_arith)
            requires
                progress == 0,
        ;
    }
    if progress == 100 {
        assert(q == columns) by (nonlinear_arith)
            requires
                columns * progress == 100 * q + (columns * progress) % 100,
                0 <= (columns * progress) % 100 < 100,
                progress == 100,
        ;
    }
}

impl Drawable for ProgressBar {
    open spec fn fits(&self) -> bool {
        progress_bar_fits(self.spec_bbox())
    }

    open spec fn painted(&self, canvas: Map<(int, int), Color>) -> Map<(int, int), Color> {
        progress_bar_painted(canvas, self.spec_bbox(), self.spec_progress() as int, self.spec_color())
    }

    /// Draws the outline, steps one pixel inside it, and splits the inner box where the
    /// progress puts it.
    fn draw<C: PixelDraw>(&self, canvas: &mut C) {
        Rect::new(self.bbox, self.color).draw(canvas);
        let inner = self.bbox.transform_both(-1);
        let progress: u8 = if self.progress > 100 {
            100
        } else {
            self.progress
        };
        let columns: i64 = if inner.end.0 >= inner.start.0 {
            inner.end.0 as i64 - inner.start.0 as i64 + 1
        } else {
            0
        };
        proof {
            lemma_filled_columns(columns as int, progress as int);
        }
        let position: i64 = inner.start.0 as i64 + columns * progress as i64 / 100;
        let (filled, empty) = inner.split(Axis::X, position as i32);
        Rect::new_filled(filled, self.color).draw(canvas);
        Rect::new_filled(empty, Color::White).draw(canvas);
        proof {
            let split = split_column(self.bbox, self.progress as int);
            let bbox = self.bbox;
            assert(area(filled) =~= span(bbox.start.0 + 1, split - 1, bbox.start.1 + 1, bbox.end.1 - 1));
            assert(area(empty) =~= span(split, bbox.end.0 - 1, bbox.start.1 + 1, bbox.end.1 - 1));
        }
    }
}

} // verus!
