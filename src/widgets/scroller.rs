//! A scroll bar with a guide line and a thumb.
use crate::coordinates::bounding_box::BBox;
use crate::coordinates::cvec::{fits_i32, trunc_div};
use crate::framebuffer::{paint, Color, Orientation, PixelDraw};
use crate::geometry::line::{column, Line};
use crate::geometry::rect::{area, outline, Rect};
use crate::geometry::Drawable;
use vstd::prelude::*;

verus! {

/// `position` kept between zero and one hundred.
pub open spec fn clamped_position(position: int) -> int {
    if position < 0 {
        0
    } else if position > 100 {
        100
    } else {
        position
    }
}

/// The point halfway from `a` to `b`, rounded toward `a`.
pub open spec fn midpoint(a: int, b: int) -> int {
    if b >= a {
        a + (b - a) / 2
    } else {
        a - (a - b) / 2
    }
}

/// Top row of the thumb: `position` percent of the way from the top of the track to
/// `width` rows above its bottom, rounded toward the top.
pub open spec fn thumb_top(bbox: BBox, position: int, width: int) -> int {
    bbox.start.1 + trunc_div((bbox.end.1 - width - bbox.start.1) * clamped_position(position), 100)
}

/// The thumb: from the guide line to the right edge, `width` rows below its top.
pub open spec fn thumb_box(bbox: BBox, position: int, width: int) -> BBox {
    let top = thumb_top(bbox, position, width);
    BBox {
        start: (midpoint(bbox.start.0 as int, bbox.end.0 as int) as i32, top as i32),
        end: (bbox.end.0, (top + width) as i32),
    }
}

/// A vertical scroller over `bbox`: the track cleared to white, a guide line down its
/// middle and the outline of the thumb, the last two in `color`. A horizontal one
/// draws nothing.
pub open spec fn scroller_painted(
    canvas: Map<(int, int), Color>,
    bbox: BBox,
    position: int,
    width: int,
    orient: Orientation,
    color: Color,
) -> Map<(int, int), Color> {
    if orient == Orientation::Vertical {
        let guide = column(
            midpoint(bbox.start.0 as int, bbox.end.0 as int),
            bbox.start.1 as int,
            bbox.end.1 as int,
        );
        paint(
            paint(paint(canvas, area(bbox), Color::White), guide, color),
            outline(thumb_box(bbox, position, width)),
            color,
        )
    } else {
        canvas
    }
}

/// The thumb's rows fit an `i32`.
pub open spec fn scroller_fits(bbox: BBox, position: int, width: int, orient: Orientation) -> bool {
    orient == Orientation::Vertical ==> fits_i32(thumb_top(bbox, position, width)) && fits_i32(
        thumb_top(bbox, position, width) + width,
    )
}

/// A scroll bar; `width` is the extent of the thumb along the track.
pub struct Scroller {
    bbox: BBox,
    position: i32,
    width: i32,
    orient: Orientation,
    color: Color,
}

impl Scroller {
    pub closed spec fn spec_bbox(&self) -> BBox {
        self.bbox
    }

    pub closed spec fn spec_position(&self) -> i32 {
        self.position
    }

    pub closed spec fn spec_width(&self) -> i32 {
        self.width
    }

    pub closed spec fn spec_orient(&self) -> Orientation {
        self.orient
    }

    pub closed spec fn spec_color(&self) -> Color {
        self.color
    }

    /// A scroller over `bbox` at `position` percent, kept between zero and one hundred.
    pub fn new(bbox: BBox, position: i32, width: i32, orient: Orientation, color: Color) -> (r: Self)
        ensures
            r.spec_bbox() == bbox,
            r.spec_position() == position,
            r.spec_width() == width,
            r.spec_orient() == orient,
            r.spec_color() == color,
    {
        Self { bbox, position, width, orient, color }
    }
}

impl Drawable for Scroller {
    open spec fn fits(&self) -> bool {
        scroller_fits(
            self.spec_bbox(),
            self.spec_position() as int,
            self.spec_width() as int,
            self.spec_orient(),
        )
    }

    open spec fn painted(&self, canvas: Map<(int, int), Color>) -> Map<(int, int), Color> {
        scroller_painted(
            canvas,
            self.spec_bbox(),
            self.spec_position() as int,
            self.spec_width() as int,
            self.spec_orient(),
            self.spec_color(),
        )
    }

    fn draw<C: PixelDraw>(&self, canvas: &mut C) {
        if self.orient != Orientation::Vertical {
            return ;
        }
        let bbox = self.bbox;
        Rect::new_filled(bbox, Color::White).draw(canvas);
        let position: i64 = if self.position < 0 {
            0
        } else if self.position > 100 {
            100
        } else {
            self.position as i64
        };
        let sx: i64 = bbox.start.0 as i64;
        let ex: i64 = bbox.end.0 as i64;
        let mid: i64 = if ex >= sx {
            sx + (ex - sx) / 2
        } else {
            sx - (sx - ex) / 2
        };
        let guide = BBox::new((mid as i32, bbox.start.1), bbox.end);
        Line::new_vertical(guide, self.color).draw(canvas);
        let track: i64 = bbox.end.1 as i64 - self.width as i64 - bbox.start.1 as i64;
        assert(-0x100_0000_0000 <= track * position <= 0x100_0000_0000) by (nonlinear_arith)
            requires
                -0x2_0000_0000 <= track <= 0x2_0000_0000,
                0 <= position <= 100,
        ;
        let scaled: i64 = track * position;
        let offset: i64 = if scaled >= 0 {
            scaled / 100
        } else {
            -((-scaled) / 100)
        };
        let top: i64 = bbox.start.1 as i64 + offset;
        let thumb = BBox::new((mid as i32, top as i32), (bbox.end.0, (top + self.width as i64) as i32));
        Rect::new(thumb, self.color).draw(canvas);
    }
}

} // verus!
