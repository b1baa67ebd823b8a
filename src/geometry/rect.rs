//! Axis-aligned rectangles, outlined or filled.
use crate::coordinates::bounding_box::BBox;
use crate::framebuffer::{lemma_paint_empty, lemma_paint_union, paint, Color, PixelDraw};
use crate::geometry::line::{
    bbox_line_pixels,
    column,
    dda_columns,
    lemma_dda_offset_bound,
    row,
    ConstructMethod,
    Line,
};
use crate::geometry::Drawable;
use vstd::prelude::*;

verus! {

/// The pixels of the four edges of `bbox`.
pub open spec fn outline(bbox: BBox) -> Set<(int, int)> {
    column(bbox.start.0 as int, bbox.start.1 as int, bbox.end.1 as int).union(
        row(bbox.start.0 as int, bbox.end.0 as int, bbox.end.1 as int),
    ).union(column(bbox.end.0 as int, bbox.start.1 as int, bbox.end.1 as int)).union(
        row(bbox.start.0 as int, bbox.end.0 as int, bbox.start.1 as int),
    )
}

/// Every pixel of `bbox`.
pub open spec fn area(bbox: BBox) -> Set<(int, int)> {
    Set::new(|p: (int, int)| bbox.contains(p))
}

/// A line drawn across a box one row high is that row.
pub proof fn lemma_flat_line(bbox: BBox)
    requires
        bbox.start.1 == bbox.end.1,
    ensures
        bbox_line_pixels(bbox, false) == row(
            bbox.start.0 as int,
            bbox.end.0 as int,
            bbox.start.1 as int,
        ),
{
    let w = bbox.end.0 - bbox.start.0;
    if w > 0 {
        assert forall|p: (int, int)| dda_columns(bbox, w + 1).contains(p) <==> row(
            bbox.start.0 as int,
            bbox.end.0 as int,
            bbox.start.1 as int,
        ).contains(p) by {
            if 0 <= p.0 - bbox.start.0 <= w {
                lemma_dda_offset_bound(w, 0, (p.0 - bbox.start.0) as nat);
            }
        }
    }
    assert(bbox_line_pixels(bbox, false) =~= row(
        bbox.start.0 as int,
        bbox.end.0 as int,
        bbox.start.1 as int,
    ));
}

/// A rectangle in one colour, outlined or filled.
pub struct Rect {
    bbox: BBox,
    color: Color,
    filled: bool,
}

impl Rect {
    pub closed spec fn spec_bbox(&self) -> BBox {
        self.bbox
    }

    pub closed spec fn spec_color(&self) -> Color {
        self.color
    }

    pub closed spec fn spec_filled(&self) -> bool {
        self.filled
    }

    /// The pixels of the rectangle.
    pub open spec fn points(&self) -> Set<(int, int)> {
        if self.spec_filled() {
            area(self.spec_bbox())
        } else {
            outline(self.spec_bbox())
        }
    }

    /// The outline of `bbox`.
    pub fn new(bbox: BBox, color: Color) -> (r: Self)
        ensures
            r.spec_bbox() == bbox,
            r.spec_color() == color,
            !r.spec_filled(),
    {
        Self { bbox, color, filled: false }
    }

    /// All of `bbox`.
    pub fn new_filled(bbox: BBox, color: Color) -> (r: Self)
        ensures
            r.spec_bbox() == bbox,
            r.spec_color() == color,
            r.spec_filled(),
    {
        Self { bbox, color, filled: true }
    }
}

impl Drawable for Rect {
    open spec fn fits(&self) -> bool {
        true
    }

    open spec fn painted(&self, canvas: Map<(int, int), Color>) -> Map<(int, int), Color> {
        paint(canvas, self.points(), self.spec_color())
    }

    /// A filled rectangle is drawn as one vertical line per column, an outline as
    /// four lines along its edges.
    fn draw<C: PixelDraw>(&self, canvas: &mut C) {
        let ghost m0 = canvas.pixels();
        let bbox = self.bbox;
        let color = self.color;
        if self.filled {
            let mut x: i64 = bbox.start.0 as i64;
            proof {
                assert(Set::new(|p: (int, int)| bbox.contains(p) && p.0 < x) =~= Set::empty());
                lemma_paint_empty(m0, color);
            }
            while x <= bbox.end.0 as i64
                invariant
                    bbox == self.spec_bbox(),
                    color == self.spec_color(),
                    self.spec_filled(),
                    bbox.start.0 <= x,
                    x <= bbox.end.0 + 1 || x == bbox.start.0,
                    canvas.pixels() == paint(
                        m0,
                        Set::new(|p: (int, int)| bbox.contains(p) && p.0 < x),
                        color,
                    ),
                decreases bbox.end.0 + 1 - x,
            {
                let strip = BBox::new((x as i32, bbox.start.1), bbox.end);
                Line::new_vertical(strip, color).draw(canvas);
                proof {
                    let done = Set::new(|p: (int, int)| bbox.contains(p) && p.0 < x);
                    let col = column(x as int, bbox.start.1 as int, bbox.end.1 as int);
                    lemma_paint_union(m0, done, col, color);
                    assert(done.union(col) =~= Set::new(
                        |p: (int, int)| bbox.contains(p) && p.0 < x + 1,
                    ));
                }
                x = x + 1;
            }
            assert(Set::new(|p: (int, int)| bbox.contains(p) && p.0 < x) =~= area(bbox));
            return ;
        }
        let left_bottom = (bbox.start.0, bbox.end.1);
        let right_top = (bbox.end.0, bbox.start.1);
        let left = BBox::new(bbox.start, left_bottom);
        let bottom = BBox::new(left_bottom, bbox.end);
        let right = BBox::new(right_top, bbox.end);
        let top = BBox::new(bbox.start, right_top);
        Line::new(ConstructMethod::FromBbox { bbox: left, vertical: false }, color).draw(canvas);
        Line::new(ConstructMethod::FromBbox { bbox: bottom, vertical: false }, color).draw(canvas);
        Line::new(ConstructMethod::FromBbox { bbox: right, vertical: false }, color).draw(canvas);
        Line::new(ConstructMethod::FromBbox { bbox: top, vertical: false }, color).draw(canvas);
        proof {
            lemma_flat_line(bottom);
            lemma_flat_line(top);
            let l = column(bbox.start.0 as int, bbox.start.1 as int, bbox.end.1 as int);
            let b = row(bbox.start.0 as int, bbox.end.0 as int, bbox.end.1 as int);
            let r = column(bbox.end.0 as int, bbox.start.1 as int, bbox.end.1 as int);
            let t = row(bbox.start.0 as int, bbox.end.0 as int, bbox.start.1 as int);
            assert(bbox_line_pixels(left, false) == l);
            assert(bbox_line_pixels(right, false) == r);
            lemma_paint_union(m0, l, b, color);
            lemma_paint_union(m0, l.union(b), r, color);
            lemma_paint_union(m0, l.union(b).union(r), t, color);
        }
    }
}

} // verus!
