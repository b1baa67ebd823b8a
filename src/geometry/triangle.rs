//! Triangle outlines.
use crate::coordinates::cvec::Vec2;
use crate::framebuffer::{lemma_paint_union, paint, Color, PixelDraw};
use crate::geometry::line::{segment, ConstructMethod, Line};
use crate::geometry::Drawable;
use vstd::prelude::*;

verus! {

/// The pixels of the three sides of the triangle with corners `v`.
pub open spec fn triangle_outline(v: (Vec2, Vec2, Vec2)) -> Set<(int, int)> {
    segment(v.0, v.1).union(segment(v.1, v.2)).union(segment(v.2, v.0))
}

/// The outline of a triangle in one colour.
pub struct Triangle {
    vertexes: (Vec2, Vec2, Vec2),
    color: Color,
}

impl Triangle {
    pub closed spec fn spec_vertexes(&self) -> (Vec2, Vec2, Vec2) {
        self.vertexes
    }

    pub closed spec fn spec_color(&self) -> Color {
        self.color
    }

    pub fn new(vertexes: (Vec2, Vec2, Vec2), color: Color) -> (r: Self)
        ensures
            r.spec_vertexes() == vertexes,
            r.spec_color() == color,
    {
        Self { vertexes, color }
    }
}

impl Drawable for Triangle {
    open spec fn fits(&self) -> bool {
        true
    }

    open spec fn painted(&self, canvas: Map<(int, int), Color>) -> Map<(int, int), Color> {
        paint(canvas, triangle_outline(self.spec_vertexes()), self.spec_color())
    }

    /// Draws a line between each pair of adjacent corners.
    fn draw<C: PixelDraw>(&self, canvas: &mut C) {
        let ghost m0 = canvas.pixels();
        let (a, b, c) = self.vertexes;
        Line::new(ConstructMethod::ByPoints { p1: a, p2: b }, self.color).draw(canvas);
        Line::new(ConstructMethod::ByPoints { p1: b, p2: c }, self.color).draw(canvas);
        Line::new(ConstructMethod::ByPoints { p1: c, p2: a }, self.color).draw(canvas);
        proof {
            lemma_paint_union(m0, segment(a, b), segment(b, c), self.color);
            lemma_paint_union(m0, segment(a, b).union(segment(b, c)), segment(c, a), self.color);
        }
    }
}

} // verus!
