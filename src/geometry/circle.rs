//! Circles and rings, drawn by a distance test over their bounding square.
use crate::coordinates::bounding_box::BBox;
use crate::coordinates::cvec::{fits_i32, Vec2};
use crate::framebuffer::{lemma_paint_empty, lemma_paint_union, paint, Color, PixelDraw};
use crate::geometry::Drawable;
use vstd::prelude::*;

verus! {

/// Whether offset `(dx, dy)` from the centre lies on the ring of radius `r` and
/// thickness `t`: inside the square `[-r, r)²`, with a squared distance strictly
/// between `(r - t)² - 1` and `r² - 1`.
pub open spec fn on_ring(dx: int, dy: int, r: int, t: int) -> bool {
    &&& -r <= dx < r
    &&& -r <= dy < r
    &&& dx * dx + dy * dy < r * r - 1
    &&& dx * dx + dy * dy > (r - t) * (r - t) - 1
}

/// A ring as deep as its radius is the whole disc: every offset of the square
/// `[-r, r)²` whose squared distance is below `r² - 1`.
pub proof fn lemma_full_depth_disc(dx: int, dy: int, r: int)
    ensures
        on_ring(dx, dy, r, r) == (-r <= dx < r && -r <= dy < r && dx * dx + dy * dy < r * r - 1),
{
    assert(dx * dx + dy * dy >= 0) by (nonlinear_arith);
}

/// The pixels of the ring around `center`; a radius of one is the centre alone.
pub open spec fn ring(center: Vec2, r: int, t: int) -> Set<(int, int)> {
    if r == 1 {
        set![(center.0 as int, center.1 as int)]
    } else {
        Set::new(|p: (int, int)| on_ring(p.0 - center.0, p.1 - center.1, r, t))
    }
}

/// The pixels of `ring` whose offset comes before `(dx, dy)` in a scan by columns.
pub open spec fn ring_before(center: Vec2, r: int, t: int, dx: int, dy: int) -> Set<(int, int)> {
    Set::new(
        |p: (int, int)|
            on_ring(p.0 - center.0, p.1 - center.1, r, t) && (p.0 - center.0 < dx || (p.0
                - center.0 == dx && p.1 - center.1 < dy)),
    )
}

/// Ring depth `t` kept between one and the radius `r`.
pub open spec fn clamped_depth(r: int, t: int) -> int {
    if t >= r {
        r
    } else if t >= 1 {
        t
    } else {
        1
    }
}

/// A circle of radius `r` whose ring is `thickness` pixels deep.
#[derive(PartialEq, Eq, Debug)]
pub struct Circle {
    center: Vec2,
    r: u32,
    thickness: u32,
    color: Color,
}

impl Circle {
    pub closed spec fn spec_center(&self) -> Vec2 {
        self.center
    }

    pub closed spec fn spec_radius(&self) -> u32 {
        self.r
    }

    pub closed spec fn spec_thickness(&self) -> u32 {
        self.thickness
    }

    pub closed spec fn spec_color(&self) -> Color {
        self.color
    }

    /// An outline one pixel thick.
    pub fn new(center: Vec2, r: u32, color: Color) -> (res: Self)
        ensures
            res.spec_center() == center,
            res.spec_radius() == r,
            res.spec_thickness() == 1,
            res.spec_color() == color,
    {
        Self { center, r, thickness: 1, color }
    }

    /// The circle inscribed in `bbox` at its top-left corner: its radius is half the
    /// smaller side, rounded down.
    pub fn from_bbox(bbox: BBox, color: Color) -> (res: Self)
        requires
            bbox.wf(),
        ensures
            res.spec_radius() == (if bbox.end.0 - bbox.start.0 <= bbox.end.1 - bbox.start.1 {
                bbox.end.0 - bbox.start.0
            } else {
                bbox.end.1 - bbox.start.1
            }) / 2,
            res.spec_center().0 == bbox.start.0 + res.spec_radius(),
            res.spec_center().1 == bbox.start.1 + res.spec_radius(),
            res.spec_thickness() == 1,
            res.spec_color() == color,
    {
        let w = bbox.width();
        let h = bbox.height();
        let side = if w <= h {
            w
        } else {
            h
        };
        let r: i64 = (side / 2) as i64;
        let x = (bbox.start.0 as i64 + r) as i32;
        let y = (bbox.start.1 as i64 + r) as i32;
        Self { center: (x, y), r: r as u32, thickness: 1, color }
    }

    /// A disc when `filled`, else an outline one pixel thick.
    pub fn filled(self, filled: bool) -> (res: Self)
        ensures
            res.spec_thickness() == (if filled {
                self.spec_radius()
            } else {
                1
            }),
            res.spec_center() == self.spec_center(),
            res.spec_radius() == self.spec_radius(),
            res.spec_color() == self.spec_color(),
    {
        let thickness = if filled {
            self.r
        } else {
            1
        };
        Self { thickness, ..self }
    }

    /// The ring `t` pixels deep, kept between one and the radius.
    pub fn thickness(self, t: u32) -> (res: Self)
        ensures
            res.spec_thickness() == clamped_depth(self.spec_radius() as int, t as int),
            res.spec_center() == self.spec_center(),
            res.spec_radius() == self.spec_radius(),
            res.spec_color() == self.spec_color(),
    {
        let thickness = if t >= self.r {
            self.r
        } else if t >= 1 {
            t
        } else {
            1
        };
        Self { thickness, ..self }
    }
}

impl Drawable for Circle {
    /// The bounding square lies within the coordinate range.
    open spec fn fits(&self) -> bool {
        &&& fits_i32(self.spec_center().0 - self.spec_radius())
        &&& fits_i32(self.spec_center().0 + self.spec_radius())
        &&& fits_i32(self.spec_center().1 - self.spec_radius())
        &&& fits_i32(self.spec_center().1 + self.spec_radius())
    }

    open spec fn painted(&self, canvas: Map<(int, int), Color>) -> Map<(int, int), Color> {
        paint(
            canvas,
            ring(self.spec_center(), self.spec_radius() as int, self.spec_thickness() as int),
            self.spec_color(),
        )
    }

    fn draw<C: PixelDraw>(&self, canvas: &mut C) {
        let ghost m0 = canvas.pixels();
        let (x, y) = self.center;
        let color = self.color;
        if self.r == 1 {
            canvas.draw_pixel(x, y, &color);
            return ;
        }
        let r: i64 = self.r as i64;
        let t: i64 = self.thickness as i64;
        assert(0 <= r * r <= 0x1_0000_0000 * 0x1_0000_0000) by (nonlinear_arith)
            requires
                0 <= r <= 0x1_0000_0000,
        ;
        assert(0 <= (r - t) * (r - t) <= 0x1_0000_0000 * 0x1_0000_0000) by (nonlinear_arith)
            requires
                -0x1_0000_0000 <= r - t <= 0x1_0000_0000,
        ;
        let outer: i128 = r as i128 * r as i128 - 1;
        let inner: i128 = (r - t) as i128 * (r - t) as i128 - 1;
        let ghost c = self.center;
        let ghost ri = r as int;
        let ghost ti = t as int;
        let mut dx: i64 = -r;
        proof {
            assert(ring_before(c, ri, ti, dx as int, -ri) =~= Set::empty());
            lemma_paint_empty(m0, color);
        }
        while dx < r
            invariant
                c == self.spec_center(),
                c == (x, y),
                ri == r == self.spec_radius(),
                ti == t == self.spec_thickness(),
                r != 1,
                color == self.spec_color(),
                self.fits(),
                outer == ri * ri - 1,
                inner == (ri - ti) * (ri - ti) - 1,
                -r <= dx <= r,
                canvas.pixels() == paint(m0, ring_before(c, ri, ti, dx as int, -ri), color),
            decreases r - dx,
        {
            let mut dy: i64 = -r;
            while dy < r
                invariant
                    c == self.spec_center(),
                    c == (x, y),
                    ri == r == self.spec_radius(),
                    ti == t == self.spec_thickness(),
                    r != 1,
                    color == self.spec_color(),
                    self.fits(),
                    outer == ri * ri - 1,
                    inner == (ri - ti) * (ri - ti) - 1,
                    -r <= dx < r,
                    -r <= dy <= r,
                    canvas.pixels() == paint(m0, ring_before(c, ri, ti, dx as int, dy as int), color),
                decreases r - dy,
            {
                assert(0 <= dx * dx <= r * r) by (nonlinear_arith)
                    requires
                        -r <= dx < r,
                ;
                assert(0 <= dy * dy <= r * r) by (nonlinear_arith)
                    requires
                        -r <= dy < r,
                ;
                assert(r * r <= 0x1_0000_0000 * 0x1_0000_0000) by (nonlinear_arith)
                    requires
                        0 <= r <= 0x1_0000_0000,
                ;
                let d: i128 = dx as i128 * dx as i128 + dy as i128 * dy as i128;
                let ghost before = ring_before(c, ri, ti, dx as int, dy as int);
                let ghost p = ((x + dx) as int, (y + dy) as int);
                if d < outer && d > inner {
                    canvas.draw_pixel((x as i64 + dx) as i32, (y as i64 + dy) as i32, &color);
                    proof {
                        lemma_paint_union(m0, before, set![p], color);
                        assert(before.union(set![p]) =~= ring_before(c, ri, ti, dx as int, dy + 1));
                    }
                } else {
                    assert(before =~= ring_before(c, ri, ti, dx as int, dy + 1));
                }
                dy = dy + 1;
            }
            assert(ring_before(c, ri, ti, dx as int, r as int) =~= ring_before(c, ri, ti, dx + 1, -ri));
            dx = dx + 1;
        }
        assert(ring_before(c, ri, ti, dx as int, -ri) =~= ring(c, ri, ti));
    }
}

} // verus!
