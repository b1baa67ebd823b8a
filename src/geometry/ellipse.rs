//! Ellipses and elliptic rings, drawn by the implicit inequality over their
//! bounding box.
use crate::coordinates::bounding_box::BBox;
use crate::coordinates::cvec::{fits_i32, Vec2};
use crate::framebuffer::{lemma_paint_empty, lemma_paint_union, paint, Color, PixelDraw};
use crate::geometry::Drawable;
use vstd::prelude::*;

verus! {

/// Whether offset `(dx, dy)` from the centre lies on the ring between the ellipse
/// with half-axes `w` and `h` and the one with half-axes `w - t` and `h - t`:
/// strictly inside the first, and not strictly inside the second.
pub open spec fn on_elliptic_ring(dx: int, dy: int, w: int, h: int, t: int) -> bool {
    let iw = w - t;
    let ih = h - t;
    &&& -w <= dx <= w
    &&& -h <= dy <= h
    &&& dx * dx * (h * h) + dy * dy * (w * w) < (h * h) * (w * w)
    &&& dx * dx * (ih * ih) + dy * dy * (iw * iw) > (iw * iw) * (ih * ih) - 1
}

/// Whether offset `(dx, dy)` from the centre lies strictly inside the ellipse with
/// half-axes `w` and `h`.
pub open spec fn inside_ellipse(dx: int, dy: int, w: int, h: int) -> bool {
    &&& -w <= dx <= w
    &&& -h <= dy <= h
    &&& dx * dx * (h * h) + dy * dy * (w * w) < (h * h) * (w * w)
}

/// A ring as deep as the smaller half-axis is the whole inside of the ellipse.
pub proof fn lemma_full_depth_fills(dx: int, dy: int, w: int, h: int)
    requires
        0 <= w,
        0 <= h,
    ensures
        on_elliptic_ring(dx, dy, w, h, min_axis(w, h)) == inside_ellipse(dx, dy, w, h),
{
    let iw = w - min_axis(w, h);
    let ih = h - min_axis(w, h);
    assert(dx * dx * (ih * ih) + dy * dy * (iw * iw) > (iw * iw) * (ih * ih) - 1) by (nonlinear_arith)
        requires
            iw == 0 || ih == 0,
    ;
}

/// The pixels of the elliptic ring around `center`.
pub open spec fn elliptic_ring(center: Vec2, w: int, h: int, t: int) -> Set<(int, int)> {
    Set::new(|p: (int, int)| on_elliptic_ring(p.0 - center.0, p.1 - center.1, w, h, t))
}

/// The pixels of `elliptic_ring` whose offset comes before `(dx, dy)` in a scan by
/// columns.
pub open spec fn elliptic_ring_before(
    center: Vec2,
    w: int,
    h: int,
    t: int,
    dx: int,
    dy: int,
) -> Set<(int, int)> {
    Set::new(
        |p: (int, int)|
            on_elliptic_ring(p.0 - center.0, p.1 - center.1, w, h, t) && (p.0 - center.0 < dx
                || (p.0 - center.0 == dx && p.1 - center.1 < dy)),
    )
}

/// The smaller of two half-axes.
pub open spec fn min_axis(w: int, h: int) -> int {
    if h <= w {
        h
    } else {
        w
    }
}

/// Ring depth `t` capped at the smaller half-axis.
pub open spec fn capped_depth(w: int, h: int, t: int) -> int {
    if t <= min_axis(w, h) {
        t
    } else {
        min_axis(w, h)
    }
}

/// An ellipse with half-width `width` and half-height `height`, drawn as a ring
/// `thickness` pixels deep.
#[derive(PartialEq, Eq, Debug)]
pub struct Ellipse {
    center: Vec2,
    height: u32,
    width: u32,
    thickness: u32,
    color: Color,
}

impl Ellipse {
    #[verifier::type_invariant]
    spec fn inv(&self) -> bool {
        self.thickness == 1 || self.thickness <= min_axis(self.width as int, self.height as int)
    }

    pub closed spec fn spec_center(&self) -> Vec2 {
        self.center
    }

    pub closed spec fn spec_width(&self) -> u32 {
        self.width
    }

    pub closed spec fn spec_height(&self) -> u32 {
        self.height
    }

    pub closed spec fn spec_thickness(&self) -> u32 {
        self.thickness
    }

    pub closed spec fn spec_color(&self) -> Color {
        self.color
    }

    /// An outline one pixel thick.
    pub fn new(width: u32, height: u32, center: Vec2, color: Color) -> (r: Self)
        ensures
            r.spec_width() == width,
            r.spec_height() == height,
            r.spec_center() == center,
            r.spec_thickness() == 1,
            r.spec_color() == color,
    {
        Self { center, height, width, thickness: 1, color }
    }

    /// The ellipse inscribed in `bbox` at its top-left corner: its half-axes are half
    /// the sides, rounded down.
    pub fn from_bbox(bbox: BBox, color: Color) -> (r: Self)
        requires
            bbox.wf(),
        ensures
            r.spec_width() == (bbox.end.0 - bbox.start.0) / 2,
            r.spec_height() == (bbox.end.1 - bbox.start.1) / 2,
            r.spec_center().0 == bbox.start.0 + r.spec_width(),
            r.spec_center().1 == bbox.start.1 + r.spec_height(),
            r.spec_thickness() == 1,
            r.spec_color() == color,
    {
        let width = (bbox.width() / 2) as u32;
        let height = (bbox.height() / 2) as u32;
        let x = (bbox.start.0 as i64 + width as i64) as i32;
        let y = (bbox.start.1 as i64 + height as i64) as i32;
        Self { center: (x, y), height, width, thickness: 1, color }
    }

    /// A solid ellipse when `filled`, else an outline one pixel thick.
    pub fn filled(self, filled: bool) -> (r: Self)
        ensures
            r.spec_thickness() == (if filled {
                min_axis(self.spec_width() as int, self.spec_height() as int)
            } else {
                1
            }),
            r.spec_center() == self.spec_center(),
            r.spec_width() == self.spec_width(),
            r.spec_height() == self.spec_height(),
            r.spec_color() == self.spec_color(),
    {
        let thickness = if filled {
            self.max_thickness()
        } else {
            1
        };
        Self { thickness, ..self }
    }

    /// The deepest ring: the smaller half-axis.
    pub fn max_thickness(&self) -> (r: u32)
        ensures
            r == min_axis(self.spec_width() as int, self.spec_height() as int),
    {
        if self.height <= self.width {
            self.height
        } else {
            self.width
        }
    }

    /// The ring `t` pixels deep, at most the smaller half-axis.
    pub fn thickness(self, t: u32) -> (r: Self)
        ensures
            r.spec_thickness() == capped_depth(
                self.spec_width() as int,
                self.spec_height() as int,
                t as int,
            ),
            r.spec_center() == self.spec_center(),
            r.spec_width() == self.spec_width(),
            r.spec_height() == self.spec_height(),
            r.spec_color() == self.spec_color(),
    {
        let max = self.max_thickness();
        let thickness = if t <= max {
            t
        } else {
            max
        };
        Self { thickness, ..self }
    }
}

/// The bounds that keep the inequalities of `on_elliptic_ring` inside an `i128`.
proof fn lemma_ring_terms_bound(dx: int, dy: int, w: int, h: int, iw: int, ih: int)
    requires
        0 <= w < 0x8000_0000,
        0 <= h < 0x8000_0000,
        -w <= dx <= w,
        -h <= dy <= h,
        -1 <= iw <= w,
        -1 <= ih <= h,
    ensures
        0 <= dx * dx <= 0x4000_0000_0000_0000,
        0 <= dy * dy <= 0x4000_0000_0000_0000,
        0 <= w * w <= 0x4000_0000_0000_0000,
        0 <= h * h <= 0x4000_0000_0000_0000,
        0 <= iw * iw <= 0x4000_0000_0000_0000,
        0 <= ih * ih <= 0x4000_0000_0000_0000,
        0 <= dx * dx * (h * h) <= 0x4000_0000_0000_0000 * 0x4000_0000_0000_0000,
        0 <= dy * dy * (w * w) <= 0x4000_0000_0000_0000 * 0x4000_0000_0000_0000,
        0 <= (h * h) * (w * w) <= 0x4000_0000_0000_0000 * 0x4000_0000_0000_0000,
        0 <= dx * dx * (ih * ih) <= 0x4000_0000_0000_0000 * 0x4000_0000_0000_0000,
        0 <= dy * dy * (iw * iw) <= 0x4000_0000_0000_0000 * 0x4000_0000_0000_0000,
        0 <= (iw * iw) * (ih * ih) <= 0x4000_0000_0000_0000 * 0x4000_0000_0000_0000,
{
    lemma_square_bound(dx, w);
    lemma_square_bound(dy, h);
    lemma_square_bound(w, w);
    lemma_square_bound(h, h);
    lemma_square_bound(iw, w);
    lemma_square_bound(ih, h);
    let m: int = 0x4000_0000_0000_0000;
    lemma_product_bound(dx * dx, h * h, m);
    lemma_product_bound(dy * dy, w * w, m);
    lemma_product_bound(h * h, w * w, m);
    lemma_product_bound(dx * dx, ih * ih, m);
    lemma_product_bound(dy * dy, iw * iw, m);
    lemma_product_bound(iw * iw, ih * ih, m);
}

proof fn lemma_square_bound(v: int, bound: int)
    requires
        0 <= bound < 0x8000_0000,
        -bound <= v <= bound || v == -1,
    ensures
        0 <= v * v <= 0x4000_0000_0000_0000,
{
    assert(0 <= v * v <= bound * bound || v * v == 1) by (nonlinear_arith)
        requires
            -bound <= v <= bound || v == -1,
            0 <= bound,
    ;
    assert(bound * bound <= 0x4000_0000_0000_0000) by (nonlinear_arith)
        requires
            0 <= bound < 0x8000_0000,
    ;
}

proof fn lemma_product_bound(u: int, v: int, m: int)
    requires
        0 <= u <= m,
        0 <= v <= m,
    ensures
        0 <= u * v <= m * m,
{
    assert(0 <= u * v <= m * m) by (nonlinear_arith)
        requires
            0 <= u <= m,
            0 <= v <= m,
    ;
}

impl Drawable for Ellipse {
    /// The bounding box lies within the coordinate range.
    open spec fn fits(&self) -> bool {
        &&& fits_i32(self.spec_center().0 - self.spec_width())
        &&& fits_i32(self.spec_center().0 + self.spec_width())
        &&& fits_i32(self.spec_center().1 - self.spec_height())
        &&& fits_i32(self.spec_center().1 + self.spec_height())
    }

    open spec fn painted(&self, canvas: Map<(int, int), Color>) -> Map<(int, int), Color> {
        paint(
            canvas,
            elliptic_ring(
                self.spec_center(),
                self.spec_width() as int,
                self.spec_height() as int,
                self.spec_thickness() as int,
            ),
            self.spec_color(),
        )
    }

    fn draw<C: PixelDraw>(&self, canvas: &mut C) {
        proof {
            use_type_invariant(self);
        }
        let ghost m0 = canvas.pixels();
        let (x, y) = self.center;
        let color = self.color;
        let w: i64 = self.width as i64;
        let h: i64 = self.height as i64;
        let t: i64 = self.thickness as i64;
        let iw: i64 = w - t;
        let ih: i64 = h - t;
        proof {
            lemma_ring_terms_bound(0, 0, w as int, h as int, iw as int, ih as int);
        }
        let h_sqr: i128 = h as i128 * h as i128;
        let w_sqr: i128 = w as i128 * w as i128;
        let iw_sqr: i128 = iw as i128 * iw as i128;
        let ih_sqr: i128 = ih as i128 * ih as i128;
        let outer: i128 = h_sqr * w_sqr;
        let inner: i128 = iw_sqr * ih_sqr - 1;
        let ghost c = self.center;
        let ghost (wi, hi, ti) = (w as int, h as int, t as int);
        let mut dx: i64 = -w;
        proof {
            assert(elliptic_ring_before(c, wi, hi, ti, dx as int, -hi) =~= Set::empty());
            lemma_paint_empty(m0, color);
        }
        while dx <= w
            invariant
                c == self.spec_center(),
                c == (x, y),
                wi == w == self.spec_width(),
                hi == h == self.spec_height(),
                ti == t == self.spec_thickness(),
                iw == w - t,
                ih == h - t,
                -1 <= iw <= w,
                -1 <= ih <= h,
                color == self.spec_color(),
                self.fits(),
                h_sqr == h * h,
                w_sqr == w * w,
                iw_sqr == iw * iw,
                ih_sqr == ih * ih,
                outer == (h * h) * (w * w),
                inner == (iw * iw) * (ih * ih) - 1,
                -w <= dx <= w + 1,
                canvas.pixels() == paint(m0, elliptic_ring_before(c, wi, hi, ti, dx as int, -hi), color),
            decreases w + 1 - dx,
        {
            let mut dy: i64 = -h;
            while dy <= h
                invariant
                    c == self.spec_center(),
                    c == (x, y),
                    wi == w == self.spec_width(),
                    hi == h == self.spec_height(),
                    ti == t == self.spec_thickness(),
                    iw == w - t,
                    ih == h - t,
                    -1 <= iw <= w,
                    -1 <= ih <= h,
                    color == self.spec_color(),
                    self.fits(),
                    h_sqr == h * h,
                    w_sqr == w * w,
                    iw_sqr == iw * iw,
                    ih_sqr == ih * ih,
                    outer == (h * h) * (w * w),
                    inner == (iw * iw) * (ih * ih) - 1,
                    -w <= dx <= w,
                    -h <= dy <= h + 1,
                    canvas.pixels() == paint(
                        m0,
                        elliptic_ring_before(c, wi, hi, ti, dx as int, dy as int),
                        color,
                    ),
                decreases h + 1 - dy,
            {
                proof {
                    lemma_ring_terms_bound(dx as int, dy as int, wi, hi, iw as int, ih as int);
                }
                let dx_sqr: i128 = dx as i128 * dx as i128;
                let dy_sqr: i128 = dy as i128 * dy as i128;
                let ghost before = elliptic_ring_before(c, wi, hi, ti, dx as int, dy as int);
                let ghost p = ((x + dx) as int, (y + dy) as int);
                if dx_sqr * h_sqr + dy_sqr * w_sqr < outer && dx_sqr * ih_sqr + dy_sqr * iw_sqr > inner {
                    canvas.draw_pixel((x as i64 + dx) as i32, (y as i64 + dy) as i32, &color);
                    proof {
                        lemma_paint_union(m0, before, set![p], color);
                        assert(before.union(set![p]) =~= elliptic_ring_before(
                            c,
                            wi,
                            hi,
                            ti,
                            dx as int,
                            dy + 1,
                        ));
                    }
                } else {
                    assert(before =~= elliptic_ring_before(c, wi, hi, ti, dx as int, dy + 1));
                }
                dy = dy + 1;
            }
            assert(elliptic_ring_before(c, wi, hi, ti, dx as int, h + 1) =~= elliptic_ring_before(
                c,
                wi,
                hi,
                ti,
                dx + 1,
                -hi,
            ));
            dx = dx + 1;
        }
        assert(elliptic_ring_before(c, wi, hi, ti, dx as int, -hi) =~= elliptic_ring(c, wi, hi, ti));
    }
}

} // verus!
