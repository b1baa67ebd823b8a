//! Straight lines, given by a bounding box or by their two end points.
use crate::coordinates::bounding_box::BBox;
use crate::coordinates::cvec::Vec2;
use crate::framebuffer::{lemma_paint_empty, lemma_paint_union, paint, Color, PixelDraw};
use crate::geometry::Drawable;
use vstd::arithmetic::div_mod::{
    lemma_fundamental_div_mod,
    lemma_fundamental_div_mod_converse_div,
    lemma_mod_bound,
};
use vstd::prelude::*;

verus! {

/// The pixels of column `x` from row `y0` to row `y1`, both included.
pub open spec fn column(x: int, y0: int, y1: int) -> Set<(int, int)> {
    Set::new(|p: (int, int)| p.0 == x && y0 <= p.1 <= y1)
}

/// The pixels of row `y` from column `x0` to column `x1`, both included.
pub open spec fn row(x0: int, x1: int, y: int) -> Set<(int, int)> {
    Set::new(|p: (int, int)| x0 <= p.0 <= x1 && p.1 == y)
}

/// Rows climbed after `k` steps of the error-accumulating walk across a box `w`
/// wide and `h` high: the walk climbs one more row after step `k - 1` exactly when
/// its error `2h·k - w - 2w·n` is positive, `n` being the rows climbed so far.
pub open spec fn dda_offset(w: int, h: int, k: nat) -> int
    decreases k,
{
    if k == 0 {
        0
    } else {
        let n = dda_offset(w, h, (k - 1) as nat);
        if 2 * h * k - w - 2 * w * n > 0 {
            n + 1
        } else {
            n
        }
    }
}

/// On a box no taller than it is wide, the walk plots in each column the row nearest
/// the straight line from corner to corner, `k·h / w` rows down, halves rounding down.
pub proof fn lemma_dda_offset_nearest(w: int, h: int, k: nat)
    requires
        0 <= h <= w,
        0 < w,
    ensures
        dda_offset(w, h, k) == (2 * h * k + w - 1) / (2 * w),
    decreases k,
{
    if k == 0 {
        assert(2 * h * k == 0) by (nonlinear_arith)
            requires
                k == 0,
        ;
        lemma_fundamental_div_mod_converse_div(w - 1, 2 * w, 0, w - 1);
    } else {
        lemma_dda_offset_nearest(w, h, (k - 1) as nat);
        let x = 2 * h * (k - 1) + w - 1;
        let n = x / (2 * w);
        lemma_fundamental_div_mod(x, 2 * w);
        lemma_mod_bound(x, 2 * w);
        let r = x % (2 * w);
        assert(2 * h * k + w - 1 == x + 2 * h && 2 * h * k - w - 2 * w * n == r + 2 * h - 2 * w + 1)
            by (nonlinear_arith)
            requires
                x == 2 * h * (k - 1) + w - 1,
                x == 2 * w * n + r,
        ;
        assert((n + 1) * (2 * w) == 2 * w * n + 2 * w && n * (2 * w) == 2 * w * n) by (nonlinear_arith);
        if r + 2 * h >= 2 * w {
            lemma_fundamental_div_mod_converse_div(2 * h * k + w - 1, 2 * w, n + 1, r + 2 * h - 2 * w);
        } else {
            lemma_fundamental_div_mod_converse_div(2 * h * k + w - 1, 2 * w, n, r + 2 * h);
        }
    }
}

/// The pixels the walk across `bbox` plots in its first `k` columns.
pub open spec fn dda_columns(bbox: BBox, k: int) -> Set<(int, int)> {
    Set::new(
        |p: (int, int)|
            0 <= p.0 - bbox.start.0 < k && p.1 == bbox.start.1 + dda_offset(
                bbox.end.0 - bbox.start.0,
                bbox.end.1 - bbox.start.1,
                (p.0 - bbox.start.0) as nat,
            ),
    )
}

/// The pixels of a line drawn from a bounding box: a vertical run at the left edge
/// when asked for or when the box is one column wide, else one pixel per column,
/// from the top-left corner, climbing as `dda_offset` says.
pub open spec fn bbox_line_pixels(bbox: BBox, vertical: bool) -> Set<(int, int)> {
    if vertical || bbox.end.0 == bbox.start.0 {
        column(bbox.start.0 as int, bbox.start.1 as int, bbox.end.1 as int)
    } else {
        dda_columns(bbox, bbox.end.0 - bbox.start.0 + 1)
    }
}

/// The coordinate `k` steps from `from` in the direction of `to`.
pub open spec fn advance(from: int, to: int, k: int) -> int {
    if from < to {
        from + k
    } else {
        from - k
    }
}

/// Error term of the two-point walk after `i` steps along x and `j` along y,
/// for a line `a` columns and `b` rows long.
pub open spec fn segment_error(a: int, b: int, i: int, j: int) -> int {
    a * (j + 1) - b * (i + 1)
}

/// The pixels the walk from `p1` to `p2` plots from the point `i` steps along x and
/// `j` steps along y on: x steps when twice the error is at least `-b`, y steps when
/// it is at most `a`, and the walk stops on `p2`.
pub open spec fn segment_from(p1: Vec2, p2: Vec2, i: int, j: int) -> Set<(int, int)>
    decreases (vstd::math::abs(p2.0 - p1.0) - i) + (vstd::math::abs(p2.1 - p1.1) - j),
{
    let a = vstd::math::abs(p2.0 - p1.0) as int;
    let b = vstd::math::abs(p2.1 - p1.1) as int;
    let here = (advance(p1.0 as int, p2.0 as int, i), advance(p1.1 as int, p2.1 as int, j));
    if !(0 <= i <= a && 0 <= j <= b) {
        Set::empty()
    } else if i == a && j == b {
        set![here]
    } else {
        let e2 = 2 * segment_error(a, b, i, j);
        let i2 = if e2 >= -b {
            i + 1
        } else {
            i
        };
        let j2 = if e2 <= a {
            j + 1
        } else {
            j
        };
        if i2 <= a && j2 <= b && (a - i2) + (b - j2) < (a - i) + (b - j) {
            set![here].union(segment_from(p1, p2, i2, j2))
        } else {
            set![here]
        }
    }
}

/// The pixels of the line from `p1` to `p2`, both ends included.
pub open spec fn segment(p1: Vec2, p2: Vec2) -> Set<(int, int)> {
    segment_from(p1, p2, 0, 0)
}

/// Each step of the two-point walk moves, and never past the end point.
proof fn lemma_segment_step(a: int, b: int, i: int, j: int)
    requires
        0 <= i <= a,
        0 <= j <= b,
        !(i == a && j == b),
    ensures
        ({
            let e2 = 2 * segment_error(a, b, i, j);
            &&& e2 >= -b || e2 <= a
            &&& i == a ==> e2 < -b
            &&& j == b ==> e2 > a
        }),
{
    let e2 = 2 * segment_error(a, b, i, j);
    if i == a {
        assert(e2 < -b) by (nonlinear_arith)
            requires
                e2 == 2 * (a * (j + 1) - b * (i + 1)),
                i == a,
                0 <= j < b,
                0 <= a,
        ;
    }
    if j == b {
        assert(e2 > a) by (nonlinear_arith)
            requires
                e2 == 2 * (a * (j + 1) - b * (i + 1)),
                j == b,
                0 <= i < a,
                0 <= b,
        ;
    }
}

/// From any point on its way, the two-point walk reaches its end point.
proof fn lemma_segment_reaches_end(p1: Vec2, p2: Vec2, i: int, j: int)
    requires
        0 <= i <= vstd::math::abs(p2.0 - p1.0),
        0 <= j <= vstd::math::abs(p2.1 - p1.1),
    ensures
        segment_from(p1, p2, i, j).contains((p2.0 as int, p2.1 as int)),
    decreases (vstd::math::abs(p2.0 - p1.0) - i) + (vstd::math::abs(p2.1 - p1.1) - j),
{
    let a = vstd::math::abs(p2.0 - p1.0) as int;
    let b = vstd::math::abs(p2.1 - p1.1) as int;
    if !(i == a && j == b) {
        lemma_segment_step(a, b, i, j);
        let e2 = 2 * segment_error(a, b, i, j);
        let i2 = if e2 >= -b {
            i + 1
        } else {
            i
        };
        let j2 = if e2 <= a {
            j + 1
        } else {
            j
        };
        lemma_segment_reaches_end(p1, p2, i2, j2);
    }
}

/// The line from `p1` to `p2` holds both of its end points.
pub proof fn lemma_segment_ends(p1: Vec2, p2: Vec2)
    ensures
        segment(p1, p2).contains((p1.0 as int, p1.1 as int)),
        segment(p1, p2).contains((p2.0 as int, p2.1 as int)),
{
    lemma_segment_reaches_end(p1, p2, 0, 0);
}

/// The error term of the two-point walk stays far inside an `i128`.
proof fn lemma_segment_error_bound(a: int, b: int, i: int, j: int)
    requires
        0 <= a <= 0x1_0000_0000,
        0 <= b <= 0x1_0000_0000,
        0 <= i <= a + 1,
        0 <= j <= b + 1,
    ensures
        -0x10_0000_0000_0000_0000 <= segment_error(a, b, i, j) <= 0x10_0000_0000_0000_0000,
{
    assert(0 <= a * (j + 1) <= 0x1_0000_0000 * 0x1_0000_0002) by (nonlinear_arith)
        requires
            0 <= a <= 0x1_0000_0000,
            0 <= j <= b + 1,
            b <= 0x1_0000_0000,
    ;
    assert(0 <= b * (i + 1) <= 0x1_0000_0000 * 0x1_0000_0002) by (nonlinear_arith)
        requires
            0 <= b <= 0x1_0000_0000,
            0 <= i <= a + 1,
            a <= 0x1_0000_0000,
    ;
}

/// How a line is given.
#[derive(Clone, Copy, Debug)]
pub enum ConstructMethod {
    /// Across `bbox`, from its top-left corner; a vertical run at its left edge when
    /// `vertical` is set.
    FromBbox { bbox: BBox, vertical: bool },
    /// From `p1` to `p2`, both included.
    ByPoints { p1: Vec2, p2: Vec2 },
}

/// A straight line in one colour.
pub struct Line {
    method: ConstructMethod,
    color: Color,
}

/// Draws column `x` from row `y0` to row `y1`.
fn draw_column<C: PixelDraw>(canvas: &mut C, x: i32, y0: i32, y1: i32, color: &Color)
    ensures
        final(canvas).pixels() == paint(old(canvas).pixels(), column(x as int, y0 as int, y1 as int), *color),
{
    let ghost m0 = canvas.pixels();
    let mut y: i64 = y0 as i64;
    proof {
        assert(column(x as int, y0 as int, y - 1) =~= Set::empty());
        lemma_paint_empty(m0, *color);
    }
    while y <= y1 as i64
        invariant
            y0 <= y,
            y <= y1 + 1 || y == y0,
            canvas.pixels() == paint(m0, column(x as int, y0 as int, y - 1), *color),
        decreases y1 + 1 - y,
    {
        canvas.draw_pixel(x, y as i32, color);
        proof {
            lemma_paint_union(m0, column(x as int, y0 as int, y - 1), set![(x as int, y as int)], *color);
            assert(column(x as int, y0 as int, y - 1).union(set![(x as int, y as int)]) =~= column(
                x as int,
                y0 as int,
                y as int,
            ));
        }
        y = y + 1;
    }
    assert(column(x as int, y0 as int, y - 1) =~= column(x as int, y0 as int, y1 as int));
}

/// The walk across a box never climbs above its top row nor past its height.
pub(crate) proof fn lemma_dda_offset_bound(w: int, h: int, k: nat)
    requires
        w > 0,
        k <= w,
    ensures
        0 <= dda_offset(w, h, k) <= k,
        h <= 0 ==> dda_offset(w, h, k) == 0,
        h > 0 ==> dda_offset(w, h, k) <= h,
    decreases k,
{
    if k > 0 {
        let n = dda_offset(w, h, (k - 1) as nat);
        lemma_dda_offset_bound(w, h, (k - 1) as nat);
        if h <= 0 {
            assert(2 * h * k - w - 2 * w * n <= 0) by (nonlinear_arith)
                requires
                    h <= 0,
                    k >= 0,
                    w > 0,
                    n == 0,
            ;
        } else if n == h {
            assert(2 * h * k - w - 2 * w * n <= 0) by (nonlinear_arith)
                requires
                    h > 0,
                    k <= w,
                    w > 0,
                    n == h,
            ;
        }
    }
}

impl Line {
    pub closed spec fn spec_method(&self) -> ConstructMethod {
        self.method
    }

    pub closed spec fn spec_color(&self) -> Color {
        self.color
    }

    /// The pixels of the line.
    pub open spec fn points(&self) -> Set<(int, int)> {
        match self.spec_method() {
            ConstructMethod::FromBbox { bbox, vertical } => bbox_line_pixels(bbox, vertical),
            ConstructMethod::ByPoints { p1, p2 } => segment(p1, p2),
        }
    }

    pub fn new(method: ConstructMethod, color: Color) -> (r: Self)
        ensures
            r.spec_method() == method,
            r.spec_color() == color,
    {
        Self { method, color }
    }

    /// A vertical run down the left edge of `bbox`.
    pub fn new_vertical(bbox: BBox, color: Color) -> (r: Self)
        ensures
            r.spec_method() == (ConstructMethod::FromBbox { bbox, vertical: true }),
            r.spec_color() == color,
    {
        Self { method: ConstructMethod::FromBbox { bbox, vertical: true }, color }
    }

    fn draw_from_bbox<C: PixelDraw>(&self, canvas: &mut C, bbox: BBox, vertical: bool)
        ensures
            final(canvas).pixels() == paint(
                old(canvas).pixels(),
                bbox_line_pixels(bbox, vertical),
                self.spec_color(),
            ),
    {
        if vertical || bbox.end.0 == bbox.start.0 {
            draw_column(canvas, bbox.start.0, bbox.start.1, bbox.end.1, &self.color);
            return ;
        }
        let ghost m0 = canvas.pixels();
        let sx: i64 = bbox.start.0 as i64;
        let ex: i64 = bbox.end.0 as i64;
        let sy: i64 = bbox.start.1 as i64;
        let w: i64 = ex - sx;
        let h: i64 = bbox.end.1 as i64 - sy;
        if w < 0 {
            proof {
                assert(dda_columns(bbox, w + 1) =~= Set::empty());
                lemma_paint_empty(m0, self.color);
            }
            return ;
        }
        let mut x: i64 = sx;
        let mut y: i64 = sy;
        let mut delta: i128 = 2 * h as i128 - w as i128;
        proof {
            assert(dda_columns(bbox, 0) =~= Set::empty());
            lemma_paint_empty(m0, self.color);
        }
        while x <= ex
            invariant
                sx == bbox.start.0,
                ex == bbox.end.0,
                sy == bbox.start.1,
                w == ex - sx,
                h == bbox.end.1 - sy,
                w > 0,
                sx <= x <= ex + 1,
                y == sy + dda_offset(w as int, h as int, (x - sx) as nat),
                delta == 2 * h * (x - sx + 1) - w - 2 * w * (y - sy),
                canvas.pixels() == paint(m0, dda_columns(bbox, x - sx), self.color),
            decreases ex + 1 - x,
        {
            let ghost k = x - sx;
            proof {
                lemma_dda_offset_bound(w as int, h as int, k as nat);
                assert(-0x1_0000_0000 <= h <= 0x1_0000_0000);
                assert(-0x20_0000_0000_0000_0000 <= 2 * h * (k + 1) <= 0x20_0000_0000_0000_0000) by (nonlinear_arith)
                    requires
                        -0x1_0000_0000 <= h <= 0x1_0000_0000,
                        0 <= k <= 0x1_0000_0000,
                ;
                assert(0 <= 2 * w * (y - sy) <= 0x20_0000_0000_0000_0000) by (nonlinear_arith)
                    requires
                        0 < w <= 0x1_0000_0000,
                        0 <= y - sy <= k,
                        0 <= k <= 0x1_0000_0000,
                ;
            }
            canvas.draw_pixel(x as i32, y as i32, &self.color);
            proof {
                lemma_paint_union(m0, dda_columns(bbox, k), set![(x as int, y as int)], self.color);
                assert(dda_columns(bbox, k).union(set![(x as int, y as int)]) =~= dda_columns(bbox, k + 1));
            }
            let ghost d0 = delta;
            let ghost y0 = y;
            if delta > 0 {
                y = y + 1;
                delta = delta - 2 * w as i128;
            }
            delta = delta + 2 * h as i128;
            x = x + 1;
            proof {
                assert(delta == 2 * h * (x - sx + 1) - w - 2 * w * (y - sy)) by (nonlinear_arith)
                    requires
                        d0 == 2 * h * (k + 1) - w - 2 * w * (y0 - sy),
                        y == y0 || y == y0 + 1,
                        y == y0 ==> delta == d0 + 2 * h,
                        y == y0 + 1 ==> delta == d0 - 2 * w + 2 * h,
                        x - sx == k + 1,
                ;
            }
        }
    }

    fn draw_by_points<C: PixelDraw>(&self, canvas: &mut C, p1: Vec2, p2: Vec2)
        ensures
            final(canvas).pixels() == paint(old(canvas).pixels(), segment(p1, p2), self.spec_color()),
    {
        let ghost m0 = canvas.pixels();
        let ddx: i64 = p2.0 as i64 - p1.0 as i64;
        let ddy: i64 = p2.1 as i64 - p1.1 as i64;
        let dx: i64 = if ddx < 0 {
            -ddx
        } else {
            ddx
        };
        let dy: i64 = if ddy < 0 {
            ddy
        } else {
            -ddy
        };
        let sx: i64 = if p1.0 < p2.0 {
            1
        } else {
            -1
        };
        let sy: i64 = if p1.1 < p2.1 {
            1
        } else {
            -1
        };
        let ghost a: int = dx as int;
        let ghost b: int = -dy;
        let mut err: i128 = dx as i128 + dy as i128;
        let mut x: i64 = p1.0 as i64;
        let mut y: i64 = p1.1 as i64;
        let ghost mut i: int = 0;
        let ghost mut j: int = 0;
        let ghost mut done: Set<(int, int)> = Set::empty();
        proof {
            lemma_paint_empty(m0, self.color);
            assert(segment(p1, p2) =~= done.union(segment_from(p1, p2, i, j)));
            assert(segment_error(a, b, 0, 0) == a - b) by (nonlinear_arith);
        }
        loop
            invariant
                a == vstd::math::abs(p2.0 - p1.0),
                b == vstd::math::abs(p2.1 - p1.1),
                dx == a,
                dy == -b,
                sx == (if p1.0 < p2.0 {
                    1int
                } else {
                    -1int
                }),
                sy == (if p1.1 < p2.1 {
                    1int
                } else {
                    -1int
                }),
                0 <= i <= a,
                0 <= j <= b,
                x == advance(p1.0 as int, p2.0 as int, i),
                y == advance(p1.1 as int, p2.1 as int, j),
                err == segment_error(a, b, i, j),
                segment(p1, p2) == done.union(segment_from(p1, p2, i, j)),
                canvas.pixels() == paint(m0, done, self.color),
            ensures
                canvas.pixels() == paint(m0, segment(p1, p2), self.color),
            decreases (a - i) + (b - j),
        {
            let ghost here = (x as int, y as int);
            canvas.draw_pixel(x as i32, y as i32, &self.color);
            proof {
                lemma_paint_union(m0, done, set![here], self.color);
                done = done.union(set![here]);
            }
            if x == p2.0 as i64 && y == p2.1 as i64 {
                proof {
                    assert(segment(p1, p2) =~= done);
                }
                break;
            }
            proof {
                lemma_segment_step(a, b, i, j);
                lemma_segment_error_bound(a, b, i, j);
                lemma_segment_error_bound(a, b, i + 1, j);
                lemma_segment_error_bound(a, b, i, j + 1);
                lemma_segment_error_bound(a, b, i + 1, j + 1);
            }
            let e2: i128 = 2 * err;
            let ghost i0 = i;
            let ghost j0 = j;
            let ghost err0 = err;
            if e2 >= dy as i128 {
                err = err + dy as i128;
                x = x + sx;
                proof {
                    i = i + 1;
                }
            }
            if e2 <= dx as i128 {
                err = err + dx as i128;
                y = y + sy;
                proof {
                    j = j + 1;
                }
            }
            proof {
                assert(err == segment_error(a, b, i, j)) by (nonlinear_arith)
                    requires
                        err0 == a * (j0 + 1) - b * (i0 + 1),
                        i == i0 || i == i0 + 1,
                        j == j0 || j == j0 + 1,
                        err == err0 + (if i == i0 + 1 {
                            dy
                        } else {
                            0
                        }) + (if j == j0 + 1 {
                            dx
                        } else {
                            0
                        }),
                        dx == a,
                        dy == -b,
                ;
                assert(segment_from(p1, p2, i0, j0) == set![here].union(segment_from(p1, p2, i, j)));
                assert(segment(p1, p2) =~= done.union(segment_from(p1, p2, i, j)));
            }
        }
    }
}

impl Drawable for Line {
    open spec fn fits(&self) -> bool {
        true
    }

    open spec fn painted(&self, canvas: Map<(int, int), Color>) -> Map<(int, int), Color> {
        paint(canvas, self.points(), self.spec_color())
    }

    fn draw<C: PixelDraw>(&self, canvas: &mut C) {
        match self.method {
            ConstructMethod::FromBbox { bbox, vertical } => self.draw_from_bbox(canvas, bbox, vertical),
            ConstructMethod::ByPoints { p1, p2 } => self.draw_by_points(canvas, p1, p2),
        }
    }
}

} // verus!
