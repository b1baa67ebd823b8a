//! The packed pixel store and the pixel-sink capability.
use vstd::arithmetic::div_mod::{
    lemma_fundamental_div_mod,
    lemma_fundamental_div_mod_converse_div,
    lemma_mod_bound,
};
use vstd::prelude::*;

verus! {

/// The two colours of a monochrome display.
#[derive(Clone, Copy, PartialEq, Eq, Debug, Structural)]
pub enum Color {
    Black,
    White,
}

/// Direction along which a widget is laid out.
#[derive(Clone, Copy, PartialEq, Eq, Debug, Structural)]
pub enum Orientation {
    Vertical,
    Horizontal,
}

/// `canvas` with every pixel of `pixels` that it holds set to `color`;
/// positions outside the canvas are ignored.
pub open spec fn paint(canvas: Map<(int, int), Color>, pixels: Set<(int, int)>, color: Color) -> Map<
    (int, int),
    Color,
> {
    Map::new(
        |p: (int, int)| canvas.dom().contains(p),
        |p: (int, int)|
            if pixels.contains(p) {
                color
            } else {
                canvas[p]
            },
    )
}

/// Painting two sets in one colour, one after the other, paints their union.
pub proof fn lemma_paint_union(
    canvas: Map<(int, int), Color>,
    a: Set<(int, int)>,
    b: Set<(int, int)>,
    color: Color,
)
    ensures
        paint(paint(canvas, a, color), b, color) == paint(canvas, a.union(b), color),
{
    assert(paint(paint(canvas, a, color), b, color) =~= paint(canvas, a.union(b), color));
}

/// Painting no pixel leaves the canvas as it is.
pub proof fn lemma_paint_empty(canvas: Map<(int, int), Color>, color: Color)
    ensures
        paint(canvas, Set::empty(), color) == canvas,
{
    assert(paint(canvas, Set::empty(), color) =~= canvas);
}

/// A destination for pixels.
pub trait PixelDraw {
    /// The colour of every pixel the sink holds, keyed by position.
    spec fn pixels(&self) -> Map<(int, int), Color>;

    /// Sets one pixel; returns whether the position lies on the sink.
    fn draw_pixel(&mut self, x: i32, y: i32, color: &Color) -> (r: bool)
        ensures
            r == old(self).pixels().dom().contains((x as int, y as int)),
            final(self).pixels() == paint(old(self).pixels(), set![(x as int, y as int)], *color),
    ;
}

/// Number of vertically stacked pixels held by one byte, unless configured otherwise.
pub const DEFAULT_ROW_HEIGHT: i32 = 8;

/// Bytes needed for a `width` by `height` display with `row_height` pixels per byte:
/// one byte per column in each band of `row_height` rows.
pub open spec fn required_len(width: int, height: int, row_height: int) -> int {
    if width <= 0 || height <= 0 {
        0
    } else {
        ((height + row_height - 1) / row_height) * width
    }
}

/// Bytes needed for a `width` by `height` display with `row_height` pixels per byte.
pub fn bytes_needed(width: i32, height: i32, row_height: i32) -> (r: u64)
    requires
        1 <= row_height <= 8,
    ensures
        r == required_len(width as int, height as int, row_height as int),
{
    if width <= 0 || height <= 0 {
        0
    } else {
        let bands: u64 = ((height as u64) + (row_height as u64) - 1) / (row_height as u64);
        assert(bands <= height) by (nonlinear_arith)
            requires
                bands == (height + row_height - 1) / (row_height as int),
                row_height >= 1,
                height >= 1,
        ;
        assert(bands * (width as u64) <= 0x7fff_ffff * 0x7fff_ffff) by (nonlinear_arith)
            requires
                bands <= 0x7fff_ffff,
                width <= 0x7fff_ffff,
                width >= 0,
        ;
        bands * (width as u64)
    }
}

/// A `width` by `height` canvas with every pixel white.
pub open spec fn blank_canvas(width: int, height: int) -> Map<(int, int), Color> {
    Map::new(|p: (int, int)| 0 <= p.0 < width && 0 <= p.1 < height, |p: (int, int)| Color::White)
}

/// Whether bit `i` of `b` is set.
pub open spec fn bit_set(b: u8, i: int) -> bool {
    b & (1u8 << (i as u8)) != 0
}

/// A monochrome display held as bytes; each byte holds `row_height` vertically
/// stacked pixels, bit 0 on top, and a set bit is black.
pub struct Framebuffer {
    width: i32,
    height: i32,
    row_height: i32,
    frame: Vec<u8>,
}

impl Framebuffer {
    pub closed spec fn spec_width(&self) -> int {
        self.width as int
    }

    pub closed spec fn spec_height(&self) -> int {
        self.height as int
    }

    pub closed spec fn spec_row_height(&self) -> int {
        self.row_height as int
    }

    /// The bytes of the display.
    pub closed spec fn bytes(&self) -> Seq<u8> {
        self.frame@
    }

    /// The buffer holds every pixel of the display.
    pub open spec fn wf(&self) -> bool {
        &&& 1 <= self.spec_row_height() <= 8
        &&& self.bytes().len() >= required_len(
            self.spec_width(),
            self.spec_height(),
            self.spec_row_height(),
        )
    }

    /// Whether `(x, y)` lies on the display.
    pub open spec fn in_bounds(&self, x: int, y: int) -> bool {
        0 <= x < self.spec_width() && 0 <= y < self.spec_height()
    }

    /// Index of the byte that holds pixel `(x, y)`.
    pub open spec fn byte_index(&self, x: int, y: int) -> int {
        (y / self.spec_row_height()) * self.spec_width() + x
    }

    /// Position of pixel `(x, y)` within its byte.
    pub open spec fn bit_index(&self, y: int) -> int {
        y % self.spec_row_height()
    }

    /// The colour stored for pixel `(x, y)`.
    pub open spec fn color_at(&self, x: int, y: int) -> Color {
        if bit_set(self.bytes()[self.byte_index(x, y)], self.bit_index(y)) {
            Color::Black
        } else {
            Color::White
        }
    }

    #[verifier::type_invariant]
    spec fn inv(&self) -> bool {
        self.wf()
    }

    /// Constructs a display with the default row height of eight pixels per byte.
    /// Returns `None` if `frame` is too small to hold every pixel.
    pub fn new(width: i32, height: i32, frame: Vec<u8>) -> (r: Option<Self>)
        ensures
            r is Some <==> frame@.len() >= required_len(width as int, height as int, 8),
            r matches Some(fb) ==> {
                &&& fb.wf()
                &&& fb.spec_width() == width
                &&& fb.spec_height() == height
                &&& fb.spec_row_height() == 8
                &&& fb.bytes() == frame@
            },
    {
        Self::with_row_height(width, height, DEFAULT_ROW_HEIGHT, frame)
    }

    /// Constructs a display whose bytes hold `row_height` pixels each.
    /// Returns `None` if `frame` is too small to hold every pixel.
    pub fn with_row_height(width: i32, height: i32, row_height: i32, frame: Vec<u8>) -> (r: Option<
        Self,
    >)
        requires
            1 <= row_height <= 8,
        ensures
            r is Some <==> frame@.len() >= required_len(width as int, height as int, row_height as int),
            r matches Some(fb) ==> {
                &&& fb.wf()
                &&& fb.spec_width() == width
                &&& fb.spec_height() == height
                &&& fb.spec_row_height() == row_height
                &&& fb.bytes() == frame@
            },
    {
        let needed = bytes_needed(width, height, row_height);
        if (frame.len() as u64) < needed {
            return None;
        }
        Some(Framebuffer { width, height, row_height, frame })
    }

    /// Byte and bit that hold pixel `(x, y)`.
    fn locate(&self, x: i32, y: i32) -> (r: (usize, u8))
        requires
            self.wf(),
            self.in_bounds(x as int, y as int),
        ensures
            r.0 == self.byte_index(x as int, y as int),
            r.0 < self.bytes().len(),
            r.1 == self.bit_index(y as int),
            r.1 < 8,
    {
        proof {
            lemma_pixel_byte_in_range(
                self.spec_width(),
                self.spec_height(),
                self.spec_row_height(),
                x as int,
                y as int,
            );
            lemma_mod_bound(y as int, self.spec_row_height());
        }
        let band: usize = (y / self.row_height) as usize;
        let w: usize = self.width as usize;
        assert(band * w + x < self.frame.len());
        let pos: usize = band * w + x as usize;
        let bit: u8 = (y % self.row_height) as u8;
        (pos, bit)
    }

    /// A display with every pixel white, with the default row height; `None` when its
    /// buffer would be too large to address.
    pub fn blank(width: i32, height: i32) -> (r: Option<Self>)
        ensures
            r is Some <==> required_len(width as int, height as int, 8) <= usize::MAX,
            r matches Some(fb) ==> {
                &&& fb.wf()
                &&& fb.spec_width() == width
                &&& fb.spec_height() == height
                &&& fb.spec_row_height() == 8
                &&& fb.pixels() == blank_canvas(width as int, height as int)
            },
    {
        let needed = bytes_needed(width, height, DEFAULT_ROW_HEIGHT);
        if needed > usize::MAX as u64 {
            return None;
        }
        let frame: Vec<u8> = vec![0u8; needed as usize];
        let fb = Framebuffer { width, height, row_height: DEFAULT_ROW_HEIGHT, frame };
        proof {
            assert forall|p: (int, int)| fb.in_bounds(p.0, p.1) implies fb.color_at(p.0, p.1)
                == Color::White by {
                lemma_pixel_byte_in_range(width as int, height as int, 8, p.0, p.1);
                lemma_mod_bound(p.1, 8);
                let q: u8 = fb.bit_index(p.1) as u8;
                assert(0u8 & (1u8 << q) == 0) by (bit_vector);
            }
            assert(fb.pixels() =~= blank_canvas(width as int, height as int));
        }
        Some(fb)
    }

    /// The colour of pixel `(x, y)`, which must lie on the display.
    pub fn get_pixel(&self, x: i32, y: i32) -> (r: Color)
        requires
            self.in_bounds(x as int, y as int),
        ensures
            r == self.color_at(x as int, y as int),
            r == self.pixels()[(x as int, y as int)],
    {
        proof {
            use_type_invariant(self);
        }
        let (pos, bit) = self.locate(x, y);
        let byte: u8 = self.frame[pos];
        if byte & (1u8 << bit) != 0 {
            Color::Black
        } else {
            Color::White
        }
    }

    pub fn get_height(&self) -> (r: i32)
        ensures
            r == self.spec_height(),
    {
        self.height
    }

    pub fn get_width(&self) -> (r: i32)
        ensures
            r == self.spec_width(),
    {
        self.width
    }

    /// Number of vertically stacked pixels held by one byte.
    pub fn get_row_height(&self) -> (r: i32)
        ensures
            r == self.spec_row_height(),
    {
        self.row_height
    }

    /// The bytes of the display, in the layout described on the type.
    pub fn as_bytes(&self) -> (r: &[u8])
        ensures
            r@ == self.bytes(),
    {
        self.frame.as_slice()
    }

    /// Gives the bytes of the display back.
    pub fn into_bytes(self) -> (r: Vec<u8>)
        ensures
            r@ == self.bytes(),
    {
        self.frame
    }
}

impl PixelDraw for Framebuffer {
    open spec fn pixels(&self) -> Map<(int, int), Color> {
        Map::new(|p: (int, int)| self.in_bounds(p.0, p.1), |p: (int, int)| self.color_at(p.0, p.1))
    }

    /// Sets pixel `(x, y)`: black sets its bit, white clears it. Positions off the
    /// display, negative ones included, are left alone and give `false`.
    fn draw_pixel(&mut self, x: i32, y: i32, color: &Color) -> (r: bool)
        ensures
            r == old(self).in_bounds(x as int, y as int),
            !r ==> final(self).bytes() == old(self).bytes(),
            r ==> final(self).color_at(x as int, y as int) == *color,
            final(self).spec_width() == old(self).spec_width(),
            final(self).spec_height() == old(self).spec_height(),
            final(self).spec_row_height() == old(self).spec_row_height(),
    {
        if x < 0 || y < 0 || self.width <= x || self.height <= y {
            proof {
                assert(self.pixels() =~= paint(old(self).pixels(), set![(x as int, y as int)], *color));
            }
            return false;
        }
        proof {
            use_type_invariant(&*self);
        }
        let (pos, bit) = self.locate(x, y);
        let byte: u8 = self.frame[pos];
        let updated: u8 = match color {
            Color::Black => byte | (1u8 << bit),
            Color::White => byte & !(1u8 << bit),
        };
        // The buffer is taken out whole, so the display stays well formed at every step.
        let mut taken = Framebuffer { width: 0, height: 0, row_height: 1, frame: Vec::new() };
        core::mem::swap(self, &mut taken);
        let Framebuffer { width, height, row_height, mut frame } = taken;
        frame[pos] = updated;
        *self = Framebuffer { width, height, row_height, frame };
        proof {
            let p0 = (x as int, y as int);
            assert forall|p: (int, int)| self.in_bounds(p.0, p.1) implies self.color_at(p.0, p.1) == (
            if p == p0 {
                *color
            } else {
                old(self).color_at(p.0, p.1)
            }) by {
                let q: u8 = self.bit_index(p.1) as u8;
                lemma_pixel_byte_in_range(self.spec_width(), self.spec_height(), self.spec_row_height(), p.0, p.1);
                lemma_mod_bound(p.1, self.spec_row_height());
                if self.byte_index(p.0, p.1) == pos as int {
                    if p != p0 {
                        lemma_pixel_byte_unique(self.spec_width(), self.spec_row_height(), p.0, p.1, p0.0, p0.1);
                    }
                    lemma_bit_update(byte, bit, q);
                }
            }
            assert(self.pixels() =~= paint(old(self).pixels(), set![(x as int, y as int)], *color));
            assert(self.in_bounds(p0.0, p0.1));
            assert(self.color_at(p0.0, p0.1) == *color);
        }
        true
    }
}

/// Drawing a pixel of a display and reading it back gives the colour drawn, and
/// leaves every other pixel as it was.
pub proof fn lemma_draw_then_get(fb: Framebuffer, x: int, y: int, color: Color)
    requires
        fb.in_bounds(x, y),
    ensures
        fb.pixels().dom().contains((x, y)),
        paint(fb.pixels(), set![(x, y)], color)[(x, y)] == color,
        forall|p: (int, int)|
            p != (x, y) && fb.pixels().dom().contains(p) ==> #[trigger] paint(
                fb.pixels(),
                set![(x, y)],
                color,
            )[p] == fb.pixels()[p],
{
}

/// Construction fails whenever the buffer holds fewer than `ceil(w·h / row_height)`
/// bytes, and succeeds on any larger buffer when the height is a whole number of
/// bands; with a partial last band each column still needs its own byte there.
pub proof fn lemma_capacity(w: int, h: int, row_height: int, len: int)
    requires
        0 <= w,
        0 <= h,
        1 <= row_height,
    ensures
        len < (w * h + row_height - 1) / row_height ==> len < required_len(w, h, row_height),
        h % row_height == 0 && len >= (w * h + row_height - 1) / row_height ==> len >= required_len(
            w,
            h,
            row_height,
        ),
{
    if w > 0 && h > 0 {
        let b = (h + row_height - 1) / row_height;
        let c = (w * h + row_height - 1) / row_height;
        lemma_fundamental_div_mod(h + row_height - 1, row_height);
        lemma_mod_bound(h + row_height - 1, row_height);
        lemma_fundamental_div_mod(w * h + row_height - 1, row_height);
        lemma_mod_bound(w * h + row_height - 1, row_height);
        assert(row_height * b >= h) by (nonlinear_arith)
            requires
                h + row_height - 1 == row_height * b + (h + row_height - 1) % row_height,
                (h + row_height - 1) % row_height < row_height,
        ;
        assert(c <= b * w) by (nonlinear_arith)
            requires
                row_height * b >= h,
                w * h + row_height - 1 == row_height * c + (w * h + row_height - 1) % row_height,
                0 <= (w * h + row_height - 1) % row_height,
                w > 0,
                row_height >= 1,
        ;
        if h % row_height == 0 {
            lemma_fundamental_div_mod(h, row_height);
            let q = h / row_height;
            assert(b == q) by (nonlinear_arith)
                requires
                    h == row_height * q + h % row_height,
                    h % row_height == 0,
                    h + row_height - 1 == row_height * b + (h + row_height - 1) % row_height,
                    0 <= (h + row_height - 1) % row_height < row_height,
                    row_height >= 1,
            ;
            assert(c >= b * w) by (nonlinear_arith)
                requires
                    h == row_height * b,
                    w * h + row_height - 1 == row_height * c + (w * h + row_height - 1) % row_height,
                    0 <= (w * h + row_height - 1) % row_height < row_height,
                    row_height >= 1,
            ;
        }
    } else {
        assert(w * h == 0) by (nonlinear_arith)
            requires
                w == 0 || h == 0,
        ;
        lemma_fundamental_div_mod_converse_div(row_height - 1, row_height, 0, row_height - 1);
    }
}

/// Every pixel of a display lies in a byte that the buffer holds.
proof fn lemma_pixel_byte_in_range(w: int, h: int, rh: int, x: int, y: int)
    requires
        0 <= x < w,
        0 <= y < h,
        1 <= rh,
    ensures
        0 <= (y / rh) * w + x < required_len(w, h, rh),
{
    let q = y / rh;
    let b = (h + rh - 1) / rh;
    lemma_fundamental_div_mod(y, rh);
    lemma_fundamental_div_mod(h + rh - 1, rh);
    lemma_mod_bound(y, rh);
    lemma_mod_bound(h + rh - 1, rh);
    assert(0 <= q < b) by (nonlinear_arith)
        requires
            y == rh * q + y % rh,
            0 <= y % rh < rh,
            h + rh - 1 == rh * b + (h + rh - 1) % rh,
            0 <= (h + rh - 1) % rh < rh,
            0 <= y < h,
            1 <= rh,
    ;
    assert(0 <= q * w + x < b * w) by (nonlinear_arith)
        requires
            0 <= q < b,
            0 <= x < w,
    ;
}

/// Distinct pixels of a display sit in distinct bytes or at distinct bits.
proof fn lemma_pixel_byte_unique(w: int, rh: int, x1: int, y1: int, x2: int, y2: int)
    requires
        0 <= x1 < w,
        0 <= x2 < w,
        0 <= y1,
        0 <= y2,
        1 <= rh,
        (y1 / rh) * w + x1 == (y2 / rh) * w + x2,
    ensures
        x1 == x2,
        y1 % rh == y2 % rh ==> y1 == y2,
{
    let q1 = y1 / rh;
    let q2 = y2 / rh;
    assert(q1 == q2) by (nonlinear_arith)
        requires
            q1 * w + x1 == q2 * w + x2,
            0 <= x1 < w,
            0 <= x2 < w,
    ;
    lemma_fundamental_div_mod(y1, rh);
    lemma_fundamental_div_mod(y2, rh);
}

/// Setting or clearing bit `p` of a byte leaves its other bits alone.
proof fn lemma_bit_update(b: u8, p: u8, q: u8)
    requires
        p < 8,
        q < 8,
    ensures
        ((b | (1u8 << p)) & (1u8 << q) != 0) == (p == q || b & (1u8 << q) != 0),
        ((b & !(1u8 << p)) & (1u8 << q) != 0) == (p != q && b & (1u8 << q) != 0),
{
    assert(((b | (1u8 << p)) & (1u8 << q) != 0) == (p == q || b & (1u8 << q) != 0)) by (bit_vector)
        requires
            p < 8,
            q < 8,
    ;
    assert(((b & !(1u8 << p)) & (1u8 << q) != 0) == (p != q && b & (1u8 << q) != 0)) by (bit_vector)
        requires
            p < 8,
            q < 8,
    ;
}

} // verus!
