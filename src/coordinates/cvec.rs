//! Integer 2D vectors.
use vstd::prelude::*;

verus! {

/// A vector of coordinates: the position of a point or the size of a box.
pub type Vec2 = (i32, i32);

/// Whether `v` fits in an `i32`.
pub open spec fn fits_i32(v: int) -> bool {
    i32::MIN <= v <= i32::MAX
}

/// Quotient of `a` by `b` rounded toward zero, as Rust's `/` gives it.
pub open spec fn trunc_div(a: int, b: int) -> int {
    let q: int = (vstd::math::abs(a) / vstd::math::abs(b)) as int;
    if (a >= 0) == (b > 0) {
        q
    } else {
        -q
    }
}

/// Quotient of `a` by `b`, rounded toward zero.
fn div_toward_zero(a: i32, b: i32) -> (r: i32)
    requires
        b != 0,
        fits_i32(trunc_div(a as int, b as int)),
    ensures
        r == trunc_div(a as int, b as int),
{
    let ma: i64 = if a < 0 {
        -(a as i64)
    } else {
        a as i64
    };
    let mb: i64 = if b < 0 {
        -(b as i64)
    } else {
        b as i64
    };
    let q: i64 = ma / mb;
    if (a >= 0) == (b > 0) {
        q as i32
    } else {
        (-q) as i32
    }
}

/// Scaling of a vector by an integer factor.
pub trait Vector2: Sized {
    /// Whether both products of `scale` fit the coordinate type.
    spec fn can_scale(&self, scalar: i32) -> bool;

    /// Whether both quotients of `div` fit the coordinate type.
    spec fn can_div(&self, scalar: i32) -> bool;

    /// Each coordinate multiplied by `scalar`.
    spec fn scaled(&self, scalar: i32) -> Self;

    /// Each coordinate divided by `scalar`, rounded toward zero.
    spec fn divided(&self, scalar: i32) -> Self;

    fn scale(&self, scalar: i32) -> (r: Self)
        requires
            self.can_scale(scalar),
        ensures
            r == self.scaled(scalar),
    ;

    fn div(&self, scalar: i32) -> (r: Self)
        requires
            scalar != 0,
            self.can_div(scalar),
        ensures
            r == self.divided(scalar),
    ;
}

impl Vector2 for Vec2 {
    open spec fn can_scale(&self, scalar: i32) -> bool {
        fits_i32(self.0 * scalar) && fits_i32(self.1 * scalar)
    }

    open spec fn can_div(&self, scalar: i32) -> bool {
        fits_i32(trunc_div(self.0 as int, scalar as int)) && fits_i32(
            trunc_div(self.1 as int, scalar as int),
        )
    }

    open spec fn scaled(&self, scalar: i32) -> Vec2 {
        ((self.0 * scalar) as i32, (self.1 * scalar) as i32)
    }

    open spec fn divided(&self, scalar: i32) -> Vec2 {
        (trunc_div(self.0 as int, scalar as int) as i32, trunc_div(self.1 as int, scalar as int) as i32)
    }

    /// Scales a vector up or down; a negative `scalar` also mirrors it.
    fn scale(&self, scalar: i32) -> (r: Vec2) {
        (self.0 * scalar, self.1 * scalar)
    }

    fn div(&self, scalar: i32) -> (r: Vec2) {
        (div_toward_zero(self.0, scalar), div_toward_zero(self.1, scalar))
    }
}

/// A vector of coordinates with named fields.
#[derive(Clone, Copy, PartialEq, Eq, Debug, Structural)]
pub struct CVec {
    pub x: i32,
    pub y: i32,
}

impl CVec {
    pub fn new(x: i32, y: i32) -> (r: Self)
        ensures
            r.x == x,
            r.y == y,
    {
        Self { x, y }
    }

    /// Scales a vector up or down: a positive `scaling` multiplies each coordinate
    /// by it, a negative one divides each coordinate by it, rounding toward zero.
    pub fn scale(&self, scaling: i32) -> (r: Self)
        requires
            scaling != 0,
            scaling > 0 ==> fits_i32(self.x * scaling) && fits_i32(self.y * scaling),
            scaling < 0 ==> fits_i32(trunc_div(self.x as int, scaling as int)) && fits_i32(
                trunc_div(self.y as int, scaling as int),
            ),
        ensures
            scaling > 0 ==> r.x == self.x * scaling && r.y == self.y * scaling,
            scaling < 0 ==> r.x == trunc_div(self.x as int, scaling as int) && r.y == trunc_div(
                self.y as int,
                scaling as int,
            ),
    {
        if scaling > 0 {
            Self { x: self.x * scaling, y: self.y * scaling }
        } else {
            Self { x: div_toward_zero(self.x, scaling), y: div_toward_zero(self.y, scaling) }
        }
    }
}

impl From<Vec2> for CVec {
    fn from(c: Vec2) -> (r: Self) {
        Self { x: c.0, y: c.1 }
    }
}

impl vstd::std_specs::convert::FromSpecImpl<Vec2> for CVec {
    open spec fn obeys_from_spec() -> bool {
        true
    }

    open spec fn from_spec(c: Vec2) -> CVec {
        CVec { x: c.0, y: c.1 }
    }
}

} // verus!
