//! Axis-aligned bounding boxes, inclusive on both ends.
use crate::coordinates::cvec::{fits_i32, Vec2};
use vstd::prelude::*;

verus! {

/// One of the two axes of the plane.
#[derive(Clone, Copy, PartialEq, Eq, Debug, Structural)]
pub enum Axis {
    X,
    Y,
}

/// The integers from `lo` to `hi`, both included; empty when `lo > hi`.
pub open spec fn range_seq(lo: int, hi: int) -> Seq<int> {
    Seq::new(
        if lo <= hi {
            (hi - lo + 1) as nat
        } else {
            0
        },
        |i: int| lo + i,
    )
}

/// A rectangular region of pixel positions from `start` to `end`, both included.
/// Boxes with `start` past `end` on an axis hold no position on that axis.
#[derive(Clone, Copy, PartialEq, Eq, Debug)]
pub struct BBox {
    pub start: Vec2,
    pub end: Vec2,
}

impl BBox {
    /// `start` lies at or before `end` on both axes.
    pub open spec fn wf(&self) -> bool {
        self.start.0 <= self.end.0 && self.start.1 <= self.end.1
    }

    /// Whether position `p` lies in the box.
    pub open spec fn contains(&self, p: (int, int)) -> bool {
        self.start.0 <= p.0 <= self.end.0 && self.start.1 <= p.1 <= self.end.1
    }

    pub fn new(start: Vec2, end: Vec2) -> (r: Self)
        ensures
            r.start == start,
            r.end == end,
    {
        Self { start, end }
    }

    /// The box from `start` to `start + delta`.
    pub fn from_relative(start: Vec2, delta: Vec2) -> (r: Self)
        requires
            fits_i32(start.0 + delta.0),
            fits_i32(start.1 + delta.1),
        ensures
            r.start == start,
            r.end.0 == start.0 + delta.0,
            r.end.1 == start.1 + delta.1,
    {
        Self::new(start, (start.0 + delta.0, start.1 + delta.1))
    }

    /// Moves both ends apart by `delta` along `axis`: `start` goes back by `delta`
    /// and `end` forward by it, so a positive `delta` makes the box bigger and a
    /// negative one smaller.
    pub fn transform(&self, axis: Axis, delta: i32) -> (r: Self)
        requires
            axis == Axis::X ==> fits_i32(self.start.0 - delta) && fits_i32(self.end.0 + delta),
            axis == Axis::Y ==> fits_i32(self.start.1 - delta) && fits_i32(self.end.1 + delta),
        ensures
            axis == Axis::X ==> r.start == (
            (self.start.0 - delta) as i32, self.start.1) && r.end == ((self.end.0 + delta) as i32, self.end.1),
            axis == Axis::Y ==> r.start == (self.start.0, (self.start.1 - delta) as i32) && r.end == (
            self.end.0, (self.end.1 + delta) as i32),
    {
        match axis {
            Axis::X => Self::new((self.start.0 - delta, self.start.1), (self.end.0 + delta, self.end.1)),
            Axis::Y => Self::new((self.start.0, self.start.1 - delta), (self.end.0, self.end.1 + delta)),
        }
    }

    /// Moves both ends apart by `delta` along both axes, as `transform` does on each.
    pub fn transform_both(&self, delta: i32) -> (r: Self)
        requires
            fits_i32(self.start.0 - delta),
            fits_i32(self.start.1 - delta),
            fits_i32(self.end.0 + delta),
            fits_i32(self.end.1 + delta),
        ensures
            r.start.0 == self.start.0 - delta,
            r.start.1 == self.start.1 - delta,
            r.end.0 == self.end.0 + delta,
            r.end.1 == self.end.1 + delta,
    {
        Self::new(
            (self.start.0 - delta, self.start.1 - delta),
            (self.end.0 + delta, self.end.1 + delta),
        )
    }

    /// Splits the box along `axis`: the first part ends at `at - 1`, the second
    /// starts at `at`; the other axis is kept by both.
    pub fn split(&self, axis: Axis, at: i32) -> (r: (Self, Self))
        requires
            at > i32::MIN,
        ensures
            axis == Axis::X ==> r.0 == (BBox { start: self.start, end: ((at - 1) as i32, self.end.1) })
                && r.1 == (BBox { start: (at, self.start.1), end: self.end }),
            axis == Axis::Y ==> r.0 == (BBox { start: self.start, end: (self.end.0, (at - 1) as i32) })
                && r.1 == (BBox { start: (self.start.0, at), end: self.end }),
    {
        match axis {
            Axis::X => (Self::new(self.start, (at - 1, self.end.1)), Self::new((at, self.start.1), self.end)),
            Axis::Y => (Self::new(self.start, (self.end.0, at - 1)), Self::new((self.start.0, at), self.end)),
        }
    }

    /// `end.x - start.x`: one less than the number of columns.
    pub fn width(&self) -> (r: usize)
        requires
            self.start.0 <= self.end.0,
        ensures
            r == self.end.0 - self.start.0,
    {
        (self.end.0 as i64 - self.start.0 as i64) as usize
    }

    /// `end.y - start.y`: one less than the number of rows.
    pub fn height(&self) -> (r: usize)
        requires
            self.start.1 <= self.end.1,
        ensures
            r == self.end.1 - self.start.1,
    {
        (self.end.1 as i64 - self.start.1 as i64) as usize
    }

    /// The x coordinates of the box, from `start.x` to `end.x`.
    pub fn iter_x(&self) -> (r: CoordinatesIterator)
        ensures
            r.wf(),
            r.remaining() == range_seq(self.start.0 as int, self.end.0 as int),
    {
        CoordinatesIterator { start: self.start, end: self.end, axis: Axis::X, index: 0 }
    }

    /// The y coordinates of the box, from `start.y` to `end.y`.
    pub fn iter_y(&self) -> (r: CoordinatesIterator)
        ensures
            r.wf(),
            r.remaining() == range_seq(self.start.1 as int, self.end.1 as int),
    {
        CoordinatesIterator { start: self.start, end: self.end, axis: Axis::Y, index: 0 }
    }
}

/// The coordinates of a box along one axis, handed out one at a time.
pub struct CoordinatesIterator {
    start: Vec2,
    end: Vec2,
    axis: Axis,
    index: i64,
}

impl CoordinatesIterator {
    /// First coordinate along the axis.
    closed spec fn lo(&self) -> int {
        if self.axis == Axis::X {
            self.start.0 as int
        } else {
            self.start.1 as int
        }
    }

    /// Last coordinate along the axis.
    closed spec fn hi(&self) -> int {
        if self.axis == Axis::X {
            self.end.0 as int
        } else {
            self.end.1 as int
        }
    }

    /// The position is within the range, or just past its end.
    pub closed spec fn wf(&self) -> bool {
        0 <= self.index && (self.index == 0 || self.lo() + self.index <= self.hi() + 1)
    }

    /// The coordinates not yet handed out.
    pub closed spec fn remaining(&self) -> Seq<int> {
        range_seq(self.lo() + self.index, self.hi())
    }

    /// Hands out the next coordinate, or `None` once all have been.
    pub fn next(&mut self) -> (r: Option<i32>)
        requires
            old(self).wf(),
        ensures
            final(self).wf(),
            old(self).remaining().len() == 0 ==> r is None && final(self).remaining() == old(
                self,
            ).remaining(),
            old(self).remaining().len() > 0 ==> r == Some(old(self).remaining()[0] as i32)
                && final(self).remaining() == old(self).remaining().drop_first(),
    {
        let (lo, hi) = match self.axis {
            Axis::X => (self.start.0, self.end.0),
            Axis::Y => (self.start.1, self.end.1),
        };
        let elem: i64 = lo as i64 + self.index;
        if elem > hi as i64 {
            return None;
        }
        self.index = self.index + 1;
        assert(self.remaining() =~= old(self).remaining().drop_first());
        Some(elem as i32)
    }

    /// Number of coordinates not yet handed out; consumes the iterator.
    pub fn count(self) -> (r: usize)
        requires
            self.wf(),
            self.remaining().len() <= usize::MAX,
        ensures
            r == self.remaining().len(),
    {
        let (lo, hi) = match self.axis {
            Axis::X => (self.start.0, self.end.0),
            Axis::Y => (self.start.1, self.end.1),
        };
        let first: i64 = lo as i64 + self.index;
        if first > hi as i64 {
            0
        } else {
            (hi as i64 - first + 1) as usize
        }
    }
}

} // verus!
