//! A grid of evenly spaced divider lines.
use crate::coordinates::bounding_box::BBox;
use crate::framebuffer::{lemma_paint_empty, lemma_paint_union, paint, Color, PixelDraw};
use crate::geometry::line::{column, row, ConstructMethod, Line};
use crate::geometry::rect::lemma_flat_line;
use crate::geometry::Drawable;
use vstd::arithmetic::div_mod::{lemma_fundamental_div_mod, lemma_fundamental_div_mod_converse_mod};
use vstd::prelude::*;

verus! {

/// Spacing of dividers over the span from `from` to `to` split in `count` parts: the
/// span's extent divided by `count`, rounded down, and at least one. A count below one
/// counts as one.
pub open spec fn grid_step(from: int, to: int, count: int) -> int {
    let extent = if to >= from {
        to - from
    } else {
        0
    };
    let parts = if count < 1 {
        1
    } else {
        count
    };
    if extent / parts < 1 {
        1
    } else {
        extent / parts
    }
}

/// Column dividers left of column `limit`: full-height lines every `step` columns
/// from the left edge.
pub open spec fn grid_columns(bbox: BBox, step: int, limit: int) -> Set<(int, int)> {
    Set::new(
        |p: (int, int)| bbox.contains(p) && (p.0 - bbox.start.0) % step == 0 && p.0 < limit,
    )
}

/// Row dividers above row `limit`: full-width lines every `step` rows from the top
/// edge.
pub open spec fn grid_rows(bbox: BBox, step: int, limit: int) -> Set<(int, int)> {
    Set::new(
        |p: (int, int)| bbox.contains(p) && (p.1 - bbox.start.1) % step == 0 && p.1 < limit,
    )
}

/// The pixels of a grid of `rows` by `columns` over `bbox`: every pixel of the box on a
/// column divider or a row divider.
pub open spec fn grid(bbox: BBox, rows: int, columns: int) -> Set<(int, int)> {
    let column_step = grid_step(bbox.start.0 as int, bbox.end.0 as int, columns);
    let row_step = grid_step(bbox.start.1 as int, bbox.end.1 as int, rows);
    Set::new(
        |p: (int, int)|
            bbox.contains(p) && ((p.0 - bbox.start.0) % column_step == 0 || (p.1 - bbox.start.1)
                % row_step == 0),
    )
}

/// A grid of divider lines over a box.
pub struct Table {
    bbox: BBox,
    rows: i32,
    columns: i32,
    color: Color,
}

/// The next multiple of `step` past `base` after `x` is `step` further.
proof fn lemma_next_multiple(base: int, x: int, step: int)
    requires
        step >= 1,
        (x - base) % step == 0,
    ensures
        (x + step - base) % step == 0,
{
    lemma_fundamental_div_mod(x - base, step);
    let k = (x - base) / step;
    assert(x + step - base == (k + 1) * step) by (nonlinear_arith)
        requires
            x - base == step * k,
    ;
    lemma_fundamental_div_mod_converse_mod(x + step - base, step, k + 1, 0);
}

/// Between two neighbouring multiples of `step` past `base` no other one lies.
proof fn lemma_between_multiples(base: int, x: int, step: int, q: int)
    requires
        step >= 1,
        (x - base) % step == 0,
        x < q < x + step,
    ensures
        (q - base) % step != 0,
{
    lemma_fundamental_div_mod(x - base, step);
    let k = (x - base) / step;
    assert(q - base == k * step + (q - x)) by (nonlinear_arith)
        requires
            x - base == step * k,
    ;
    lemma_fundamental_div_mod_converse_mod(q - base, step, k, q - x);
}

/// Spacing of the dividers from `from` to `to`, as `grid_step` gives it.
fn step_of(from: i32, to: i32, count: i32) -> (r: i64)
    ensures
        r == grid_step(from as int, to as int, count as int),
        1 <= r <= 0x1_0000_0000,
{
    let extent: i64 = if to >= from {
        to as i64 - from as i64
    } else {
        0
    };
    let parts: i64 = if count < 1 {
        1
    } else {
        count as i64
    };
    let step = extent / parts;
    if step < 1 {
        1
    } else {
        step
    }
}

impl Table {
    pub closed spec fn spec_bbox(&self) -> BBox {
        self.bbox
    }

    pub closed spec fn spec_rows(&self) -> i32 {
        self.rows
    }

    pub closed spec fn spec_columns(&self) -> i32 {
        self.columns
    }

    pub closed spec fn spec_color(&self) -> Color {
        self.color
    }

    pub fn new(bbox: BBox, rows: i32, columns: i32, color: Color) -> (r: Self)
        ensures
            r.spec_bbox() == bbox,
            r.spec_rows() == rows,
            r.spec_columns() == columns,
            r.spec_color() == color,
    {
        Self { bbox, rows, columns, color }
    }
}

impl Drawable for Table {
    open spec fn fits(&self) -> bool {
        true
    }

    open spec fn painted(&self, canvas: Map<(int, int), Color>) -> Map<(int, int), Color> {
        paint(
            canvas,
            grid(self.spec_bbox(), self.spec_rows() as int, self.spec_columns() as int),
            self.spec_color(),
        )
    }

    /// Draws a vertical line at every column step from the left edge, then a
    /// horizontal one at every row step from the top edge.
    fn draw<C: PixelDraw>(&self, canvas: &mut C) {
        let ghost m0 = canvas.pixels();
        let bbox = self.bbox;
        let color = self.color;
        let column_step: i64 = step_of(bbox.start.0, bbox.end.0, self.columns);
        let row_step: i64 = step_of(bbox.start.1, bbox.end.1, self.rows);
        let mut x: i64 = bbox.start.0 as i64;
        proof {
            assert(grid_columns(bbox, column_step as int, x as int) =~= Set::empty());
            lemma_paint_empty(m0, color);
        }
        while x <= bbox.end.0 as i64
            invariant
                bbox == self.spec_bbox(),
                color == self.spec_color(),
                1 <= column_step <= 0x1_0000_0000,
                bbox.start.0 <= x,
                x <= bbox.end.0 + column_step || x == bbox.start.0,
                (x - bbox.start.0) % (column_step as int) == 0,
                canvas.pixels() == paint(m0, grid_columns(bbox, column_step as int, x as int), color),
            decreases bbox.end.0 + column_step - x,
        {
            let divider = BBox::new((x as i32, bbox.start.1), bbox.end);
            Line::new_vertical(divider, color).draw(canvas);
            proof {
                let before = grid_columns(bbox, column_step as int, x as int);
                let line = column(x as int, bbox.start.1 as int, bbox.end.1 as int);
                lemma_paint_union(m0, before, line, color);
                assert forall|p: (int, int)|
                    before.union(line).contains(p) == grid_columns(
                        bbox,
                        column_step as int,
                        x + column_step,
                    ).contains(p) by {
                    if x < p.0 < x + column_step {
                        lemma_between_multiples(bbox.start.0 as int, x as int, column_step as int, p.0);
                    }
                }
                assert(before.union(line) =~= grid_columns(bbox, column_step as int, x + column_step));
                lemma_next_multiple(bbox.start.0 as int, x as int, column_step as int);
            }
            x = x + column_step;
        }
        let ghost columns = grid_columns(bbox, column_step as int, x as int);
        let mut y: i64 = bbox.start.1 as i64;
        proof {
            assert(grid_rows(bbox, row_step as int, y as int) =~= Set::empty());
            assert(columns.union(Set::empty()) =~= columns);
        }
        while y <= bbox.end.1 as i64
            invariant
                bbox == self.spec_bbox(),
                color == self.spec_color(),
                1 <= row_step <= 0x1_0000_0000,
                bbox.start.1 <= y,
                y <= bbox.end.1 + row_step || y == bbox.start.1,
                (y - bbox.start.1) % (row_step as int) == 0,
                canvas.pixels() == paint(
                    m0,
                    columns.union(grid_rows(bbox, row_step as int, y as int)),
                    color,
                ),
            decreases bbox.end.1 + row_step - y,
        {
            let divider = BBox::new((bbox.start.0, y as i32), (bbox.end.0, y as i32));
            Line::new(ConstructMethod::FromBbox { bbox: divider, vertical: false }, color).draw(
                canvas,
            );
            proof {
                lemma_flat_line(divider);
                let before = grid_rows(bbox, row_step as int, y as int);
                let line = row(bbox.start.0 as int, bbox.end.0 as int, y as int);
                lemma_paint_union(m0, columns.union(before), line, color);
                assert forall|p: (int, int)|
                    before.union(line).contains(p) == grid_rows(
                        bbox,
                        row_step as int,
                        y + row_step,
                    ).contains(p) by {
                    if y < p.1 < y + row_step {
                        lemma_between_multiples(bbox.start.1 as int, y as int, row_step as int, p.1);
                    }
                }
                assert(before.union(line) =~= grid_rows(bbox, row_step as int, y + row_step));
                assert(columns.union(before).union(line) =~= columns.union(
                    grid_rows(bbox, row_step as int, y + row_step),
                ));
                lemma_next_multiple(bbox.start.1 as int, y as int, row_step as int);
            }
            y = y + row_step;
        }
        assert(columns.union(grid_rows(bbox, row_step as int, y as int)) =~= grid(
            bbox,
            self.rows as int,
            self.columns as int,
        ));
    }
}

} // verus!
