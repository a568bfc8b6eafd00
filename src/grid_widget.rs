use vstd::prelude::*;

use crate::canvas::{presents_nothing, DrawOp};
use crate::config::WidgetConfig;
use crate::geometry::{Color, Point, Size};

verus! {

pub open spec fn line_gray() -> Color {
    Color { r: 192, g: 192, b: 192, a: 255 }
}

pub open spec fn dot_black() -> Color {
    Color { r: 0, g: 0, b: 0, a: 255 }
}

/// The vertical grid lines at `x` offsets `i, i + step, ...` below the widget's width.
pub open spec fn vertical_lines(c: WidgetConfig, step: int, i: int) -> Seq<DrawOp>
    decreases c.size.w + step - i,
{
    if step <= 0 || i >= c.size.w {
        seq![]
    } else {
        seq![
            DrawOp::DrawLine(
                (c.origin.x + i) as i64,
                c.origin.y as i64,
                (c.origin.x + i) as i64,
                (c.origin.y + c.size.h) as i64,
                line_gray(),
            ),
        ] + vertical_lines(c, step, i + step)
    }
}

/// The horizontal grid lines at `y` offsets `i, i + step, ...` below the widget's height.
pub open spec fn horizontal_lines(c: WidgetConfig, step: int, i: int) -> Seq<DrawOp>
    decreases c.size.h + step - i,
{
    if step <= 0 || i >= c.size.h {
        seq![]
    } else {
        seq![
            DrawOp::DrawLine(
                c.origin.x as i64,
                (c.origin.y + i) as i64,
                (c.origin.x + c.size.w) as i64,
                (c.origin.y + i) as i64,
                line_gray(),
            ),
        ] + horizontal_lines(c, step, i + step)
    }
}

/// The dots of the column at `x` offset `x`, at `y` offsets `y, y + step, ...`.
pub open spec fn column_dots(c: WidgetConfig, step: int, x: int, y: int) -> Seq<DrawOp>
    decreases c.size.h + step - y,
{
    if step <= 0 || y >= c.size.h {
        seq![]
    } else {
        seq![DrawOp::DrawPoint((c.origin.x + x) as i64, (c.origin.y + y) as i64, dot_black())]
            + column_dots(c, step, x, y + step)
    }
}

/// The dots of all columns at `x` offsets `x, x + step, ...`, column by column.
pub open spec fn grid_dots(c: WidgetConfig, step: int, x: int) -> Seq<DrawOp>
    decreases c.size.w + step - x,
{
    if step <= 0 || x >= c.size.w {
        seq![]
    } else {
        column_dots(c, step, x, 0) + grid_dots(c, step, x + step)
    }
}

/// What a grid widget paints: its base color, then either grid lines or grid dots every
/// `step` pixels from its origin, then its border.
pub open spec fn grid_ops(c: WidgetConfig, step: int, connections: bool) -> Seq<DrawOp> {
    seq![DrawOp::FillRect(c.area_spec(), c.base_color)] + (if connections {
        vertical_lines(c, step, 0) + horizontal_lines(c, step, 0)
    } else {
        grid_dots(c, step, 0)
    }) + seq![DrawOp::DrawRect(c.area_spec(), c.border_color)]
}

proof fn lemma_vertical_lines_quiet(c: WidgetConfig, step: int, i: int)
    ensures
        presents_nothing(vertical_lines(c, step, i)),
    decreases c.size.w + step - i,
{
    if !(step <= 0 || i >= c.size.w) {
        lemma_vertical_lines_quiet(c, step, i + step);
        let rest = vertical_lines(c, step, i + step);
        assert forall|k: int| 0 <= k < vertical_lines(c, step, i).len() implies !(
        #[trigger] vertical_lines(c, step, i)[k] is Present) by {
            if k > 0 {
                assert(vertical_lines(c, step, i)[k] == rest[k - 1]);
            }
        }
    }
}

proof fn lemma_horizontal_lines_quiet(c: WidgetConfig, step: int, i: int)
    ensures
        presents_nothing(horizontal_lines(c, step, i)),
    decreases c.size.h + step - i,
{
    if !(step <= 0 || i >= c.size.h) {
        lemma_horizontal_lines_quiet(c, step, i + step);
        let rest = horizontal_lines(c, step, i + step);
        assert forall|k: int| 0 <= k < horizontal_lines(c, step, i).len() implies !(
        #[trigger] horizontal_lines(c, step, i)[k] is Present) by {
            if k > 0 {
                assert(horizontal_lines(c, step, i)[k] == rest[k - 1]);
            }
        }
    }
}

proof fn lemma_column_dots_quiet(c: WidgetConfig, step: int, x: int, y: int)
    ensures
        presents_nothing(column_dots(c, step, x, y)),
    decreases c.size.h + step - y,
{
    if !(step <= 0 || y >= c.size.h) {
        lemma_column_dots_quiet(c, step, x, y + step);
        let rest = column_dots(c, step, x, y + step);
        assert forall|k: int| 0 <= k < column_dots(c, step, x, y).len() implies !(
        #[trigger] column_dots(c, step, x, y)[k] is Present) by {
            if k > 0 {
                assert(column_dots(c, step, x, y)[k] == rest[k - 1]);
            }
        }
    }
}

proof fn lemma_grid_dots_quiet(c: WidgetConfig, step: int, x: int)
    ensures
        presents_nothing(grid_dots(c, step, x)),
    decreases c.size.w + step - x,
{
    if !(step <= 0 || x >= c.size.w) {
        lemma_grid_dots_quiet(c, step, x + step);
        lemma_column_dots_quiet(c, step, x, 0);
        let col = column_dots(c, step, x, 0);
        let rest = grid_dots(c, step, x + step);
        assert forall|k: int| 0 <= k < grid_dots(c, step, x).len() implies !(
        #[trigger] grid_dots(c, step, x)[k] is Present) by {
            if k < col.len() {
                assert(grid_dots(c, step, x)[k] == col[k]);
            } else {
                assert(grid_dots(c, step, x)[k] == rest[k - col.len()]);
            }
        }
    }
}

/// A grid paints no `Present`.
pub proof fn lemma_grid_ops_quiet(c: WidgetConfig, step: int, connections: bool)
    ensures
        presents_nothing(grid_ops(c, step, connections)),
{
    let body = if connections {
        vertical_lines(c, step, 0) + horizontal_lines(c, step, 0)
    } else {
        grid_dots(c, step, 0)
    };
    lemma_vertical_lines_quiet(c, step, 0);
    lemma_horizontal_lines_quiet(c, step, 0);
    lemma_grid_dots_quiet(c, step, 0);
    let v = vertical_lines(c, step, 0);
    assert forall|k: int| 0 <= k < body.len() implies !(#[trigger] body[k] is Present) by {
        if connections && k >= v.len() {
            assert(body[k] == horizontal_lines(c, step, 0)[k - v.len()]);
        }
    }
    let all = grid_ops(c, step, connections);
    assert forall|k: int| 0 <= k < all.len() implies !(#[trigger] all[k] is Present) by {
        if 0 < k <= body.len() {
            assert(all[k] == body[k - 1]);
        }
    }
}

/// A widget that shows a grid inside its bounds: lines every `grid_size` pixels when
/// `grid_connections` is on, dots at the crossings when it is off.  A grid size of zero shows
/// neither.
pub struct GridWidget {
    pub config: WidgetConfig,
    pub grid_size: u32,
    pub grid_connections: bool,
}

impl GridWidget {
    pub fn new(points: Point, size: Size, grid_size: u32, grid_connections: bool) -> (r:
        GridWidget)
        ensures
            r.config == WidgetConfig::fresh(points, size),
            r.grid_size == grid_size,
            r.grid_connections == grid_connections,
    {
        GridWidget { config: WidgetConfig::new(points, size), grid_size, grid_connections }
    }

    /// Adjusts the spacing of the grid; the widget is redrawn.
    pub fn set_grid_size(&mut self, grid_size: u32)
        ensures
            final(self).grid_size == grid_size,
            final(self).grid_connections == old(self).grid_connections,
            final(self).config == (WidgetConfig { invalidated: true, ..old(self).config }),
    {
        self.grid_size = grid_size;
        self.config.set_invalidated(true);
    }

    /// Chooses between grid lines and dots; the widget is redrawn.
    pub fn set_grid_connections(&mut self, grid_connections: bool)
        ensures
            final(self).grid_connections == grid_connections,
            final(self).grid_size == old(self).grid_size,
            final(self).config == (WidgetConfig { invalidated: true, ..old(self).config }),
    {
        self.grid_connections = grid_connections;
        self.config.set_invalidated(true);
    }

    /// Paints the grid and clears the invalidated flag.
    pub fn draw(&mut self) -> (ops: Vec<DrawOp>)
        ensures
            ops@ == grid_ops(old(self).config, old(self).grid_size as int, old(self).grid_connections),
            final(self).config == (WidgetConfig { invalidated: false, ..old(self).config }),
            final(self).grid_size == old(self).grid_size,
            final(self).grid_connections == old(self).grid_connections,
    {
        let c = self.config;
        let step = self.grid_size as u64;
        let w = c.size.w as u64;
        let h = c.size.h as u64;
        let x0 = c.origin.x as i64;
        let y0 = c.origin.y as i64;
        let mut ops: Vec<DrawOp> = Vec::new();
        ops.push(DrawOp::FillRect(c.get_drawing_area(), c.base_color));
        let ghost head = ops@;
        if self.grid_connections {
            let gray = Color::rgb(192, 192, 192);
            let mut i: u64 = 0;
            if step > 0 {
                while i < w
                    invariant
                        0 < step <= 0xffff_ffff,
                        w == c.size.w,
                        h == c.size.h,
                        x0 == c.origin.x,
                        y0 == c.origin.y,
                        gray == line_gray(),
                        i <= w + step,
                        ops@ + vertical_lines(c, step as int, i as int) == head
                            + vertical_lines(c, step as int, 0),
                    decreases w + step - i,
                {
                    let ghost before = ops@;
                    ops.push(DrawOp::DrawLine(x0 + i as i64, y0, x0 + i as i64, y0 + h as i64, gray));
                    assert(ops@ + vertical_lines(c, step as int, (i + step) as int) =~= before
                        + vertical_lines(c, step as int, i as int));
                    i = i + step;
                }
            }
            assert(vertical_lines(c, step as int, i as int) =~= seq![]);
            assert(ops@ =~= head + vertical_lines(c, step as int, 0));
            let ghost mid = ops@;
            let mut j: u64 = 0;
            if step > 0 {
                while j < h
                    invariant
                        0 < step <= 0xffff_ffff,
                        w == c.size.w,
                        h == c.size.h,
                        x0 == c.origin.x,
                        y0 == c.origin.y,
                        gray == line_gray(),
                        j <= h + step,
                        ops@ + horizontal_lines(c, step as int, j as int) == mid
                            + horizontal_lines(c, step as int, 0),
                    decreases h + step - j,
                {
                    let ghost before = ops@;
                    ops.push(DrawOp::DrawLine(x0, y0 + j as i64, x0 + w as i64, y0 + j as i64, gray));
                    assert(ops@ + horizontal_lines(c, step as int, (j + step) as int) =~= before
                        + horizontal_lines(c, step as int, j as int));
                    j = j + step;
                }
            }
            assert(horizontal_lines(c, step as int, j as int) =~= seq![]);
            assert(ops@ =~= head + (vertical_lines(c, step as int, 0) + horizontal_lines(
                c,
                step as int,
                0,
            )));
        } else {
            let black = Color::rgb(0, 0, 0);
            let mut x: u64 = 0;
            if step > 0 {
                while x < w
                    invariant
                        0 < step <= 0xffff_ffff,
                        w == c.size.w,
                        h == c.size.h,
                        x0 == c.origin.x,
                        y0 == c.origin.y,
                        black == dot_black(),
                        x <= w + step,
                        ops@ + grid_dots(c, step as int, x as int) == head + grid_dots(
                            c,
                            step as int,
                            0,
                        ),
                    decreases w + step - x,
                {
                    let ghost col_start = ops@;
                    let mut y: u64 = 0;
                    while y < h
                        invariant
                            0 < step <= 0xffff_ffff,
                            x < w,
                            w == c.size.w,
                            h == c.size.h,
                            x0 == c.origin.x,
                            y0 == c.origin.y,
                            black == dot_black(),
                            y <= h + step,
                            ops@ + column_dots(c, step as int, x as int, y as int) == col_start
                                + column_dots(c, step as int, x as int, 0),
                        decreases h + step - y,
                    {
                        let ghost before = ops@;
                        ops.push(DrawOp::DrawPoint(x0 + x as i64, y0 + y as i64, black));
                        assert(ops@ + column_dots(c, step as int, x as int, (y + step) as int)
                            =~= before + column_dots(c, step as int, x as int, y as int));
                        y = y + step;
                    }
                    assert(column_dots(c, step as int, x as int, y as int) =~= seq![]);
                    assert(ops@ + grid_dots(c, step as int, (x + step) as int) =~= col_start
                        + grid_dots(c, step as int, x as int));
                    x = x + step;
                }
            }
            assert(grid_dots(c, step as int, x as int) =~= seq![]);
            assert(ops@ =~= head + grid_dots(c, step as int, 0));
        }
        ops.push(DrawOp::DrawRect(c.get_drawing_area(), c.border_color));
        self.config.set_invalidated(false);
        ops
    }
}

} // verus!
