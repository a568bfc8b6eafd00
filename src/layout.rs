use vstd::prelude::*;

use crate::geometry::{sub_floor, Point, Size};
use crate::widget_cache::{placed, WidgetCache, WidgetContainer};

verus! {

/// The padding of a layout on each of its four edges, and the spacing between its widgets.
#[derive(Clone, Copy, Debug, PartialEq, Eq, Structural)]
pub struct PaddingConstraint {
    pub top: u32,
    pub bottom: u32,
    pub left: u32,
    pub right: u32,
    pub spacing: u32,
}

impl PaddingConstraint {
    pub fn new(top: u32, bottom: u32, left: u32, right: u32, spacing: u32) -> (r: PaddingConstraint)
        ensures
            r == (PaddingConstraint { top, bottom, left, right, spacing }),
    {
        PaddingConstraint { top, bottom, left, right, spacing }
    }
}

/// A cell of a layout's logical grid: column `x`, row `y`.
#[derive(Clone, Copy, Debug, PartialEq, Eq, Structural)]
pub struct LayoutPosition {
    pub x: i32,
    pub y: i32,
}

impl LayoutPosition {
    pub fn new(x: i32, y: i32) -> (r: LayoutPosition)
        ensures
            r == (LayoutPosition { x, y }),
    {
        LayoutPosition { x, y }
    }
}

/// The position for a widget appended after those at `positions`: the cell below the last one,
/// or the first cell when there is none.
pub open spec fn next_position(positions: Seq<LayoutPosition>) -> LayoutPosition {
    if positions.len() == 0 {
        LayoutPosition { x: 0, y: 0 }
    } else {
        LayoutPosition {
            x: 0,
            y: if positions.last().y == i32::MAX {
                i32::MAX
            } else {
                (positions.last().y + 1) as i32
            },
        }
    }
}

fn next_position_of(positions: &Vec<LayoutPosition>) -> (r: LayoutPosition)
    ensures
        r == next_position(positions@),
{
    if positions.len() == 0 {
        LayoutPosition { x: 0, y: 0 }
    } else {
        let last = positions[positions.len() - 1];
        LayoutPosition {
            x: 0,
            y: if last.y == i32::MAX {
                i32::MAX
            } else {
                last.y + 1
            },
        }
    }
}

/// `v`, or the nearest bound of `i32` where it lies outside.
pub open spec fn clamp_i32(v: int) -> int {
    if v > i32::MAX {
        i32::MAX as int
    } else if v < i32::MIN {
        i32::MIN as int
    } else {
        v
    }
}

pub(crate) fn to_i32_clamped(v: i64) -> (r: i32)
    ensures
        r == clamp_i32(v as int),
{
    if v > i32::MAX as i64 {
        i32::MAX
    } else if v < i32::MIN as i64 {
        i32::MIN
    } else {
        v as i32
    }
}

/// `0 + 1 + ... + k`.
pub open spec fn tri(k: int) -> int
    decreases k,
{
    if k <= 0 {
        0
    } else {
        tri(k - 1) + k
    }
}

/// `v`, or `cap` where `v` is larger.
pub open spec fn capped(v: int, cap: int) -> int {
    if v >= cap {
        cap
    } else {
        v
    }
}

proof fn lemma_tri_step(share: int, k: int)
    requires
        share >= 0,
        k >= 0,
    ensures
        share * tri(k) == share * tri(k - 1) + share * k,
        share * tri(k - 1) >= 0,
        share * k >= 0,
{
    lemma_tri_nonneg(k - 1);
    assert(tri(k) == tri(k - 1) + k);
    assert(share * (tri(k - 1) + k) == share * tri(k - 1) + share * k) by (nonlinear_arith);
    assert(share * tri(k - 1) >= 0) by (nonlinear_arith)
        requires
            share >= 0,
            tri(k - 1) >= 0,
    ;
    assert(share * k >= 0) by (nonlinear_arith)
        requires
            share >= 0,
            k >= 0,
    ;
}

proof fn lemma_tri_nonneg(k: int)
    ensures
        tri(k) >= 0,
    decreases k,
{
    if k > 0 {
        lemma_tri_nonneg(k - 1);
    }
}

/// The registry after the widgets `ids[0..k]` were placed, in order, in `cells`.
pub open spec fn place_all(
    s: Seq<WidgetContainer>,
    ids: Seq<i32>,
    cells: Seq<(Point, Size)>,
    k: int,
) -> Seq<WidgetContainer>
    decreases k,
{
    if k <= 0 {
        s
    } else {
        placed(place_all(s, ids, cells, k - 1), ids[k - 1] as int, cells[k - 1].0, cells[k - 1].1)
    }
}

/// All of `ids` name widgets of the registry.
pub open spec fn ids_in(ids: Seq<i32>, len: int) -> bool {
    forall|k: int| 0 <= k < ids.len() ==> 0 <= #[trigger] ids[k] < len
}

/// Places each widget `ids[k]` in `cells[k]`, in order.
fn apply_cells(widgets: &mut WidgetCache, ids: &Vec<i32>, cells: &Vec<(Point, Size)>)
    requires
        old(widgets).wf(),
        ids@.len() == cells@.len(),
        ids_in(ids@, old(widgets).cache@.len() as int),
    ensures
        final(widgets).wf(),
        final(widgets).cache@ == place_all(old(widgets).cache@, ids@, cells@, ids@.len() as int),
        final(widgets).cache@.len() == old(widgets).cache@.len(),
{
    let mut k: usize = 0;
    while k < ids.len()
        invariant
            widgets.wf(),
            ids@.len() == cells@.len(),
            k <= ids@.len(),
            widgets.cache@.len() == old(widgets).cache@.len(),
            ids_in(ids@, old(widgets).cache@.len() as int),
            widgets.cache@ == place_all(old(widgets).cache@, ids@, cells@, k as int),
        decreases ids@.len() - k,
    {
        let (origin, size) = cells[k];
        assert(0 <= ids@[k as int] < widgets.cache@.len());
        widgets.place(ids[k], origin, size);
        k = k + 1;
    }
}

/// Where the horizontal layout puts widget `k` of `n` in a container at `origin` of `size`: each
/// gets an equal share of the width, the remainder dropped; widget `k` starts `0 + 1 + ... + k`
/// shares right of the origin; all are as tall as the container less the bottom padding.
pub open spec fn horizontal_cell(origin: Point, size: Size, bottom: u32, n: int, k: int) -> (
    Point,
    Size,
) {
    let share = size.w as int / n;
    (
        Point { x: clamp_i32(origin.x + share * tri(k)) as i32, y: origin.y },
        Size { w: share as u32, h: sub_floor(size.h as int, bottom as int) as u32 },
    )
}

/// Lays out the widgets it governs side by side across the width of its container widget.
pub struct HorizontalLayoutManager {
    pub container_widget_id: i32,
    pub padding: PaddingConstraint,
    pub widget_ids: Vec<i32>,
    pub widget_positions: Vec<LayoutPosition>,
    pub invalidated: bool,
}

impl HorizontalLayoutManager {
    /// A layout with no widgets and no padding, for the container widget `widget_id`.
    pub fn new(widget_id: i32) -> (r: HorizontalLayoutManager)
        ensures
            r.container_widget_id == widget_id,
            r.padding == (PaddingConstraint { top: 0, bottom: 0, left: 0, right: 0, spacing: 0 }),
            r.widget_ids@ == Seq::<i32>::empty(),
            r.widget_positions@ == Seq::<LayoutPosition>::empty(),
            !r.invalidated,
    {
        HorizontalLayoutManager {
            container_widget_id: widget_id,
            padding: PaddingConstraint { top: 0, bottom: 0, left: 0, right: 0, spacing: 0 },
            widget_ids: Vec::new(),
            widget_positions: Vec::new(),
            invalidated: false,
        }
    }

    pub fn get_widget_id(&self) -> (r: i32)
        ensures
            r == self.container_widget_id,
    {
        self.container_widget_id
    }

    /// Adds the widget `widget_id` at `widget_position`; the layout must be redone.
    pub fn insert_widget(&mut self, widget_id: i32, widget_position: LayoutPosition)
        ensures
            final(self).widget_ids@ == old(self).widget_ids@.push(widget_id),
            final(self).widget_positions@ == old(self).widget_positions@.push(widget_position),
            final(self).invalidated,
            final(self).padding == old(self).padding,
            final(self).container_widget_id == old(self).container_widget_id,
    {
        self.widget_ids.push(widget_id);
        self.widget_positions.push(widget_position);
        self.invalidated = true;
    }

    /// Adds the widget `widget_id` in the row below the last one added.
    pub fn append_widget(&mut self, widget_id: i32)
        ensures
            final(self).widget_ids@ == old(self).widget_ids@.push(widget_id),
            final(self).widget_positions@ == old(self).widget_positions@.push(
                next_position(old(self).widget_positions@),
            ),
            final(self).invalidated,
            final(self).padding == old(self).padding,
            final(self).container_widget_id == old(self).container_widget_id,
    {
        let position = next_position_of(&self.widget_positions);
        self.insert_widget(widget_id, position);
    }

    /// Changes the padding; the layout must be redone.
    pub fn set_padding(&mut self, padding: PaddingConstraint)
        ensures
            final(self).padding == padding,
            final(self).invalidated,
            final(self).widget_ids@ == old(self).widget_ids@,
            final(self).widget_positions@ == old(self).widget_positions@,
            final(self).container_widget_id == old(self).container_widget_id,
    {
        self.padding = padding;
        self.invalidated = true;
    }

    pub fn get_padding(&self) -> (r: PaddingConstraint)
        ensures
            r == self.padding,
    {
        self.padding
    }

    pub fn needs_layout(&self) -> (r: bool)
        ensures
            r == self.invalidated,
    {
        self.invalidated
    }

    /// The cells of `n` widgets side by side in a container at `origin` of `size`.
    pub fn compute_cells(&self, origin: Point, size: Size, n: usize) -> (cells: Vec<(Point, Size)>)
        requires
            n > 0,
            n <= i32::MAX,
        ensures
            cells@.len() == n,
            forall|k: int|
                0 <= k < n ==> #[trigger] cells@[k] == horizontal_cell(
                    origin,
                    size,
                    self.padding.bottom,
                    n as int,
                    k,
                ),
    {
        let share: u64 = size.w as u64 / n as u64;
        let h: u32 = if size.h >= self.padding.bottom {
            size.h - self.padding.bottom
        } else {
            0
        };
        let cap: u64 = 0x2_0000_0000;
        // `offset` is `share * tri(k)`, or `cap` where that is larger: beyond `cap` every origin
        // lies past `i32::MAX`.
        let mut offset: u64 = 0;
        let mut cells: Vec<(Point, Size)> = Vec::new();
        let mut k: usize = 0;
        while k < n
            invariant
                n <= i32::MAX,
                k <= n,
                share == size.w as int / (n as int),
                share <= 0xffff_ffff,
                cap == 0x2_0000_0000,
                h == sub_floor(size.h as int, self.padding.bottom as int),
                offset == capped(share * tri(k - 1), cap as int),
                cells@.len() == k,
                forall|j: int|
                    0 <= j < k ==> #[trigger] cells@[j] == horizontal_cell(
                        origin,
                        size,
                        self.padding.bottom,
                        n as int,
                        j,
                    ),
            decreases n - k,
        {
            proof {
                lemma_tri_step(share as int, k as int);
            }
            assert(share * k <= 0xffff_ffff * 0x8000_0000) by (nonlinear_arith)
                requires
                    share <= 0xffff_ffff,
                    k <= 0x8000_0000,
            ;
            let step: u64 = share * k as u64;
            offset = if offset + step >= cap {
                cap
            } else {
                offset + step
            };
            let x = to_i32_clamped(origin.x as i64 + offset as i64);
            proof {
                if share * tri(k as int) >= cap {
                    assert(offset == cap);
                }
            }
            cells.push((Point { x, y: origin.y }, Size { w: share as u32, h }));
            k = k + 1;
        }
        cells
    }
}

/// The cells of the horizontal layout for `n` widgets.
pub open spec fn horizontal_cells(origin: Point, size: Size, bottom: u32, n: int) -> Seq<(Point, Size)> {
    Seq::new(n as nat, |k: int| horizontal_cell(origin, size, bottom, n, k))
}

impl HorizontalLayoutManager {
    /// Places the governed widgets side by side in the container widget, as its current origin and
    /// size give it (see `horizontal_cell`), and marks the layout clean.  Every placed widget is
    /// invalidated.  With no widget to place, only the layout is marked clean.
    pub fn do_layout(&mut self, widgets: &mut WidgetCache)
        requires
            old(widgets).wf(),
            0 <= old(self).container_widget_id < old(widgets).cache@.len(),
            ids_in(old(self).widget_ids@, old(widgets).cache@.len() as int),
            old(self).widget_ids@.len() <= i32::MAX,
        ensures
            final(widgets).wf(),
            final(widgets).cache@.len() == old(widgets).cache@.len(),
            final(widgets).cache@ == if old(self).widget_ids@.len() == 0 {
                old(widgets).cache@
            } else {
                place_all(
                    old(widgets).cache@,
                    old(self).widget_ids@,
                    horizontal_cells(
                        old(widgets).cache@[old(self).container_widget_id as int].widget.config_spec().origin,
                        old(widgets).cache@[old(self).container_widget_id as int].widget.config_spec().size,
                        old(self).padding.bottom,
                        old(self).widget_ids@.len() as int,
                    ),
                    old(self).widget_ids@.len() as int,
                )
            },
            *final(self) == (HorizontalLayoutManager { invalidated: false, ..*old(self) }),
    {
        let n = self.widget_ids.len();
        if n > 0 {
            let container = widgets.cache[self.container_widget_id as usize].widget.get_config();
            let cells = self.compute_cells(container.origin, container.size, n);
            assert(cells@ =~= horizontal_cells(container.origin, container.size, self.padding.bottom, n as int));
            apply_cells(widgets, &self.widget_ids, &cells);
        }
        self.invalidated = false;
    }
}

/// Where the grid layout puts widget `i` of `n` in a container at `origin` of `size`: the
/// container is cut into `n` equal steps along both axes and widget `i` takes step `i` of each.
/// Inner cells give up half the spacing on each side; the first cell gives up the left and top
/// padding on its outer side and half the spacing on its inner side, the last cell the reverse.
pub open spec fn grid_cell(origin: Point, size: Size, p: PaddingConstraint, n: int, i: int) -> (
    Point,
    Size,
) {
    let cw = size.w as int / n;
    let ch = size.h as int / n;
    let lo = p.spacing as int / 2;
    let hi = p.spacing as int - p.spacing as int / 2;
    let x = if i == 0 {
        p.left as int
    } else {
        i * cw + lo
    };
    let y = if i == 0 {
        p.top as int
    } else {
        i * ch + lo
    };
    let w = if i == 0 {
        sub_floor(cw, hi + p.left)
    } else if i == n - 1 {
        sub_floor(cw, lo + p.right)
    } else {
        sub_floor(cw, lo + hi)
    };
    let h = if i == 0 {
        sub_floor(ch, hi + p.top)
    } else if i == n - 1 {
        sub_floor(ch, lo + p.bottom)
    } else {
        sub_floor(ch, lo + hi)
    };
    (
        Point {
            x: clamp_i32(origin.x + x) as i32,
            y: clamp_i32(origin.y + p.top + y) as i32,
        },
        Size { w: w as u32, h: h as u32 },
    )
}

/// The cells of the grid layout for `n` widgets.
pub open spec fn grid_cells(origin: Point, size: Size, p: PaddingConstraint, n: int) -> Seq<(Point, Size)> {
    Seq::new(n as nat, |i: int| grid_cell(origin, size, p, n, i))
}

proof fn lemma_step_within(len: int, n: int, i: int)
    requires
        0 <= i < n,
        0 <= len,
    ensures
        0 <= i * (len / n) <= len,
{
    vstd::arithmetic::div_mod::lemma_fundamental_div_mod(len, n);
    assert(len / n >= 0) by (nonlinear_arith)
        requires
            len >= 0,
            n > 0,
    ;
    assert(0 <= i * (len / n) <= n * (len / n)) by (nonlinear_arith)
        requires
            0 <= i < n,
            len / n >= 0,
    ;
}

/// `a - b`, or zero where `b` exceeds `a`.
fn sub_or_zero(a: u64, b: u64) -> (r: u64)
    ensures
        r == sub_floor(a as int, b as int),
{
    if a >= b {
        a - b
    } else {
        0
    }
}

/// The grid layout manager.  It leaves the widgets where they are until at least two are
/// assigned to it.
pub struct GridLayout {
    pub widget_ids: Vec<i32>,
    pub widget_positions: Vec<LayoutPosition>,
    pub origin: Point,
    pub size: Size,
    pub padding: PaddingConstraint,
    pub invalidated: bool,
}

impl GridLayout {
    /// A grid layout over the area at `(x, y)` of size `w` by `h`, with no widgets.  The requested
    /// grid shape `_layout` is not used: the cells follow from the number of widgets.
    pub fn new(x: i32, y: i32, w: u32, h: u32, _layout: Vec<i32>, padding: PaddingConstraint) -> (r:
        GridLayout)
        ensures
            r.widget_ids@ == Seq::<i32>::empty(),
            r.widget_positions@ == Seq::<LayoutPosition>::empty(),
            r.origin == (Point { x, y }),
            r.size == (Size { w, h }),
            r.padding == padding,
            !r.invalidated,
    {
        GridLayout {
            widget_ids: Vec::new(),
            widget_positions: Vec::new(),
            origin: Point { x, y },
            size: Size { w, h },
            padding,
            invalidated: false,
        }
    }

    /// Adds the widget `widget_id` at `widget_position`; the layout must be redone.
    pub fn insert_widget(&mut self, widget_id: i32, widget_position: LayoutPosition)
        ensures
            final(self).widget_ids@ == old(self).widget_ids@.push(widget_id),
            final(self).widget_positions@ == old(self).widget_positions@.push(widget_position),
            final(self).invalidated,
            final(self).padding == old(self).padding,
            final(self).origin == old(self).origin,
            final(self).size == old(self).size,
    {
        self.widget_ids.push(widget_id);
        self.widget_positions.push(widget_position);
        self.invalidated = true;
    }

    /// Adds the widget `widget_id` in the row below the last one added.
    pub fn append_widget(&mut self, widget_id: i32)
        ensures
            final(self).widget_ids@ == old(self).widget_ids@.push(widget_id),
            final(self).widget_positions@ == old(self).widget_positions@.push(
                next_position(old(self).widget_positions@),
            ),
            final(self).invalidated,
            final(self).padding == old(self).padding,
            final(self).origin == old(self).origin,
            final(self).size == old(self).size,
    {
        let position = next_position_of(&self.widget_positions);
        self.insert_widget(widget_id, position);
    }

    /// Changes the padding; the layout must be redone.
    pub fn set_padding(&mut self, padding: PaddingConstraint)
        ensures
            final(self).padding == padding,
            final(self).invalidated,
            final(self).widget_ids@ == old(self).widget_ids@,
            final(self).widget_positions@ == old(self).widget_positions@,
            final(self).origin == old(self).origin,
            final(self).size == old(self).size,
    {
        self.padding = padding;
        self.invalidated = true;
    }

    pub fn get_padding(&self) -> (r: PaddingConstraint)
        ensures
            r == self.padding,
    {
        self.padding
    }

    pub fn needs_layout(&self) -> (r: bool)
        ensures
            r == self.invalidated,
    {
        self.invalidated
    }

    /// The cells of `n` widgets, `n` at least 2, in this layout's area.
    pub fn compute_cells(&self, n: usize) -> (cells: Vec<(Point, Size)>)
        requires
            n >= 2,
        ensures
            cells@ == grid_cells(self.origin, self.size, self.padding, n as int),
    {
        let p = self.padding;
        let cw: u64 = self.size.w as u64 / n as u64;
        let ch: u64 = self.size.h as u64 / n as u64;
        let lo: u64 = p.spacing as u64 / 2;
        let hi: u64 = p.spacing as u64 - lo;
        let mut cells: Vec<(Point, Size)> = Vec::new();
        let mut i: usize = 0;
        while i < n
            invariant
                n >= 2,
                i <= n,
                p == self.padding,
                cw == self.size.w as int / n as int,
                ch == self.size.h as int / n as int,
                lo == p.spacing as int / 2,
                hi == p.spacing as int - p.spacing as int / 2,
                cells@ == grid_cells(self.origin, self.size, self.padding, n as int).subrange(0, i as int),
            decreases n - i,
        {
            proof {
                lemma_step_within(self.size.w as int, n as int, i as int);
                lemma_step_within(self.size.h as int, n as int, i as int);
            }
            let ix = i as u64 * cw;
            let iy = i as u64 * ch;
            let x: u64 = if i == 0 {
                p.left as u64
            } else {
                ix + lo
            };
            let y: u64 = if i == 0 {
                p.top as u64
            } else {
                iy + lo
            };
            let w: u64 = if i == 0 {
                sub_or_zero(cw, hi + p.left as u64)
            } else if i == n - 1 {
                sub_or_zero(cw, lo + p.right as u64)
            } else {
                sub_or_zero(cw, lo + hi)
            };
            let h: u64 = if i == 0 {
                sub_or_zero(ch, hi + p.top as u64)
            } else if i == n - 1 {
                sub_or_zero(ch, lo + p.bottom as u64)
            } else {
                sub_or_zero(ch, lo + hi)
            };
            let cell = (
                Point {
                    x: to_i32_clamped(self.origin.x as i64 + x as i64),
                    y: to_i32_clamped(self.origin.y as i64 + p.top as i64 + y as i64),
                },
                Size { w: w as u32, h: h as u32 },
            );
            assert(cell == grid_cell(self.origin, self.size, self.padding, n as int, i as int));
            cells.push(cell);
            i = i + 1;
            assert(cells@ =~= grid_cells(self.origin, self.size, self.padding, n as int).subrange(
                0,
                i as int,
            ));
        }
        assert(cells@ =~= grid_cells(self.origin, self.size, self.padding, n as int));
        cells
    }

    /// Lays out the governed widgets in this layout's area (see `grid_cell`) and marks the layout
    /// clean; every placed widget is invalidated.  With fewer than two widgets assigned nothing
    /// happens: the widgets stay where they are and the layout keeps its state.
    pub fn do_layout(&mut self, widgets: &mut WidgetCache)
        requires
            old(widgets).wf(),
            ids_in(old(self).widget_ids@, old(widgets).cache@.len() as int),
        ensures
            final(widgets).wf(),
            final(widgets).cache@.len() == old(widgets).cache@.len(),
            old(self).widget_ids@.len() <= 1 ==> final(widgets).cache@ == old(widgets).cache@
                && *final(self) == *old(self),
            old(self).widget_ids@.len() > 1 ==> final(widgets).cache@ == place_all(
                old(widgets).cache@,
                old(self).widget_ids@,
                grid_cells(
                    old(self).origin,
                    old(self).size,
                    old(self).padding,
                    old(self).widget_ids@.len() as int,
                ),
                old(self).widget_ids@.len() as int,
            ) && *final(self) == (GridLayout { invalidated: false, ..*old(self) }),
    {
        let n = self.widget_ids.len();
        if n <= 1 {
            return;
        }
        let cells = self.compute_cells(n);
        apply_cells(widgets, &self.widget_ids, &cells);
        self.invalidated = false;
    }
}

} // verus!
