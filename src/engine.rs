use vstd::prelude::*;

use crate::base_widget::BaseWidget;
use crate::canvas::{present_count, DrawOp};
use crate::geometry::Point;
use crate::layout::{
    clamp_i32, grid_cells, horizontal_cells, ids_in, place_all, GridLayout, HorizontalLayoutManager,
    LayoutPosition,
};
use crate::widget::Widget;
use crate::widget_cache::{
    added, after_draw_loop, draw_loop_ops, draw_loop_presents, on_input, topmost_hit, WidgetCache,
    WidgetContainer,
};

verus! {

/// Any layout manager that the engine can run.
pub enum Layout {
    Horizontal(HorizontalLayoutManager),
    Grid(GridLayout),
}

impl Layout {
    /// The widgets assigned to the layout, in order.
    pub open spec fn widget_ids_spec(&self) -> Seq<i32> {
        match self {
            Layout::Horizontal(h) => h.widget_ids@,
            Layout::Grid(g) => g.widget_ids@,
        }
    }

    /// Every widget that the layout names is in a registry of `len` widgets.
    pub open spec fn fits(&self, len: int) -> bool {
        &&& ids_in(self.widget_ids_spec(), len)
        &&& self.widget_ids_spec().len() <= i32::MAX
        &&& (self matches Layout::Horizontal(h) ==> 0 <= h.container_widget_id < len)
    }

    pub open spec fn needs_layout_spec(&self) -> bool {
        match self {
            Layout::Horizontal(h) => h.invalidated,
            Layout::Grid(g) => g.invalidated,
        }
    }

    /// The registry after this layout ran on `s`.
    pub open spec fn laid_out(&self, s: Seq<WidgetContainer>) -> Seq<WidgetContainer> {
        match self {
            Layout::Horizontal(h) => if h.widget_ids@.len() == 0 {
                s
            } else {
                place_all(
                    s,
                    h.widget_ids@,
                    horizontal_cells(
                        s[h.container_widget_id as int].widget.config_spec().origin,
                        s[h.container_widget_id as int].widget.config_spec().size,
                        h.padding.bottom,
                        h.widget_ids@.len() as int,
                    ),
                    h.widget_ids@.len() as int,
                )
            },
            Layout::Grid(g) => if g.widget_ids@.len() <= 1 {
                s
            } else {
                place_all(
                    s,
                    g.widget_ids@,
                    grid_cells(g.origin, g.size, g.padding, g.widget_ids@.len() as int),
                    g.widget_ids@.len() as int,
                )
            },
        }
    }

    /// The layout itself after it ran: clean, unless it is a grid with fewer than two widgets,
    /// which waits and keeps its state.
    pub open spec fn after_layout(self) -> Layout {
        match self {
            Layout::Horizontal(h) => Layout::Horizontal(
                HorizontalLayoutManager { invalidated: false, ..h },
            ),
            Layout::Grid(g) => if g.widget_ids@.len() <= 1 {
                self
            } else {
                Layout::Grid(GridLayout { invalidated: false, ..g })
            },
        }
    }

    pub fn needs_layout(&self) -> (r: bool)
        ensures
            r == self.needs_layout_spec(),
    {
        match self {
            Layout::Horizontal(h) => h.needs_layout(),
            Layout::Grid(g) => g.needs_layout(),
        }
    }

    /// Assigns the widget `widget_id` to the layout at `position`; the layout must be redone.
    pub fn insert_widget(&mut self, widget_id: i32, position: LayoutPosition)
        requires
            old(self).widget_ids_spec().len() < i32::MAX,
        ensures
            final(self).needs_layout_spec(),
            final(self).widget_ids_spec() == old(self).widget_ids_spec().push(widget_id),
            forall|len: int|
                old(self).fits(len) && 0 <= widget_id < len ==> #[trigger] final(self).fits(len),
    {
        match self {
            Layout::Horizontal(h) => h.insert_widget(widget_id, position),
            Layout::Grid(g) => g.insert_widget(widget_id, position),
        }
    }

    /// Assigns the widget `widget_id` to the layout in the row below the last one assigned.
    pub fn append_widget(&mut self, widget_id: i32)
        requires
            old(self).widget_ids_spec().len() < i32::MAX,
        ensures
            final(self).needs_layout_spec(),
            final(self).widget_ids_spec() == old(self).widget_ids_spec().push(widget_id),
            forall|len: int|
                old(self).fits(len) && 0 <= widget_id < len ==> #[trigger] final(self).fits(len),
    {
        match self {
            Layout::Horizontal(h) => h.append_widget(widget_id),
            Layout::Grid(g) => g.append_widget(widget_id),
        }
    }

    /// Runs the layout on the registry.
    pub fn do_layout(&mut self, widgets: &mut WidgetCache)
        requires
            old(widgets).wf(),
            old(self).fits(old(widgets).cache@.len() as int),
        ensures
            final(widgets).wf(),
            final(widgets).cache@.len() == old(widgets).cache@.len(),
            final(widgets).cache@ == old(self).laid_out(old(widgets).cache@),
            *final(self) == old(self).after_layout(),
    {
        match self {
            Layout::Horizontal(h) => h.do_layout(widgets),
            Layout::Grid(g) => g.do_layout(widgets),
        }
    }
}

/// The registry after those of the layouts `ls[0..k]` that need it ran on `s`, in order.
pub open spec fn run_layouts(s: Seq<WidgetContainer>, ls: Seq<Layout>, k: int) -> Seq<WidgetContainer>
    decreases k,
{
    if k <= 0 {
        s
    } else if ls[k - 1].needs_layout_spec() {
        ls[k - 1].laid_out(run_layouts(s, ls, k - 1))
    } else {
        run_layouts(s, ls, k - 1)
    }
}

/// The layouts after a frame: each that needed it has run.
pub open spec fn layouts_after(ls: Seq<Layout>) -> Seq<Layout> {
    Seq::new(
        ls.len(),
        |k: int|
            if ls[k].needs_layout_spec() {
                ls[k].after_layout()
            } else {
                ls[k]
            },
    )
}

/// The registry after the pointer went from the widget `from` to the widget `to`: `from` is told
/// that the pointer left it and `to` that it entered, each only if it takes input.  Nothing
/// happens when the pointer stays on the same widget.
pub open spec fn crossed(s: Seq<WidgetContainer>, from: int, to: int) -> Seq<WidgetContainer> {
    if from == to {
        s
    } else {
        let t = on_input(s, from, s[from].widget.exited_spec());
        on_input(t, to, t[to].widget.entered_spec())
    }
}

/// The point `(x, y)` of the surface, relative to the origin that was recorded for the widget
/// when it was added.
pub open spec fn relative_to(c: WidgetContainer, x: int, y: int) -> Point {
    Point { x: clamp_i32(x - c.origin.x) as i32, y: clamp_i32(y - c.origin.y) as i32 }
}

/// The value change to report for widget `id`, if it reported one.
pub open spec fn report(id: int, value: Option<u32>) -> Option<(i32, u32)> {
    match value {
        Some(v) => Some((id as i32, v)),
        None => None,
    }
}

/// The engine: it owns the widgets and the layouts, turns pointer and wheel events into calls on
/// the widget under the pointer, and each frame runs the layouts that need it and then the draw
/// loop.  The widget with ID 0 is the top-level container that holds all others.
pub struct Engine {
    pub widgets: WidgetCache,
    pub layouts: Vec<Layout>,
    /// The widget that the pointer is over.
    pub current_widget_id: i32,
}

impl Engine {
    pub open spec fn wf(&self) -> bool {
        &&& self.widgets.wf()
        &&& self.widgets.cache@.len() > 0
        &&& 0 <= self.current_widget_id < self.widgets.cache@.len()
        &&& forall|k: int|
            0 <= k < self.layouts@.len() ==> #[trigger] self.layouts@[k].fits(
                self.widgets.cache@.len() as int,
            )
    }

    /// An engine for a window of `w` by `h` pixels.  Its only widget is the top-level container,
    /// a base widget that covers the window, with an empty name; the pointer is over it.
    pub fn new(w: u32, h: u32) -> (r: Engine)
        ensures
            r.wf(),
            r.widgets.cache@.len() == 1,
            r.widgets.cache@[0].widget == Widget::Base(BaseWidget::new_spec(0, 0, w, h)),
            r.widgets.cache@[0].parent_id == 0,
            r.layouts@.len() == 0,
            r.current_widget_id == 0,
    {
        let mut widgets = WidgetCache::new();
        let root = Widget::Base(BaseWidget::new(0, 0, w, h));
        widgets.add_widget(root, String::new());
        Engine { widgets, layouts: Vec::new(), current_widget_id: 0 }
    }

    pub fn widget_count(&self) -> (r: usize)
        ensures
            r == self.widgets.cache@.len(),
    {
        self.widgets.len()
    }

    /// Adds a widget to the top-level container and returns its ID.
    pub fn add_widget(&mut self, widget: Widget, widget_name: String) -> (id: i32)
        requires
            old(self).wf(),
            old(self).widgets.cache@.len() < i32::MAX,
        ensures
            final(self).wf(),
            id == old(self).widgets.cache@.len(),
            final(self).widgets.cache@ == added(old(self).widgets.cache@, widget, widget_name, 0),
            final(self).layouts@ == old(self).layouts@,
            final(self).current_widget_id == old(self).current_widget_id,
    {
        let id = self.widgets.add_widget(widget, widget_name);
        proof {
            self.lemma_layouts_fit_longer(old(self).widgets.cache@.len() as int);
        }
        id
    }

    /// Adds a widget as a child of the widget `parent_id` and returns its ID.
    pub fn add_widget_to_parent(&mut self, widget: Widget, widget_name: String, parent_id: i32) -> (id:
        i32)
        requires
            old(self).wf(),
            old(self).widgets.cache@.len() < i32::MAX,
            0 <= parent_id < old(self).widgets.cache@.len(),
        ensures
            final(self).wf(),
            id == old(self).widgets.cache@.len(),
            final(self).widgets.cache@ == added(
                old(self).widgets.cache@,
                widget,
                widget_name,
                parent_id,
            ),
            final(self).layouts@ == old(self).layouts@,
            final(self).current_widget_id == old(self).current_widget_id,
    {
        let id = self.widgets.add_widget_to_parent(widget, widget_name, parent_id);
        proof {
            self.lemma_layouts_fit_longer(old(self).widgets.cache@.len() as int);
        }
        id
    }

    proof fn lemma_layouts_fit_longer(&self, len: int)
        requires
            len <= self.widgets.cache@.len(),
            forall|k: int| 0 <= k < self.layouts@.len() ==> #[trigger] self.layouts@[k].fits(len),
        ensures
            forall|k: int|
                0 <= k < self.layouts@.len() ==> #[trigger] self.layouts@[k].fits(
                    self.widgets.cache@.len() as int,
                ),
    {
        let n = self.widgets.cache@.len() as int;
        assert forall|k: int| 0 <= k < self.layouts@.len() implies #[trigger] self.layouts@[k].fits(
            n,
        ) by {
            let l = self.layouts@[k];
            assert(l.fits(len));
            assert forall|j: int| 0 <= j < l.widget_ids_spec().len() implies 0
                <= #[trigger] l.widget_ids_spec()[j] < n by {
                assert(0 <= l.widget_ids_spec()[j] < len);
            }
        }
    }

    /// Adds a layout and returns its index.  Every widget it names must already be registered.
    pub fn add_layout(&mut self, layout: Layout) -> (index: usize)
        requires
            old(self).wf(),
            layout.fits(old(self).widgets.cache@.len() as int),
        ensures
            final(self).wf(),
            index == old(self).layouts@.len(),
            final(self).layouts@ == old(self).layouts@.push(layout),
            final(self).widgets == old(self).widgets,
            final(self).current_widget_id == old(self).current_widget_id,
    {
        self.layouts.push(layout);
        self.layouts.len() - 1
    }

    /// Assigns the widget `widget_id` to the layout `layout_id`, at `position`, or in the row
    /// below the last widget assigned when there is no position.
    pub fn assign_widget_to_layout(
        &mut self,
        layout_id: usize,
        widget_id: i32,
        position: Option<LayoutPosition>,
    )
        requires
            old(self).wf(),
            layout_id < old(self).layouts@.len(),
            0 <= widget_id < old(self).widgets.cache@.len(),
            old(self).layouts@[layout_id as int].widget_ids_spec().len() < i32::MAX,
        ensures
            final(self).wf(),
            final(self).widgets == old(self).widgets,
            final(self).current_widget_id == old(self).current_widget_id,
            final(self).layouts@.len() == old(self).layouts@.len(),
            final(self).layouts@[layout_id as int].widget_ids_spec() == old(self).layouts@[layout_id as int].widget_ids_spec().push(widget_id),
            final(self).layouts@[layout_id as int].needs_layout_spec(),
            forall|k: int|
                0 <= k < old(self).layouts@.len() && k != layout_id ==> #[trigger] final(self).layouts@[k]
                    == old(self).layouts@[k],
    {
        match position {
            Some(p) => self.layouts[layout_id].insert_widget(widget_id, p),
            None => self.layouts[layout_id].append_widget(widget_id),
        }
        proof {
            assert(old(self).layouts@[layout_id as int].fits(self.widgets.cache@.len() as int));
            assert forall|k: int|
                0 <= k < self.layouts@.len() implies #[trigger] self.layouts@[k].fits(
                self.widgets.cache@.len() as int,
            ) by {
                if k != layout_id {
                    assert(self.layouts@[k] == old(self).layouts@[k]);
                }
            }
        }
    }

    /// The pointer moved to `(x, y)` on the surface.  The widget under it becomes the current
    /// one, after the one it left is told so and it is told that the pointer entered; then it
    /// gets the movement, relative to the origin recorded for it.  Returns the widget's ID with
    /// the value it reports to its value-changed handler, if any.
    pub fn mouse_moved(&mut self, x: i32, y: i32) -> (changed: Option<(i32, u32)>)
        requires
            old(self).wf(),
        ensures
            final(self).wf(),
            ({
                let s = old(self).widgets.cache@;
                let id = topmost_hit(s, x as int, y as int, s.len() as int);
                let t = crossed(s, old(self).current_widget_id as int, id);
                let p = relative_to(s[id], x as int, y as int);
                &&& final(self).current_widget_id == id
                &&& final(self).widgets.cache@ == on_input(t, id, t[id].widget.moved_spec(p))
                &&& changed == if t[id].accepts_input() {
                    report(id, t[id].widget.moved_value(p))
                } else {
                    None
                }
            }),
            final(self).layouts@ == old(self).layouts@,
    {
        let ghost s = self.widgets.cache@;
        let id = self.widgets.find_widget(x, y);
        proof {
            crate::widget_cache::lemma_topmost_hit_in_range(s, x as int, y as int, s.len() as int);
        }
        if id != self.current_widget_id {
            self.widgets.mouse_exited(self.current_widget_id);
            self.widgets.mouse_entered(id);
            self.current_widget_id = id;
        }
        let origin = self.widgets.cache[id as usize].origin;
        assert(origin == s[id as int].origin);
        let p = Point {
            x: crate::layout::to_i32_clamped(x as i64 - origin.x as i64),
            y: crate::layout::to_i32_clamped(y as i64 - origin.y as i64),
        };
        let ghost t = self.widgets.cache@;
        let r = self.widgets.mouse_moved(id, p);
        match r {
            Some(v) => Some((id, v)),
            None => None,
        }
    }

    /// The wheel moved by `(dx, dy)`; the current widget gets the movement.  Returns the widget's
    /// ID with the value it reports to its value-changed handler, if any.
    pub fn mouse_scrolled(&mut self, dx: i32, dy: i32) -> (changed: Option<(i32, u32)>)
        requires
            old(self).wf(),
        ensures
            final(self).wf(),
            ({
                let s = old(self).widgets.cache@;
                let id = old(self).current_widget_id as int;
                &&& final(self).widgets.cache@ == on_input(
                    s,
                    id,
                    s[id].widget.scrolled_spec(Point { x: dx, y: dy }),
                )
                &&& changed == if s[id].accepts_input() {
                    report(id, s[id].widget.scrolled_value(Point { x: dx, y: dy }))
                } else {
                    None
                }
            }),
            final(self).layouts@ == old(self).layouts@,
            final(self).current_widget_id == old(self).current_widget_id,
    {
        let id = self.current_widget_id;
        let r = self.widgets.mouse_scrolled(id, Point { x: dx, y: dy });
        match r {
            Some(v) => Some((id, v)),
            None => None,
        }
    }

    /// A mouse button was pressed (`state`) or released; the current widget gets the event.
    pub fn button_clicked(&mut self, button: u8, clicks: u8, state: bool)
        requires
            old(self).wf(),
        ensures
            final(self).wf(),
            final(self).widgets.cache@ == on_input(
                old(self).widgets.cache@,
                old(self).current_widget_id as int,
                old(self).widgets.cache@[old(self).current_widget_id as int].widget.clicked_spec(
                    button,
                    state,
                ),
            ),
            final(self).layouts@ == old(self).layouts@,
            final(self).current_widget_id == old(self).current_widget_id,
    {
        self.widgets.button_clicked(self.current_widget_id, button, clicks, state);
    }

    /// Renders one frame: ticks the widgets, runs each layout that needs it, in order, and then
    /// the draw loop, whose commands are returned.
    pub fn frame(&mut self) -> (ops: Vec<DrawOp>)
        requires
            old(self).wf(),
        ensures
            final(self).wf(),
            final(self).widgets.cache@ == after_draw_loop(
                run_layouts(old(self).widgets.cache@, old(self).layouts@, old(self).layouts@.len() as int),
            ),
            ops@ == draw_loop_ops(
                run_layouts(old(self).widgets.cache@, old(self).layouts@, old(self).layouts@.len() as int),
            ),
            present_count(ops@) == draw_loop_presents(
                run_layouts(old(self).widgets.cache@, old(self).layouts@, old(self).layouts@.len() as int),
            ),
            final(self).layouts@ == layouts_after(old(self).layouts@),
            final(self).current_widget_id == old(self).current_widget_id,
    {
        self.widgets.tick();
        let n = self.layouts.len();
        let mut k: usize = 0;
        while k < n
            invariant
                n == self.layouts@.len(),
                n == old(self).layouts@.len(),
                k <= n,
                self.widgets.wf(),
                self.widgets.cache@.len() == old(self).widgets.cache@.len(),
                self.current_widget_id == old(self).current_widget_id,
                self.widgets.cache@ == run_layouts(old(self).widgets.cache@, old(self).layouts@, k as int),
                forall|j: int|
                    0 <= j < n ==> #[trigger] self.layouts@[j] == if j < k {
                        layouts_after(old(self).layouts@)[j]
                    } else {
                        old(self).layouts@[j]
                    },
                forall|j: int|
                    0 <= j < n ==> #[trigger] old(self).layouts@[j].fits(
                        old(self).widgets.cache@.len() as int,
                    ),
            decreases n - k,
        {
            if self.layouts[k].needs_layout() {
                self.layouts[k].do_layout(&mut self.widgets);
            }
            k = k + 1;
        }
        let ops = self.widgets.draw_loop();
        proof {
            assert(self.layouts@ =~= layouts_after(old(self).layouts@));
            assert forall|j: int| 0 <= j < self.layouts@.len() implies #[trigger] self.layouts@[j].fits(
                self.widgets.cache@.len() as int,
            ) by {
                assert(old(self).layouts@[j].fits(old(self).widgets.cache@.len() as int));
            }
        }
        ops
    }
}

} // verus!
