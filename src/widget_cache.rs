use vstd::prelude::*;

use crate::canvas::{append_ops, presents_nothing, DrawOp};
use crate::config::WidgetConfig;
use crate::geometry::{box_contains, Color, Point, Rect, Size};
use crate::hierarchy::{
    children_upto, descends, lemma_all_descend_from_root, lemma_descends_children,
    lemma_descends_same_parents, lemma_wf_update, registry_wf, same_parents, visited, walk,
    walk_children,
};
use crate::widget::Widget;

verus! {

/// This is a container that stores information about a `Widget` that will be drawn on the
/// screen: the widget, its name, the origin it had when it was added, its ID and the ID of its
/// parent (0 for a top-level widget).
pub struct WidgetContainer {
    pub widget: Widget,
    pub widget_name: String,
    pub origin: Point,
    pub widget_id: i32,
    pub parent_id: i32,
}

impl WidgetContainer {
    /// Creates a new `WidgetContainer` storage object.
    pub fn new(widget: Widget, widget_name: String, origin: Point, widget_id: i32, parent_id: i32) -> (r:
        WidgetContainer)
        ensures
            r == (WidgetContainer { widget, widget_name, origin, widget_id, parent_id }),
    {
        WidgetContainer { widget, widget_name, origin, widget_id, parent_id }
    }

    /// Retrieves the name of this `Widget`.
    pub fn get_widget_name(&self) -> (r: String)
        ensures
            r@ == self.widget_name@,
    {
        self.widget_name.clone()
    }

    /// Retrieves the numeric ID of this `Widget`.
    pub fn get_widget_id(&self) -> (r: i32)
        ensures
            r == self.widget_id,
    {
        self.widget_id
    }

    /// Retrieves the ID of this `Widget`'s parent; 0 means that it is a top-level widget.
    pub fn get_parent_id(&self) -> (r: i32)
        ensures
            r == self.parent_id,
    {
        self.parent_id
    }

    pub open spec fn hidden(self) -> bool {
        self.widget.config_spec().hidden
    }

    pub open spec fn enabled(self) -> bool {
        self.widget.config_spec().enabled
    }

    /// The widget takes input: it is visible and enabled.
    pub open spec fn accepts_input(self) -> bool {
        !self.hidden() && self.enabled()
    }

    /// The widget is visible and needs to be painted.
    pub open spec fn needs_paint(self) -> bool {
        !self.hidden() && self.widget.config_spec().invalidated
    }

    /// The container after a pass of the draw loop has reached it: painted if it needed it.
    pub open spec fn drawn(self) -> WidgetContainer {
        if self.needs_paint() {
            WidgetContainer { widget: self.widget.drawn_spec(), ..self }
        } else {
            self
        }
    }

    /// The container with its widget replaced.
    pub open spec fn with_widget(self, widget: Widget) -> WidgetContainer {
        WidgetContainer { widget, ..self }
    }

    /// The point `(x, y)` lies within the widget's current bounds, edges included, and the widget
    /// is visible.
    pub open spec fn hit(self, x: int, y: int) -> bool {
        !self.hidden() && box_contains(
            self.widget.config_spec().origin,
            self.widget.config_spec().size,
            x,
            y,
        )
    }
}

/// The topmost of the first `n` widgets that `(x, y)` hits: the one added last; 0 if none does.
pub open spec fn topmost_hit(s: Seq<WidgetContainer>, x: int, y: int, n: int) -> int
    decreases n,
{
    if n <= 0 {
        0
    } else if s[n - 1].hit(x, y) {
        n - 1
    } else {
        topmost_hit(s, x, y, n - 1)
    }
}

/// The registry after the widget `id` was moved to `origin` and resized to `size`; it is
/// invalidated.
pub open spec fn placed(s: Seq<WidgetContainer>, id: int, origin: Point, size: Size) -> Seq<
    WidgetContainer,
> {
    s.update(
        id,
        s[id].with_widget(
            s[id].widget.with_config(
                WidgetConfig { origin, size, invalidated: true, ..s[id].widget.config_spec() },
            ),
        ),
    )
}

/// The first of the first `n` widgets whose name is `name`, if any.
pub open spec fn first_named(s: Seq<WidgetContainer>, name: Seq<char>, n: int) -> Option<int>
    decreases n,
{
    if n <= 0 {
        None
    } else {
        match first_named(s, name, n - 1) {
            Some(j) => Some(j),
            None => if s[n - 1].widget_name@ == name {
                Some(n - 1)
            } else {
                None
            },
        }
    }
}

/// The ID of the first widget named `name`; the root's ID, 0, when no widget has that name.
pub open spec fn named(s: Seq<WidgetContainer>, name: Seq<char>) -> int {
    match first_named(s, name, s.len() as int) {
        Some(j) => j,
        None => 0,
    }
}

proof fn lemma_first_named_stable(s: Seq<WidgetContainer>, name: Seq<char>, n: int, m: int)
    requires
        first_named(s, name, n) is Some,
        n <= m,
    ensures
        first_named(s, name, m) == first_named(s, name, n),
    decreases m - n,
{
    if n < m {
        lemma_first_named_stable(s, name, n, m - 1);
    }
}

/// The registry after `widget` was added under `name` as a child of `parent`: its ID is the number
/// of widgets before it, and its current origin is recorded with it.
pub open spec fn added(s: Seq<WidgetContainer>, widget: Widget, name: String, parent: i32) -> Seq<
    WidgetContainer,
> {
    s.push(
        WidgetContainer {
            widget,
            widget_name: name,
            origin: widget.config_spec().origin,
            widget_id: s.len() as i32,
            parent_id: parent,
        },
    )
}

/// The registry after `ws[0]`, `ws[1]`, ... were added to `s` in turn, as top-level widgets under
/// the names `names`.
pub open spec fn adds(s: Seq<WidgetContainer>, ws: Seq<Widget>, names: Seq<String>) -> Seq<
    WidgetContainer,
>
    decreases ws.len(),
{
    if ws.len() == 0 || names.len() != ws.len() {
        s
    } else {
        added(adds(s, ws.drop_last(), names.drop_last()), ws.last(), names.last(), 0)
    }
}

proof fn lemma_adds_ids(ws: Seq<Widget>, names: Seq<String>)
    requires
        ws.len() == names.len(),
        ws.len() <= i32::MAX,
    ensures
        adds(Seq::empty(), ws, names).len() == ws.len(),
        forall|k: int| 0 <= k < ws.len() ==> #[trigger] adds(Seq::empty(), ws, names)[k].widget_id == k,
    decreases ws.len(),
{
    if ws.len() > 0 {
        lemma_adds_ids(ws.drop_last(), names.drop_last());
    }
}

/// Adding widgets one after another to an empty registry hands out the IDs 0, 1, 2, ... in order:
/// the `k`-th call returns `k`, the number of widgets before it, so the IDs increase strictly, with
/// no gap and no reuse, and each widget keeps its ID.
pub proof fn lemma_add_assigns_dense_ids(ws: Seq<Widget>, names: Seq<String>)
    requires
        ws.len() == names.len(),
        ws.len() <= i32::MAX,
    ensures
        forall|k: int|
            0 <= k < ws.len() ==> #[trigger] adds(Seq::empty(), ws.take(k), names.take(k)).len() == k,
        forall|k: int| 0 <= k < ws.len() ==> #[trigger] adds(Seq::empty(), ws, names)[k].widget_id == k,
        registry_wf(adds(Seq::empty(), ws, names)),
{
    lemma_adds_ids(ws, names);
    assert forall|k: int| 0 <= k < ws.len() implies #[trigger] adds(
        Seq::empty(),
        ws.take(k),
        names.take(k),
    ).len() == k by {
        lemma_adds_ids(ws.take(k), names.take(k));
    }
    lemma_adds_wf(ws, names);
}

proof fn lemma_adds_wf(ws: Seq<Widget>, names: Seq<String>)
    requires
        ws.len() == names.len(),
        ws.len() <= i32::MAX,
    ensures
        registry_wf(adds(Seq::empty(), ws, names)),
    decreases ws.len(),
{
    lemma_adds_ids(ws, names);
    if ws.len() > 0 {
        lemma_adds_wf(ws.drop_last(), names.drop_last());
        let prev = adds(Seq::empty(), ws.drop_last(), names.drop_last());
        let t = adds(Seq::empty(), ws, names);
        assert forall|i: int| 0 <= i < t.len() implies #[trigger] t[i].widget_id == i && 0
            <= t[i].parent_id && (i == 0 ==> t[i].parent_id == 0) && (i > 0 ==> t[i].parent_id
            < i) by {
            if i < prev.len() {
                assert(t[i] == prev[i]);
                assert(prev[i].widget_id == i);
            }
        }
    }
}

pub proof fn lemma_topmost_hit_is_hit(s: Seq<WidgetContainer>, x: int, y: int, n: int)
    requires
        0 <= n <= s.len(),
    ensures
        topmost_hit(s, x, y, n) == 0 || (0 <= topmost_hit(s, x, y, n) < n && s[topmost_hit(
            s,
            x,
            y,
            n,
        )].hit(x, y)),
    decreases n,
{
    if n > 0 {
        lemma_topmost_hit_is_hit(s, x, y, n - 1);
    }
}

pub proof fn lemma_topmost_hit_in_range(s: Seq<WidgetContainer>, x: int, y: int, n: int)
    requires
        0 < n <= s.len(),
    ensures
        0 <= topmost_hit(s, x, y, n) < n,
{
    lemma_topmost_hit_is_hit(s, x, y, n);
}

/// A hidden widget is never found at a point, even inside its bounds; only the root's ID, 0, can
/// come back for it, as the answer when nothing is hit.
pub proof fn lemma_find_widget_skips_hidden(s: Seq<WidgetContainer>, x: int, y: int, i: int)
    requires
        0 < i < s.len(),
        s[i].hidden(),
    ensures
        topmost_hit(s, x, y, s.len() as int) != i,
{
    lemma_topmost_hit_is_hit(s, x, y, s.len() as int);
}

/// Drawing is idempotent: once a draw loop has run, a second one with nothing changed in between
/// paints nothing, presents nothing and leaves the registry as it is.
pub proof fn lemma_draw_loop_twice(s: Seq<WidgetContainer>)
    ensures
        draw_loop_presents(after_draw_loop(s)) == 0,
        after_draw_loop(after_draw_loop(s)) == after_draw_loop(s),
{
    let t = after_draw_loop(s);
    assert forall|i: int| 0 <= i < t.len() implies !#[trigger] t[i].needs_paint() by {
        assert(t[i] == s[i].drawn());
    }
    assert(after_draw_loop(t) =~= t);
}

/// The registry after an input event reached the widget `id`, which became `widget`; a hidden or
/// disabled widget gets no input and stays as it is.
pub open spec fn on_input(s: Seq<WidgetContainer>, id: int, widget: Widget) -> Seq<WidgetContainer> {
    if s[id].accepts_input() {
        s.update(id, s[id].with_widget(widget))
    } else {
        s
    }
}

/// Some widget, visible or not, is invalidated.
pub open spec fn any_invalidated(s: Seq<WidgetContainer>) -> bool {
    exists|i: int| 0 <= i < s.len() && #[trigger] s[i].widget.config_spec().invalidated
}

/// What one draw loop draws: nothing if no widget is invalidated; else the draw pass from the
/// root, followed by one `Present` if anything was painted.
pub open spec fn draw_loop_ops(s: Seq<WidgetContainer>) -> Seq<DrawOp> {
    if any_invalidated(s) {
        walk(s, s.len() as int, 0).0 + if any_needs_paint(s) {
            seq![DrawOp::Present]
        } else {
            seq![]
        }
    } else {
        seq![]
    }
}

/// A hidden or disabled widget is never reached by input: whatever the event would have made of
/// it, the registry stays as it was.
pub proof fn lemma_no_input_unless_enabled(s: Seq<WidgetContainer>, id: int, widget: Widget)
    requires
        0 <= id < s.len(),
        s[id].hidden() || !s[id].enabled(),
    ensures
        on_input(s, id, widget) == s,
{
}

/// There is a widget that needs to be painted.
pub open spec fn any_needs_paint(s: Seq<WidgetContainer>) -> bool {
    exists|i: int| 0 <= i < s.len() && #[trigger] s[i].needs_paint()
}

/// The registry after one draw loop: every widget that needed painting has been painted.
pub open spec fn after_draw_loop(s: Seq<WidgetContainer>) -> Seq<WidgetContainer> {
    Seq::new(s.len(), |i: int| s[i].drawn())
}

/// The number of times one draw loop presents the surface: once if anything was painted.
pub open spec fn draw_loop_presents(s: Seq<WidgetContainer>) -> nat {
    if any_needs_paint(s) {
        1
    } else {
        0
    }
}

pub open spec fn dim_color() -> Color {
    Color { r: 0, g: 0, b: 0, a: 128 }
}

/// This is the `WidgetCache` struct, which contains the list of `Widget`s that the engine manages.
/// IDs are assigned by the cache when a widget is added: the first widget gets ID 0, the root,
/// and each further one the next integer.
pub struct WidgetCache {
    pub cache: Vec<WidgetContainer>,
}

impl WidgetCache {
    /// Each widget's ID is its index; each parent was added before its child, and the root is its
    /// own parent.
    pub open spec fn wf(&self) -> bool {
        registry_wf(self.cache@)
    }

    pub fn new() -> (r: WidgetCache)
        ensures
            r.cache@ == Seq::<WidgetContainer>::empty(),
            r.wf(),
    {
        WidgetCache { cache: Vec::new() }
    }

    pub fn len(&self) -> (r: usize)
        ensures
            r == self.cache@.len(),
    {
        self.cache.len()
    }

    /// Adds a top-level `Widget` under `widget_name` and returns its ID, which is the number of
    /// widgets added before it.  Its current origin is recorded with it.
    pub fn add_widget(&mut self, widget: Widget, widget_name: String) -> (id: i32)
        requires
            old(self).wf(),
            old(self).cache@.len() < i32::MAX,
        ensures
            final(self).wf(),
            id == old(self).cache@.len(),
            final(self).cache@ == added(old(self).cache@, widget, widget_name, 0),
    {
        let origin = widget.get_origin();
        let widget_id = self.cache.len() as i32;
        self.cache.push(WidgetContainer::new(widget, widget_name, origin, widget_id, 0));
        widget_id
    }

    /// Adds a `Widget` as a child of `parent_id`, which must already be in the cache, and returns
    /// its ID.
    pub fn add_widget_to_parent(&mut self, widget: Widget, widget_name: String, parent_id: i32) -> (id:
        i32)
        requires
            old(self).wf(),
            old(self).cache@.len() < i32::MAX,
            0 <= parent_id < old(self).cache@.len(),
        ensures
            final(self).wf(),
            id == old(self).cache@.len(),
            final(self).cache@ == added(old(self).cache@, widget, widget_name, parent_id),
    {
        let origin = widget.get_origin();
        let widget_id = self.cache.len() as i32;
        self.cache.push(WidgetContainer::new(widget, widget_name, origin, widget_id, parent_id));
        widget_id
    }

    /// Returns the ID of the topmost visible `Widget` whose bounds hold `(x, y)`, edges included:
    /// of those, the one added last.  When there is none, the root's ID, 0, is returned.
    pub fn find_widget(&self, x: i32, y: i32) -> (id: i32)
        requires
            self.wf(),
        ensures
            id == topmost_hit(self.cache@, x as int, y as int, self.cache@.len() as int),
    {
        let mut found_widget_id: i32 = 0;
        let mut i: usize = 0;
        while i < self.cache.len()
            invariant
                self.wf(),
                i <= self.cache@.len(),
                found_widget_id == topmost_hit(self.cache@, x as int, y as int, i as int),
            decreases self.cache@.len() - i,
        {
            if !self.is_hidden(i) {
                let config = self.cache[i].widget.get_config();
                let start_x = config.origin.x as i64;
                let start_y = config.origin.y as i64;
                let end_x = start_x + config.size.w as i64;
                let end_y = start_y + config.size.h as i64;
                if x as i64 >= start_x && x as i64 <= end_x && y as i64 >= start_y && y as i64
                    <= end_y {
                    found_widget_id = i as i32;
                }
            }
            i = i + 1;
        }
        found_widget_id
    }

    /// Returns the `WidgetContainer` with the ID `id`.
    pub fn get_container_by_id(&mut self, id: i32) -> (r: &mut WidgetContainer)
        requires
            0 <= id < old(self).cache@.len(),
        ensures
            *r == old(self).cache@[id as int],
            final(self).cache@ == old(self).cache@.update(id as int, *final(r)),
    {
        &mut self.cache[id as usize]
    }

    /// Returns the ID of the first `Widget` named `name`; when no widget has that name, the root's
    /// ID, 0.
    pub fn find_widget_by_name(&self, name: &String) -> (id: i32)
        requires
            self.wf(),
            self.cache@.len() > 0,
        ensures
            id == named(self.cache@, name@),
            0 <= id < self.cache@.len(),
    {
        let cache_size = self.cache.len();
        let mut i: usize = 0;
        while i < cache_size
            invariant
                self.wf(),
                cache_size == self.cache@.len(),
                i <= cache_size,
                first_named(self.cache@, name@, i as int) is None,
            decreases cache_size - i,
        {
            if self.cache[i].widget_name == *name {
                assert(first_named(self.cache@, name@, i + 1) == Some(i as int));
                proof {
                    lemma_first_named_stable(self.cache@, name@, i + 1, cache_size as int);
                }
                return i as i32;
            }
            i = i + 1;
        }
        0
    }

    /// Returns the `WidgetContainer` of the first `Widget` named `name`; when no widget has that
    /// name, the root's container.
    pub fn get_container_by_name(&mut self, name: String) -> (r: &mut WidgetContainer)
        requires
            old(self).wf(),
            old(self).cache@.len() > 0,
        ensures
            *r == old(self).cache@[named(old(self).cache@, name@)],
            final(self).cache@ == old(self).cache@.update(named(old(self).cache@, name@), *final(r)),
    {
        let id = self.find_widget_by_name(&name);
        self.get_container_by_id(id)
    }

    /// Sends a button press or release to the widget `widget_id`, if it is visible and enabled.
    pub fn button_clicked(&mut self, widget_id: i32, button: u8, clicks: u8, state: bool)
        requires
            old(self).wf(),
            0 <= widget_id < old(self).cache@.len(),
        ensures
            final(self).wf(),
            final(self).cache@ == on_input(
                old(self).cache@,
                widget_id as int,
                old(self).cache@[widget_id as int].widget.clicked_spec(button, state),
            ),
    {
        let i = widget_id as usize;
        if !self.is_hidden(i) && self.is_enabled(i) {
            self.cache[i].widget.button_clicked(button, clicks, state);
            proof {
                lemma_wf_update(old(self).cache@, i as int, self.cache@[i as int]);
            }
        }
    }

    /// Sends a pointer movement to `points` to the widget `widget_id`, if it is visible and
    /// enabled.  Returns the value that the widget reports to its value-changed handler, if any.
    pub fn mouse_moved(&mut self, widget_id: i32, points: Point) -> (changed: Option<u32>)
        requires
            old(self).wf(),
            0 <= widget_id < old(self).cache@.len(),
        ensures
            final(self).wf(),
            final(self).cache@ == on_input(
                old(self).cache@,
                widget_id as int,
                old(self).cache@[widget_id as int].widget.moved_spec(points),
            ),
            changed == if old(self).cache@[widget_id as int].accepts_input() {
                old(self).cache@[widget_id as int].widget.moved_value(points)
            } else {
                None
            },
    {
        let i = widget_id as usize;
        if !self.is_hidden(i) && self.is_enabled(i) {
            let r = self.cache[i].widget.mouse_moved(points);
            proof {
                lemma_wf_update(old(self).cache@, i as int, self.cache@[i as int]);
            }
            r
        } else {
            None
        }
    }

    /// Sends a wheel movement to the widget `widget_id`, if it is visible and enabled.  Returns
    /// the value that the widget reports to its value-changed handler, if any.
    pub fn mouse_scrolled(&mut self, widget_id: i32, points: Point) -> (changed: Option<u32>)
        requires
            old(self).wf(),
            0 <= widget_id < old(self).cache@.len(),
        ensures
            final(self).wf(),
            final(self).cache@ == on_input(
                old(self).cache@,
                widget_id as int,
                old(self).cache@[widget_id as int].widget.scrolled_spec(points),
            ),
            changed == if old(self).cache@[widget_id as int].accepts_input() {
                old(self).cache@[widget_id as int].widget.scrolled_value(points)
            } else {
                None
            },
    {
        let i = widget_id as usize;
        if !self.is_hidden(i) && self.is_enabled(i) {
            let r = self.cache[i].widget.mouse_scrolled(points);
            proof {
                lemma_wf_update(old(self).cache@, i as int, self.cache@[i as int]);
            }
            r
        } else {
            None
        }
    }

    /// Tells the widget `widget_id` that the pointer left it, if it is visible and enabled.
    pub fn mouse_exited(&mut self, widget_id: i32)
        requires
            old(self).wf(),
            0 <= widget_id < old(self).cache@.len(),
        ensures
            final(self).wf(),
            final(self).cache@ == on_input(
                old(self).cache@,
                widget_id as int,
                old(self).cache@[widget_id as int].widget.exited_spec(),
            ),
    {
        let i = widget_id as usize;
        if !self.is_hidden(i) && self.is_enabled(i) {
            self.cache[i].widget.mouse_exited();
            proof {
                lemma_wf_update(old(self).cache@, i as int, self.cache@[i as int]);
            }
        }
    }

    /// Tells the widget `widget_id` that the pointer entered it, if it is visible and enabled.
    pub fn mouse_entered(&mut self, widget_id: i32)
        requires
            old(self).wf(),
            0 <= widget_id < old(self).cache@.len(),
        ensures
            final(self).wf(),
            final(self).cache@ == on_input(
                old(self).cache@,
                widget_id as int,
                old(self).cache@[widget_id as int].widget.entered_spec(),
            ),
    {
        let i = widget_id as usize;
        if !self.is_hidden(i) && self.is_enabled(i) {
            self.cache[i].widget.mouse_entered();
            proof {
                lemma_wf_update(old(self).cache@, i as int, self.cache@[i as int]);
            }
        }
    }

    /// Moves and resizes the widget `widget_id`, which is invalidated.
    pub fn place(&mut self, widget_id: i32, origin: Point, size: Size)
        requires
            old(self).wf(),
            0 <= widget_id < old(self).cache@.len(),
        ensures
            final(self).wf(),
            final(self).cache@ == placed(old(self).cache@, widget_id as int, origin, size),
    {
        let i = widget_id as usize;
        self.cache[i].widget.set_origin(origin.x, origin.y);
        self.cache[i].widget.set_size(size.w, size.h);
        proof {
            lemma_wf_update(old(self).cache@, i as int, self.cache@[i as int]);
        }
    }

    /// Draws the frame.  If any widget is invalidated, the hierarchy is walked from the root:
    /// every visible, invalidated widget is painted, clipped to its bounds, and its flag cleared;
    /// every disabled widget is dimmed; and the surface is presented once, at the end, if anything
    /// was painted.  If no widget is invalidated nothing is drawn.
    pub fn draw_loop(&mut self) -> (ops: Vec<DrawOp>)
        requires
            old(self).wf(),
        ensures
            final(self).wf(),
            final(self).cache@ == after_draw_loop(old(self).cache@),
            crate::canvas::present_count(ops@) == draw_loop_presents(old(self).cache@),
            any_needs_paint(old(self).cache@) ==> ops@.len() > 0 && ops@.last() == DrawOp::Present,
            ops@ == draw_loop_ops(old(self).cache@),
    {
        let ghost s0 = self.cache@;
        let cache_size = self.cache.len();
        let mut i: usize = 0;
        while i < cache_size
            invariant
                self.wf(),
                self.cache@ == s0,
                s0 == old(self).cache@,
                cache_size == s0.len(),
                i <= cache_size,
                forall|j: int| 0 <= j < i ==> !(#[trigger] s0[j].widget.config_spec().invalidated),
            decreases cache_size - i,
        {
            if self.cache[i].widget.is_invalidated() {
                let mut ops: Vec<DrawOp> = Vec::new();
                let painted = self.draw(0, &mut ops, Ghost(s0.len() as int));
                proof {
                    lemma_all_descend_from_root(s0);
                    assert(self.cache@ =~= after_draw_loop(s0));
                    assert(ops@.subrange(0, ops@.len() as int) =~= ops@);
                    crate::canvas::lemma_present_count_none(ops@);
                    if any_needs_paint(s0) {
                        let j = choose|j: int| 0 <= j < s0.len() && #[trigger] s0[j].needs_paint();
                        assert(descends(s0, j, 0));
                    }
                }
                let ghost quiet = ops@;
                if painted {
                    ops.push(DrawOp::Present);
                    assert(ops@.drop_last() =~= quiet);
                }
                proof {
                    assert(any_invalidated(s0));
                    assert(quiet =~= walk(s0, s0.len() as int, 0).0);
                    if painted {
                        assert(ops@ =~= walk(s0, s0.len() as int, 0).0 + seq![DrawOp::Present]);
                    } else {
                        assert(ops@ =~= walk(s0, s0.len() as int, 0).0 + seq![]);
                    }
                }
                return ops;
            }
            i = i + 1;
        }
        proof {
            assert(!any_needs_paint(s0));
            assert(!any_invalidated(s0));
            assert(self.cache@ =~= after_draw_loop(s0));
            crate::canvas::lemma_present_count_none(Seq::<DrawOp>::empty());
        }
        Vec::new()
    }

    /// Calls the periodic hook of every visible widget, once per frame before drawing.  No widget
    /// kind of this toolkit changes on a tick, so the registry stays as it is.
    pub fn tick(&mut self)
        requires
            old(self).wf(),
        ensures
            final(self).cache@ == old(self).cache@,
            final(self).wf(),
    {
        let cache_size = self.cache.len();
        let mut i: usize = 0;
        while i < cache_size
            invariant
                cache_size == self.cache@.len(),
                self.cache@ == old(self).cache@,
                i <= cache_size,
            decreases cache_size - i,
        {
            if !self.is_hidden(i) {
                self.cache[i].widget.tick();
            }
            i = i + 1;
        }
    }

    // Private functions

    /// The IDs of the widgets whose parent is `widget_id`, in the order they were added.
    fn get_children_of(&self, widget_id: usize) -> (children: Vec<usize>)
        requires
            self.wf(),
        ensures
            forall|j: int|
                0 <= j < children@.len() ==> children@[j] < self.cache@.len()
                    && self.cache@[children@[j] as int].parent_id == widget_id,
            forall|c: int|
                0 <= c < self.cache@.len() && self.cache@[c].parent_id == widget_id ==> exists|
                    j: int,
                | 0 <= j < children@.len() && children@[j] == c,
            children@ == children_upto(self.cache@, widget_id as int, self.cache@.len() as int),
    {
        let mut children: Vec<usize> = Vec::new();
        let mut i: usize = 0;
        while i < self.cache.len()
            invariant
                self.wf(),
                i <= self.cache@.len(),
                forall|j: int|
                    0 <= j < children@.len() ==> children@[j] < self.cache@.len()
                        && self.cache@[children@[j] as int].parent_id == widget_id,
                forall|c: int|
                    0 <= c < i && self.cache@[c].parent_id == widget_id ==> exists|j: int|
                        0 <= j < children@.len() && children@[j] == c,
                children@ == children_upto(self.cache@, widget_id as int, i as int),
            decreases self.cache@.len() - i,
        {
            let ghost before = children@;
            assert(self.cache@[i as int].widget_id == i);
            if self.cache[i].parent_id as usize == widget_id {
                children.push(i);
                assert forall|c: int|
                    0 <= c < i + 1 && self.cache@[c].parent_id == widget_id implies exists|j: int|
                        0 <= j < children@.len() && children@[j] == c by {
                    if c == i {
                        assert(children@[children@.len() - 1] == c);
                    } else {
                        let j = choose|j: int| 0 <= j < before.len() && before[j] == c;
                        assert(children@[j] == c);
                    }
                }
            }
            i = i + 1;
        }
        children
    }

    /// Walks the children of `widget_id` in the order they were added: paints each that is
    /// visible and invalidated, clipped to its bounds, then walks its own children, then dims it
    /// if it is disabled.  Returns whether anything was painted.
    #[verifier::rlimit(100)]
    fn draw(&mut self, widget_id: usize, ops: &mut Vec<DrawOp>, Ghost(depth): Ghost<int>) -> (painted: bool)
        requires
            depth == old(self).cache@.len() - widget_id,
            old(self).wf(),
            widget_id < old(self).cache@.len(),
        ensures
            final(self).wf(),
            final(self).cache@.len() == old(self).cache@.len(),
            forall|i: int|
                0 <= i < old(self).cache@.len() ==> #[trigger] final(self).cache@[i] == if descends(
                    old(self).cache@,
                    i,
                    widget_id as int,
                ) {
                    old(self).cache@[i].drawn()
                } else {
                    old(self).cache@[i]
                },
            painted == exists|i: int|
                0 <= i < old(self).cache@.len() && descends(old(self).cache@, i, widget_id as int)
                    && #[trigger] old(self).cache@[i].needs_paint(),
            crate::canvas::extends_quietly(old(ops)@, final(ops)@),
            final(ops)@ == old(ops)@ + walk(
                old(self).cache@,
                old(self).cache@.len() as int,
                widget_id as int,
            ).0,
            final(self).cache@ == walk(
                old(self).cache@,
                old(self).cache@.len() as int,
                widget_id as int,
            ).1,
        decreases depth,
    {
        let ghost s0 = self.cache@;
        let ghost ops0 = ops@;
        let children = self.get_children_of(widget_id);
        let top_level_rect = self.cache[0].widget.get_config().get_drawing_area();
        let mut painted = false;
        let mut k: usize = 0;
        let ghost n = s0.len() as int;
        let ghost top = s0[0].widget.config_spec().area_spec();
        let ghost total = walk_children(s0, n, widget_id as int, children@, 0, top);
        let ghost mut done: Seq<DrawOp> = seq![];
        proof {
            crate::canvas::lemma_extends_quietly_refl(ops0);
            assert(ops@ =~= ops0 + done);
            assert(total.0 =~= done + total.0);
        }
        while k < children.len()
            invariant
                registry_wf(self.cache@),
                same_parents(s0, self.cache@),
                registry_wf(s0),
                widget_id < s0.len(),
                depth == s0.len() - widget_id,
                forall|j: int|
                    0 <= j < children@.len() ==> children@[j] < s0.len() && s0[children@[j] as int].parent_id
                        == widget_id,
                k <= children@.len(),
                forall|i: int|
                    0 <= i < s0.len() ==> #[trigger] self.cache@[i] == if visited(
                        s0,
                        children@,
                        k as int,
                        widget_id as int,
                        i,
                    ) {
                        s0[i].drawn()
                    } else {
                        s0[i]
                    },
                painted == exists|i: int|
                    0 <= i < s0.len() && visited(s0, children@, k as int, widget_id as int, i)
                        && #[trigger] s0[i].needs_paint(),
                crate::canvas::extends_quietly(ops0, ops@),
                n == s0.len(),
                top == s0[0].widget.config_spec().area_spec(),
                top_level_rect == top,
                children@ == children_upto(s0, widget_id as int, n),
                total == walk_children(s0, n, widget_id as int, children@, 0, top),
                ops@ == ops0 + done,
                total.0 == done + walk_children(self.cache@, n, widget_id as int, children@, k as int, top).0,
                total.1 == walk_children(self.cache@, n, widget_id as int, children@, k as int, top).1,
            decreases children@.len() - k,
        {
            let c = children[k];
            let ghost cur = self.cache@;
            let ghost painted0 = painted;
            let ghost ops1 = ops@;
            let config = self.cache[c].widget.get_config();
            let area = config.get_drawing_area();
            assert(s0[c as int].parent_id == widget_id);
            if !config.hidden && config.invalidated {
                ops.push(DrawOp::SetClip(area));
                let more = self.cache[c].widget.draw();
                proof {
                    lemma_wf_update(cur, c as int, self.cache@[c as int]);
                    crate::widget::lemma_draw_spec_quiet(cur[c as int].widget);
                }
                append_ops(ops, &more);
                ops.push(DrawOp::SetClip(top_level_rect));
                painted = true;
                proof {
                    done = done + (seq![DrawOp::SetClip(area)] + more@ + seq![DrawOp::SetClip(top)]);
                    assert(ops@ =~= ops0 + done);
                    let a = ops1.push(DrawOp::SetClip(area));
                    crate::canvas::lemma_extends_quietly_push(ops1, DrawOp::SetClip(area));
                    crate::canvas::lemma_extends_quietly_append(a, more@);
                    crate::canvas::lemma_extends_quietly_trans(ops1, a, a + more@);
                    crate::canvas::lemma_extends_quietly_push(a + more@, DrawOp::SetClip(top_level_rect));
                    crate::canvas::lemma_extends_quietly_trans(ops1, a + more@, ops@);
                    crate::canvas::lemma_extends_quietly_trans(ops0, ops1, ops@);
                }
            }
            let ghost mid = self.cache@;
            let ghost ops2 = ops@;
            proof {
                assert(same_parents(s0, mid));
                assert(mid =~= if cur[c as int].needs_paint() {
                    cur.update(c as int, s0[c as int].drawn())
                } else {
                    cur
                });
            }
            if c != widget_id {
                proof {
                    assert(s0[c as int].widget_id == c);
                    assert(s0[0].widget_id == 0);
                    assert(c > widget_id);
                    assert(self.cache@.len() == s0.len());
                    assert(registry_wf(self.cache@));
                    assert(0 <= s0.len() - c < depth);
                }
                let sub = self.draw(c, ops, Ghost(s0.len() - c));
                painted = painted || sub;
                proof {
                    done = done + walk(mid, n, c as int).0;
                    assert(ops@ =~= ops0 + done);
                    crate::canvas::lemma_extends_quietly_trans(ops0, ops2, ops@);
                    assert forall|i: int| 0 <= i < s0.len() implies descends(mid, i, c as int)
                        == descends(s0, i, c as int) by {
                        lemma_descends_same_parents(s0, mid, i, c as int);
                    }
                }
            }
            let ghost after = self.cache@;
            let ghost ops3 = ops@;
            if !config.enabled {
                ops.push(DrawOp::DrawRect(area, Color::rgba(0, 0, 0, 128)));
                proof {
                    done = done.push(DrawOp::DrawRect(area, dim_color()));
                    crate::canvas::lemma_extends_quietly_push(ops3, DrawOp::DrawRect(area, dim_color()));
                    crate::canvas::lemma_extends_quietly_trans(ops0, ops3, ops@);
                }
            }
            k = k + 1;
            proof {
                let kk = k as int;
                let step = walk_children(cur, n, widget_id as int, children@, kk - 1, top);
                let paint_ops = if cur[c as int].needs_paint() {
                    seq![DrawOp::SetClip(area)] + cur[c as int].widget.draw_spec() + seq![
                        DrawOp::SetClip(top),
                    ]
                } else {
                    seq![]
                };
                let sub_ops = if c != widget_id {
                    walk(mid, n, c as int).0
                } else {
                    seq![]
                };
                let dim_ops = if !config.enabled {
                    seq![DrawOp::DrawRect(area, dim_color())]
                } else {
                    seq![]
                };
                let rest = walk_children(self.cache@, n, widget_id as int, children@, kk, top);
                assert(step.0 == paint_ops + sub_ops + dim_ops + rest.0);
                assert(step.1 == rest.1);
                assert(ops@ =~= ops0 + done);
                let w = widget_id as int;
                let ch = children@;
                assert forall|i: int| 0 <= i < s0.len() implies visited(s0, ch, kk, w, i) == (
                visited(s0, ch, kk - 1, w, i) || i == c || (c != widget_id && descends(
                    s0,
                    i,
                    c as int,
                ))) by {
                    if visited(s0, ch, kk, w, i) {
                        let j = choose|j: int|
                            0 <= j < kk && (i == #[trigger] ch[j] || (ch[j] != w && descends(
                                s0,
                                i,
                                ch[j] as int,
                            )));
                        if j < kk - 1 {
                            assert(visited(s0, ch, kk - 1, w, i));
                        }
                    }
                    if visited(s0, ch, kk - 1, w, i) {
                        let j = choose|j: int|
                            0 <= j < kk - 1 && (i == #[trigger] ch[j] || (ch[j] != w && descends(
                                s0,
                                i,
                                ch[j] as int,
                            )));
                        assert(0 <= j < kk && (i == ch[j] || (ch[j] != w && descends(
                            s0,
                            i,
                            ch[j] as int,
                        ))));
                    }
                    if i == c || (c != widget_id && descends(s0, i, c as int)) {
                        assert(ch[kk - 1] == c);
                    }
                }
                assert forall|i: int| 0 <= i < s0.len() implies #[trigger] self.cache@[i] == if visited(
                    s0,
                    ch,
                    kk,
                    w,
                    i,
                ) {
                    s0[i].drawn()
                } else {
                    s0[i]
                } by {
                    assert(cur[i] == if visited(s0, ch, kk - 1, w, i) {
                        s0[i].drawn()
                    } else {
                        s0[i]
                    });
                }
                if painted {
                    if painted0 {
                        let i = choose|i: int|
                            0 <= i < s0.len() && visited(s0, ch, kk - 1, w, i)
                                && #[trigger] s0[i].needs_paint();
                        assert(visited(s0, ch, kk, w, i));
                    } else if cur[c as int].needs_paint() {
                        assert(!visited(s0, ch, kk - 1, w, c as int));
                        assert(visited(s0, ch, kk, w, c as int));
                        assert(s0[c as int].needs_paint());
                    } else {
                        let i = choose|i: int|
                            0 <= i < mid.len() && descends(mid, i, c as int)
                                && #[trigger] mid[i].needs_paint();
                        assert(descends(s0, i, c as int));
                        assert(visited(s0, ch, kk, w, i));
                        assert(s0[i].needs_paint());
                    }
                }
                if exists|i: int|
                    0 <= i < s0.len() && visited(s0, ch, kk, w, i) && #[trigger] s0[i].needs_paint() {
                    let i = choose|i: int|
                        0 <= i < s0.len() && visited(s0, ch, kk, w, i) && #[trigger] s0[i].needs_paint();
                    if !visited(s0, ch, kk - 1, w, i) && i != c {
                        assert(descends(mid, i, c as int));
                        assert(mid[i] == s0[i]);
                        assert(mid[i].needs_paint());
                    }
                }
            }
        }
        proof {
            let w = widget_id as int;
            let ch = children@;
            let n = ch.len() as int;
            assert forall|i: int| 0 <= i < s0.len() implies visited(s0, ch, n, w, i) == descends(
                s0,
                i,
                w,
            ) by {
                lemma_descends_children(s0, i, w);
                if s0[i].parent_id == w {
                    let j = choose|j: int| 0 <= j < n && ch[j] == i;
                    assert(0 <= j < n && (i == ch[j] || (ch[j] != w && descends(s0, i, ch[j] as int))));
                }
                if exists|c: int|
                    0 <= c < s0.len() && #[trigger] s0[c].parent_id == w && c != w && descends(s0, i, c) {
                    let c = choose|c: int|
                        0 <= c < s0.len() && #[trigger] s0[c].parent_id == w && c != w && descends(s0, i, c);
                    let j = choose|j: int| 0 <= j < n && ch[j] == c;
                    assert(0 <= j < n && (i == ch[j] || (ch[j] != w && descends(s0, i, ch[j] as int))));
                }
                if visited(s0, ch, n, w, i) {
                    let j = choose|j: int|
                        0 <= j < n && (i == #[trigger] ch[j] || (ch[j] != w && descends(s0, i, ch[j] as int)));
                    let c = ch[j] as int;
                    assert(s0[c].parent_id == w);
                }
            }
        }
        painted
    }

    fn is_hidden(&self, widget_id: usize) -> (r: bool)
        requires
            widget_id < self.cache@.len(),
        ensures
            r == self.cache@[widget_id as int].hidden(),
    {
        self.cache[widget_id].widget.get_config().hidden
    }

    fn is_enabled(&self, widget_id: usize) -> (r: bool)
        requires
            widget_id < self.cache@.len(),
        ensures
            r == self.cache@[widget_id as int].enabled(),
    {
        self.cache[widget_id].widget.get_config().enabled
    }
}

} // verus!
