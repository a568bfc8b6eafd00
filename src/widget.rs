use vstd::prelude::*;

use crate::base_widget::{flat_ops, BaseWidget};
use crate::canvas::{presents_nothing, DrawOp};
use crate::config::{ColorKind, WidgetConfig};
use crate::geometry::{Color, Point, Size};
use crate::grid_widget::{grid_ops, lemma_grid_ops_quiet, GridWidget};
use crate::progress_widget::{progress_ops, ProgressWidget};
use crate::slider_widget::{slider_ops, SliderWidget};

verus! {

/// Any widget that the toolkit can hold.  Every variant carries a `WidgetConfig`; the callbacks
/// that a variant does not care about leave it unchanged.
pub enum Widget {
    Base(BaseWidget),
    Grid(GridWidget),
    Progress(ProgressWidget),
    Slider(SliderWidget),
}

/// No widget presents the surface when it is drawn; the draw loop does that, once.
pub proof fn lemma_draw_spec_quiet(w: Widget)
    ensures
        presents_nothing(w.draw_spec()),
{
    match w {
        Widget::Base(b) => {
            assert(presents_nothing(flat_ops(b.config)));
        },
        Widget::Grid(g) => {
            lemma_grid_ops_quiet(g.config, g.grid_size as int, g.grid_connections);
        },
        Widget::Progress(p) => {
            let f = flat_ops(p.config);
            let all = progress_ops(p.config, p.progress as int);
            assert forall|k: int| 0 <= k < all.len() implies !(#[trigger] all[k] is Present) by {
                if k < f.len() {
                    assert(all[k] == f[k]);
                }
            }
        },
        Widget::Slider(s) => {
        },
    }
}

impl Widget {
    pub open spec fn config_spec(self) -> WidgetConfig {
        match self {
            Widget::Base(w) => w.config,
            Widget::Grid(w) => w.config,
            Widget::Progress(w) => w.config,
            Widget::Slider(w) => w.config,
        }
    }

    /// The same widget with its configuration replaced by `c`.
    pub open spec fn with_config(self, c: WidgetConfig) -> Widget {
        match self {
            Widget::Base(w) => Widget::Base(BaseWidget { config: c }),
            Widget::Grid(w) => Widget::Grid(GridWidget { config: c, ..w }),
            Widget::Progress(w) => Widget::Progress(ProgressWidget { config: c, ..w }),
            Widget::Slider(w) => Widget::Slider(SliderWidget { config: c, ..w }),
        }
    }

    /// What the widget paints when it is drawn.
    pub open spec fn draw_spec(self) -> Seq<DrawOp> {
        match self {
            Widget::Base(w) => flat_ops(w.config),
            Widget::Grid(w) => grid_ops(w.config, w.grid_size as int, w.grid_connections),
            Widget::Progress(w) => progress_ops(w.config, w.progress as int),
            Widget::Slider(w) => slider_ops(w),
        }
    }

    /// The widget after it is drawn: only its invalidated flag changes, to false.
    pub open spec fn drawn_spec(self) -> Widget {
        self.with_config(WidgetConfig { invalidated: false, ..self.config_spec() })
    }

    pub open spec fn entered_spec(self) -> Widget {
        match self {
            Widget::Slider(w) => Widget::Slider(SliderWidget { in_bounds: true, ..w }),
            _ => self,
        }
    }

    pub open spec fn exited_spec(self) -> Widget {
        match self {
            Widget::Slider(w) => Widget::Slider(SliderWidget { in_bounds: false, ..w }),
            _ => self,
        }
    }

    pub open spec fn moved_spec(self, points: Point) -> Widget {
        match self {
            Widget::Slider(w) => Widget::Slider(w.moved_spec(points)),
            _ => self,
        }
    }

    /// The value that a pointer movement reports to the value-changed handler, if any.
    pub open spec fn moved_value(self, points: Point) -> Option<u32> {
        match self {
            Widget::Slider(w) => if w.in_bounds && w.active && w.originated {
                Some(w.moved_spec(points).current)
            } else {
                None
            },
            _ => None,
        }
    }

    pub open spec fn scrolled_spec(self, points: Point) -> Widget {
        match self {
            Widget::Slider(w) => Widget::Slider(w.scrolled_spec(points)),
            _ => self,
        }
    }

    /// The value that a wheel movement reports to the value-changed handler, if any.
    pub open spec fn scrolled_value(self, points: Point) -> Option<u32> {
        match self {
            Widget::Slider(w) => Some(w.scrolled_spec(points).current),
            _ => None,
        }
    }

    pub open spec fn clicked_spec(self, button: u8, state: bool) -> Widget {
        match self {
            Widget::Slider(w) => Widget::Slider(w.clicked_spec(button, state)),
            _ => self,
        }
    }

    /// Called once per frame before drawing.  No widget kind of this toolkit changes on a tick.
    pub fn tick(&mut self)
        ensures
            *final(self) == *old(self),
    {
    }

    pub fn get_config(&self) -> (r: WidgetConfig)
        ensures
            r == self.config_spec(),
    {
        match self {
            Widget::Base(w) => w.config,
            Widget::Grid(w) => w.config,
            Widget::Progress(w) => w.config,
            Widget::Slider(w) => w.config,
        }
    }

    /// Replaces the widget's configuration.
    pub fn set_config(&mut self, c: WidgetConfig)
        ensures
            *final(self) == old(self).with_config(c),
    {
        match self {
            Widget::Base(w) => w.config = c,
            Widget::Grid(w) => w.config = c,
            Widget::Progress(w) => w.config = c,
            Widget::Slider(w) => w.config = c,
        }
    }

    /// Marks the widget as needing a redraw.
    pub fn invalidate(&mut self)
        ensures
            *final(self) == old(self).with_config(
                WidgetConfig { invalidated: true, ..old(self).config_spec() },
            ),
    {
        let mut c = self.get_config();
        c.set_invalidated(true);
        self.set_config(c);
    }

    /// Clears the invalidated flag.
    pub fn clear_invalidate(&mut self)
        ensures
            *final(self) == old(self).drawn_spec(),
    {
        let mut c = self.get_config();
        c.set_invalidated(false);
        self.set_config(c);
    }

    pub fn is_invalidated(&self) -> (r: bool)
        ensures
            r == self.config_spec().invalidated,
    {
        self.get_config().invalidated
    }

    /// Moves the widget; it is invalidated.
    pub fn set_origin(&mut self, x: i32, y: i32)
        ensures
            *final(self) == old(self).with_config(
                WidgetConfig { origin: Point { x, y }, invalidated: true, ..old(self).config_spec() },
            ),
    {
        let mut c = self.get_config();
        c.set_origin(x, y);
        self.set_config(c);
    }

    pub fn get_origin(&self) -> (r: Point)
        ensures
            r == self.config_spec().origin,
    {
        self.get_config().origin
    }

    /// Resizes the widget; it is invalidated.
    pub fn set_size(&mut self, w: u32, h: u32)
        ensures
            *final(self) == old(self).with_config(
                WidgetConfig { size: Size { w, h }, invalidated: true, ..old(self).config_spec() },
            ),
    {
        let mut c = self.get_config();
        c.set_size(w, h);
        self.set_config(c);
    }

    pub fn get_size(&self) -> (r: Size)
        ensures
            r == self.config_spec().size,
    {
        self.get_config().size
    }

    /// Sets one of the widget's colors; it is invalidated.
    pub fn set_color(&mut self, kind: ColorKind, color: Color)
        ensures
            final(self).config_spec().color_spec(kind) == color,
            final(self).config_spec().invalidated,
            forall|k: ColorKind|
                k != kind ==> final(self).config_spec().color_spec(k) == old(
                    self,
                ).config_spec().color_spec(k),
            *final(self) == old(self).with_config(final(self).config_spec()),
            final(self).config_spec() == (WidgetConfig {
                base_color: final(self).config_spec().base_color,
                border_color: final(self).config_spec().border_color,
                secondary_color: final(self).config_spec().secondary_color,
                invalidated: true,
                ..old(self).config_spec()
            }),
    {
        let mut c = self.get_config();
        c.set_color(kind, color);
        self.set_config(c);
    }

    pub fn get_color(&self, kind: ColorKind) -> (r: Color)
        ensures
            r == self.config_spec().color_spec(kind),
    {
        self.get_config().get_color(kind)
    }

    /// Sets the width of the bounding box; the widget is invalidated.
    pub fn set_border_width(&mut self, width: u8)
        ensures
            *final(self) == old(self).with_config(
                WidgetConfig { border_width: width, invalidated: true, ..old(self).config_spec() },
            ),
    {
        let mut c = self.get_config();
        c.set_border_width(width);
        self.set_config(c);
    }

    pub fn set_autoclip(&mut self, clip: bool)
        ensures
            *final(self) == old(self).with_config(
                WidgetConfig { autoclip: clip, invalidated: true, ..old(self).config_spec() },
            ),
    {
        let mut c = self.get_config();
        c.set_autoclip(clip);
        self.set_config(c);
    }

    pub fn get_autoclip(&self) -> (r: bool)
        ensures
            r == self.config_spec().autoclip,
    {
        self.get_config().autoclip
    }

    /// Shows or hides the widget; it is invalidated.
    pub fn set_hidden(&mut self, hidden: bool)
        ensures
            *final(self) == old(self).with_config(
                WidgetConfig { hidden, invalidated: true, ..old(self).config_spec() },
            ),
    {
        let mut c = self.get_config();
        c.set_hidden(hidden);
        self.set_config(c);
    }

    /// Enables or disables input to the widget; it is invalidated.
    pub fn set_enabled(&mut self, enabled: bool)
        ensures
            *final(self) == old(self).with_config(
                WidgetConfig { enabled, invalidated: true, ..old(self).config_spec() },
            ),
    {
        let mut c = self.get_config();
        c.set_enabled(enabled);
        self.set_config(c);
    }

    /// Paints the widget and clears its invalidated flag.
    pub fn draw(&mut self) -> (ops: Vec<DrawOp>)
        ensures
            ops@ == old(self).draw_spec(),
            *final(self) == old(self).drawn_spec(),
    {
        match self {
            Widget::Base(w) => w.draw(),
            Widget::Grid(w) => w.draw(),
            Widget::Progress(w) => w.draw(),
            Widget::Slider(w) => w.draw(),
        }
    }

    /// Called when the pointer enters the widget's bounds.
    pub fn mouse_entered(&mut self)
        ensures
            *final(self) == old(self).entered_spec(),
    {
        match self {
            Widget::Slider(w) => w.mouse_entered(),
            _ => {},
        }
    }

    /// Called when the pointer leaves the widget's bounds.
    pub fn mouse_exited(&mut self)
        ensures
            *final(self) == old(self).exited_spec(),
    {
        match self {
            Widget::Slider(w) => w.mouse_exited(),
            _ => {},
        }
    }

    /// Called when the pointer moves to `points`; returns the value to report, if any.
    pub fn mouse_moved(&mut self, points: Point) -> (changed: Option<u32>)
        ensures
            *final(self) == old(self).moved_spec(points),
            changed == old(self).moved_value(points),
    {
        match self {
            Widget::Slider(w) => w.mouse_moved(points),
            _ => None,
        }
    }

    /// Called when the wheel moves by `points`; returns the value to report, if any.
    pub fn mouse_scrolled(&mut self, points: Point) -> (changed: Option<u32>)
        ensures
            *final(self) == old(self).scrolled_spec(points),
            changed == old(self).scrolled_value(points),
    {
        match self {
            Widget::Slider(w) => w.mouse_scrolled(points),
            _ => None,
        }
    }

    /// Called when a mouse button is pressed (`state`) or released.
    pub fn button_clicked(&mut self, button: u8, clicks: u8, state: bool)
        ensures
            *final(self) == old(self).clicked_spec(button, state),
    {
        match self {
            Widget::Slider(w) => w.button_clicked(button, clicks, state),
            _ => {},
        }
    }
}

} // verus!
