use vstd::prelude::*;

use crate::canvas::DrawOp;
use crate::config::WidgetConfig;
use crate::geometry::{sub_floor, Point, Rect, Size};

verus! {

/// The rectangle `inset` pixels inside `area` on every side; it shrinks to nothing rather than
/// turning inside out.
pub open spec fn inset_spec(area: Rect, inset: int) -> Rect {
    Rect {
        x: (area.x + inset) as i64,
        y: (area.y + inset) as i64,
        w: sub_floor(area.w as int, 2 * inset) as u32,
        h: sub_floor(area.h as int, 2 * inset) as u32,
    }
}

/// The outlines, one pixel apart, that frame a widget whose border is `border_width` wide.
pub open spec fn bounding_box_ops(config: WidgetConfig) -> Seq<DrawOp> {
    Seq::new(
        config.border_width as nat,
        |i: int| DrawOp::DrawRect(inset_spec(config.area_spec(), i), config.border_color),
    )
}

/// A flat rectangle in the base color, framed by the border.
pub open spec fn flat_ops(config: WidgetConfig) -> Seq<DrawOp> {
    seq![DrawOp::FillRect(config.area_spec(), config.base_color)] + bounding_box_ops(config)
}

/// Appends the commands that draw the widget's bounding box: `border_width` nested outlines.
pub fn draw_bounding_box(config: &WidgetConfig, ops: &mut Vec<DrawOp>)
    ensures
        final(ops)@ == old(ops)@ + bounding_box_ops(*config),
{
    let ghost start = old(ops)@;
    let area = config.get_drawing_area();
    let mut i: u8 = 0;
    while i < config.border_width
        invariant
            i <= config.border_width,
            area == config.area_spec(),
            ops@ == start + bounding_box_ops(*config).subrange(0, i as int),
        decreases config.border_width - i,
    {
        let twice: u32 = 2 * (i as u32);
        let w: u32 = if area.w >= twice {
            area.w - twice
        } else {
            0
        };
        let h: u32 = if area.h >= twice {
            area.h - twice
        } else {
            0
        };
        let r = Rect { x: area.x + i as i64, y: area.y + i as i64, w, h };
        assert(r == inset_spec(area, i as int));
        ops.push(DrawOp::DrawRect(r, config.border_color));
        i = i + 1;
        assert(ops@ =~= start + bounding_box_ops(*config).subrange(0, i as int));
    }
    assert(bounding_box_ops(*config).subrange(0, i as int) =~= bounding_box_ops(*config));
}

/// Draws a flat rectangle in the base color with its border, and returns the commands.
pub fn draw_flat(config: &WidgetConfig) -> (ops: Vec<DrawOp>)
    ensures
        ops@ == flat_ops(*config),
{
    let mut ops: Vec<DrawOp> = Vec::new();
    ops.push(DrawOp::FillRect(config.get_drawing_area(), config.base_color));
    draw_bounding_box(config, &mut ops);
    ops
}

/// The plainest widget: a rectangle in its base color, framed by its border.  It serves as the
/// top-level container and as a backdrop.
pub struct BaseWidget {
    pub config: WidgetConfig,
}

impl BaseWidget {
    pub open spec fn new_spec(x: i32, y: i32, w: u32, h: u32) -> BaseWidget {
        BaseWidget { config: WidgetConfig::fresh(Point { x, y }, Size { w, h }) }
    }

    pub fn new(x: i32, y: i32, w: u32, h: u32) -> (r: BaseWidget)
        ensures
            r == BaseWidget::new_spec(x, y, w, h),
    {
        BaseWidget { config: WidgetConfig::new(Point { x, y }, Size { w, h }) }
    }

    /// Paints the widget and clears its invalidated flag.
    pub fn draw(&mut self) -> (ops: Vec<DrawOp>)
        ensures
            ops@ == flat_ops(old(self).config),
            final(self).config == (WidgetConfig { invalidated: false, ..old(self).config }),
    {
        let ops = draw_flat(&self.config);
        self.config.set_invalidated(false);
        ops
    }
}

} // verus!
