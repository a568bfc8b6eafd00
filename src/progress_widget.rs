use vstd::prelude::*;

use crate::base_widget::{draw_flat, flat_ops};
use crate::canvas::DrawOp;
use crate::config::WidgetConfig;
use crate::geometry::{sub_floor, Color, Point, Rect, Size};

verus! {

/// `progress` as a percentage: anything above 100 counts as 100.
pub open spec fn percent(progress: int) -> int {
    if progress > 100 {
        100
    } else {
        progress
    }
}

/// The width of the fill of a bar `width` pixels wide at `progress` percent.
pub open spec fn fill_width(width: int, progress: int) -> int {
    width * percent(progress) / 100
}

/// What a progress bar paints: its frame, then the fill in the secondary color, one pixel inside
/// the frame.
pub open spec fn progress_ops(c: WidgetConfig, progress: int) -> Seq<DrawOp> {
    flat_ops(c) + seq![
        DrawOp::FillRect(
            Rect {
                x: (c.origin.x + 1) as i64,
                y: (c.origin.y + 1) as i64,
                w: fill_width(c.size.w as int, progress) as u32,
                h: sub_floor(c.size.h as int, 2) as u32,
            },
            c.secondary_color,
        ),
    ]
}

/// A progress bar: a white box with a black border of one pixel, filled from the left in the
/// secondary color in proportion to a percentage between 0 and 100.
pub struct ProgressWidget {
    pub config: WidgetConfig,
    pub progress: u16,
}

impl ProgressWidget {
    /// A progress bar at `(x, y)` of size `w` by `h`; a `progress` above 100 is taken as 100.
    pub fn new(x: i32, y: i32, w: u32, h: u32, progress: u16) -> (r: ProgressWidget)
        ensures
            r.config == (WidgetConfig {
                border_width: 1,
                ..WidgetConfig::fresh(Point { x, y }, Size { w, h })
            }),
            r.progress == percent(progress as int),
    {
        let mut config = WidgetConfig::new(Point { x, y }, Size { w, h });
        config.border_width = 1;
        let progress = if progress > 100 {
            100
        } else {
            progress
        };
        ProgressWidget { config, progress }
    }

    /// Sets the progress, taking anything above 100 as 100.  The bar is redrawn only when the
    /// value changes.
    pub fn set_progress(&mut self, progress: u16)
        ensures
            final(self).progress == percent(progress as int),
            final(self).config == (WidgetConfig {
                invalidated: old(self).config.invalidated || final(self).progress
                    != old(self).progress,
                ..old(self).config
            }),
    {
        let clamped = if progress > 100 {
            100
        } else {
            progress
        };
        if clamped != self.progress {
            self.progress = clamped;
            self.config.set_invalidated(true);
        }
    }

    pub fn get_progress(&self) -> (r: u16)
        ensures
            r == self.progress,
    {
        self.progress
    }

    /// Paints the bar and clears the invalidated flag.
    pub fn draw(&mut self) -> (ops: Vec<DrawOp>)
        ensures
            ops@ == progress_ops(old(self).config, old(self).progress as int),
            final(self).config == (WidgetConfig { invalidated: false, ..old(self).config }),
            final(self).progress == old(self).progress,
    {
        let mut ops = draw_flat(&self.config);
        let p: u64 = if self.progress > 100 {
            100
        } else {
            self.progress as u64
        };
        assert((self.config.size.w as u64) * p <= 0xffff_ffff * 100) by (nonlinear_arith)
            requires
                self.config.size.w <= 0xffff_ffff,
                p <= 100,
        ;
        let fill: u64 = (self.config.size.w as u64) * p / 100;
        assert(fill <= self.config.size.w) by (nonlinear_arith)
            requires
                fill == (self.config.size.w as u64) * p / 100,
                p <= 100,
        ;
        let h: u32 = if self.config.size.h >= 2 {
            self.config.size.h - 2
        } else {
            0
        };
        ops.push(
            DrawOp::FillRect(
                Rect { x: self.config.to_x(1), y: self.config.to_y(1), w: fill as u32, h },
                self.config.secondary_color,
            ),
        );
        self.config.set_invalidated(false);
        ops
    }
}

} // verus!
