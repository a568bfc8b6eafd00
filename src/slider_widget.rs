use vstd::prelude::*;

use crate::canvas::DrawOp;
use crate::config::WidgetConfig;
use crate::geometry::{sub_floor, Color, Point, Rect, Size};
use crate::grid_widget::line_gray;

verus! {

/// These are the possible slider orientations.
#[derive(Clone, Copy, Debug, PartialEq, Eq, Structural)]
pub enum SliderOrientation {
    /// Indicates a horizontally controllable slider.
    SliderHorizontal,
    /// Indicates a vertically controllable slider.
    SliderVertical,
}

/// The span of values between `min` and `max`; an inverted range spans nothing.
pub open spec fn value_range(min: int, max: int) -> int {
    if max >= min {
        max - min
    } else {
        0
    }
}

/// The value under the pointer `offset` pixels along a track `length` pixels long: the range is
/// spread over the track, the fraction is truncated, and the result is clamped to the range.
pub open spec fn value_at(offset: int, length: int, min: int, max: int) -> int {
    if offset <= 0 {
        min
    } else if length == 0 {
        min + value_range(min, max)
    } else if offset * value_range(min, max) / length >= value_range(min, max) {
        min + value_range(min, max)
    } else {
        min + offset * value_range(min, max) / length
    }
}

/// Pointing at the middle of a track of even length selects the middle of the range 0 to 100.
pub proof fn lemma_value_at_midpoint(length: int)
    requires
        length > 0,
        length % 2 == 0,
    ensures
        value_at(length / 2, length, 0, 100) == 50,
{
    assert((length / 2) * 100 == length * 50) by (nonlinear_arith)
        requires
            length % 2 == 0,
    ;
    vstd::arithmetic::div_mod::lemma_div_multiples_vanish(50, length);
}

/// `value` moved into `[min, max]`: at or above `max` it is `max`, else at or below `min` it is
/// `min`.
pub open spec fn clamp_value(value: int, min: int, max: int) -> int {
    if value >= max {
        max
    } else if value <= min {
        min
    } else {
        value
    }
}

/// Where along a track `length` pixels long the 30 pixel knob for `current` starts: centred on
/// the value's position, but kept inside the track.
pub open spec fn knob_start(length: int, min: int, max: int, current: int) -> int {
    let center = if value_range(min, max) == 0 || current <= min {
        0
    } else {
        length * (current - min) / value_range(min, max)
    };
    if center + 15 >= length {
        sub_floor(length, 30)
    } else if center <= 15 {
        0
    } else {
        center - 15
    }
}

pub open spec fn knob_black() -> Color {
    Color { r: 0, g: 0, b: 0, a: 255 }
}

/// What a slider paints: its base color, a track of three lines through its middle, and the
/// knob at the current value.
pub open spec fn slider_ops(s: SliderWidget) -> Seq<DrawOp> {
    let c = s.config;
    let x0 = c.origin.x as int;
    let y0 = c.origin.y as int;
    let w = c.size.w as int;
    let h = c.size.h as int;
    if s.orientation == SliderOrientation::SliderHorizontal {
        let mid = y0 + h / 2;
        let knob = Rect {
            x: (x0 + knob_start(w, s.min as int, s.max as int, s.current as int)) as i64,
            y: y0 as i64,
            w: 30,
            h: c.size.h,
        };
        seq![
            DrawOp::FillRect(c.area_spec(), c.base_color),
            DrawOp::DrawLine((x0 + 10) as i64, mid as i64, (x0 + w - 10) as i64, mid as i64, line_gray()),
            DrawOp::DrawLine((x0 + 10) as i64, (mid - 1) as i64, (x0 + w - 10) as i64, (mid - 1) as i64, line_gray()),
            DrawOp::DrawLine((x0 + 10) as i64, (mid + 1) as i64, (x0 + w - 10) as i64, (mid + 1) as i64, line_gray()),
            DrawOp::FillRect(knob, c.base_color),
            DrawOp::DrawRect(knob, knob_black()),
        ]
    } else {
        let mid = x0 + w / 2;
        let knob = Rect {
            x: x0 as i64,
            y: (y0 + knob_start(h, s.min as int, s.max as int, s.current as int)) as i64,
            w: c.size.w,
            h: 30,
        };
        seq![
            DrawOp::FillRect(c.area_spec(), c.base_color),
            DrawOp::DrawLine(mid as i64, (y0 + 10) as i64, mid as i64, (y0 + h - 10) as i64, line_gray()),
            DrawOp::DrawLine((mid - 1) as i64, (y0 + 10) as i64, (mid - 1) as i64, (y0 + h - 10) as i64, line_gray()),
            DrawOp::DrawLine((mid + 1) as i64, (y0 + 10) as i64, (mid + 1) as i64, (y0 + h - 10) as i64, line_gray()),
            DrawOp::FillRect(knob, c.base_color),
            DrawOp::DrawRect(knob, knob_black()),
        ]
    }
}

/// A slider: a track with a knob that the pointer drags, or the wheel moves, between `min` and
/// `max`.  Dragging starts with a press of button 1 inside the slider.
pub struct SliderWidget {
    pub config: WidgetConfig,
    pub min: u32,
    pub max: u32,
    pub current: u32,
    pub orientation: SliderOrientation,
    /// The pointer is inside the slider.
    pub in_bounds: bool,
    /// Button 1 is held down.
    pub active: bool,
    /// The press that is held began inside the slider.
    pub originated: bool,
}

impl SliderWidget {
    /// The slider after the pointer moved to `points`, relative to the slider's origin: while
    /// dragging, the value follows the pointer along the slider's axis.
    pub open spec fn moved_spec(self, points: Point) -> SliderWidget {
        if self.in_bounds && self.active && self.originated {
            let value = if self.orientation == SliderOrientation::SliderHorizontal {
                value_at(
                    points.x as int,
                    self.config.size.w as int,
                    self.min as int,
                    self.max as int,
                )
            } else {
                value_at(
                    points.y as int,
                    self.config.size.h as int,
                    self.min as int,
                    self.max as int,
                )
            };
            SliderWidget {
                current: value as u32,
                config: WidgetConfig { invalidated: true, ..self.config },
                ..self
            }
        } else {
            self
        }
    }

    /// The wheel's movement along the slider's axis: right, or up, raises the value.
    pub open spec fn scroll_delta(self, points: Point) -> int {
        if self.orientation == SliderOrientation::SliderHorizontal {
            points.x as int
        } else {
            -points.y
        }
    }

    /// The slider after a wheel movement of `points`: the value moves by the wheel's delta and
    /// is clamped to `[min, max]`.
    pub open spec fn scrolled_spec(self, points: Point) -> SliderWidget {
        SliderWidget {
            current: clamp_value(
                self.current + self.scroll_delta(points),
                self.min as int,
                self.max as int,
            ) as u32,
            config: WidgetConfig { invalidated: true, ..self.config },
            ..self
        }
    }

    /// The slider after button `button` was pressed (`state`) or released: button 1 starts or
    /// ends a drag.
    pub open spec fn clicked_spec(self, button: u8, state: bool) -> SliderWidget {
        if button == 1 {
            SliderWidget {
                active: state,
                originated: state,
                config: WidgetConfig { invalidated: true, ..self.config },
                ..self
            }
        } else {
            self
        }
    }

    /// Creates a slider at `points` of the given `size`, between `min` and `max`, showing
    /// `current`.
    pub fn new(
        points: Point,
        size: Size,
        min: u32,
        max: u32,
        current: u32,
        orientation: SliderOrientation,
    ) -> (r: SliderWidget)
        ensures
            r == (SliderWidget {
                config: WidgetConfig::fresh(points, size),
                min,
                max,
                current,
                orientation,
                in_bounds: false,
                active: false,
                originated: false,
            }),
    {
        SliderWidget {
            config: WidgetConfig::new(points, size),
            min,
            max,
            current,
            orientation,
            in_bounds: false,
            active: false,
            originated: false,
        }
    }

    pub fn get_value(&self) -> (r: u32)
        ensures
            r == self.current,
    {
        self.current
    }

    /// The pointer entered the slider.
    pub fn mouse_entered(&mut self)
        ensures
            *final(self) == (SliderWidget { in_bounds: true, ..*old(self) }),
    {
        self.in_bounds = true;
    }

    /// The pointer left the slider.
    pub fn mouse_exited(&mut self)
        ensures
            *final(self) == (SliderWidget { in_bounds: false, ..*old(self) }),
    {
        self.in_bounds = false;
    }

    /// The pointer moved to `points`, relative to the slider's origin.  While a drag is under way the value
    /// follows it and is returned, for the value-changed handler; otherwise nothing changes.
    pub fn mouse_moved(&mut self, points: Point) -> (changed: Option<u32>)
        ensures
            *final(self) == old(self).moved_spec(points),
            changed == if old(self).in_bounds && old(self).active && old(self).originated {
                Some(final(self).current)
            } else {
                None::<u32>
            },
    {
        if self.in_bounds && self.active && self.originated {
            let (offset, length) = match self.orientation {
                SliderOrientation::SliderHorizontal => (points.x as i64, self.config.size.w as u64),
                SliderOrientation::SliderVertical => (points.y as i64, self.config.size.h as u64),
            };
            let range: u64 = if self.max >= self.min {
                (self.max - self.min) as u64
            } else {
                0
            };
            let value: u64 = if offset <= 0 {
                self.min as u64
            } else if length == 0 {
                self.min as u64 + range
            } else {
                let off = offset as u64;
                assert(off * range <= 0x1_0000_0000 * 0xffff_ffff) by (nonlinear_arith)
                    requires
                        off <= 0x1_0000_0000,
                        range <= 0xffff_ffff,
                ;
                let steps = off * range / length;
                if steps >= range {
                    self.min as u64 + range
                } else {
                    self.min as u64 + steps
                }
            };
            self.current = value as u32;
            self.config.set_invalidated(true);
            Some(self.current)
        } else {
            None
        }
    }

    /// The wheel moved by `points`.  The value moves along the slider's axis, is clamped to
    /// `[min, max]`, and is returned for the value-changed handler.
    pub fn mouse_scrolled(&mut self, points: Point) -> (changed: Option<u32>)
        ensures
            *final(self) == old(self).scrolled_spec(points),
            changed == Some(final(self).current),
            old(self).min <= old(self).max ==> old(self).min <= final(self).current
                <= old(self).max,
    {
        let delta: i64 = match self.orientation {
            SliderOrientation::SliderHorizontal => points.x as i64,
            SliderOrientation::SliderVertical => -(points.y as i64),
        };
        let moved: i64 = self.current as i64 + delta;
        let value: i64 = if moved >= self.max as i64 {
            self.max as i64
        } else if moved <= self.min as i64 {
            self.min as i64
        } else {
            moved
        };
        self.current = value as u32;
        self.config.set_invalidated(true);
        Some(self.current)
    }

    /// A mouse button was pressed (`state`) or released.  Button 1 starts or ends a drag.
    pub fn button_clicked(&mut self, button: u8, clicks: u8, state: bool)
        ensures
            *final(self) == old(self).clicked_spec(button, state),
    {
        if button == 1 {
            self.active = state;
            self.originated = state;
            self.config.set_invalidated(true);
        }
    }

    /// Paints the slider and clears the invalidated flag.
    pub fn draw(&mut self) -> (ops: Vec<DrawOp>)
        ensures
            ops@ == slider_ops(*old(self)),
            *final(self) == (SliderWidget {
                config: WidgetConfig { invalidated: false, ..old(self).config },
                ..*old(self)
            }),
    {
        let c = self.config;
        let x0 = c.origin.x as i64;
        let y0 = c.origin.y as i64;
        let w = c.size.w as i64;
        let h = c.size.h as i64;
        let gray = Color::rgb(192, 192, 192);
        let black = Color::rgb(0, 0, 0);
        let mut ops: Vec<DrawOp> = Vec::new();
        ops.push(DrawOp::FillRect(c.get_drawing_area(), c.base_color));
        match self.orientation {
            SliderOrientation::SliderHorizontal => {
                let mid = y0 + h / 2;
                ops.push(DrawOp::DrawLine(x0 + 10, mid, x0 + w - 10, mid, gray));
                ops.push(DrawOp::DrawLine(x0 + 10, mid - 1, x0 + w - 10, mid - 1, gray));
                ops.push(DrawOp::DrawLine(x0 + 10, mid + 1, x0 + w - 10, mid + 1, gray));
                let start = knob_offset(c.size.w, self.min, self.max, self.current);
                let knob = Rect { x: x0 + start as i64, y: y0, w: 30, h: c.size.h };
                ops.push(DrawOp::FillRect(knob, c.base_color));
                ops.push(DrawOp::DrawRect(knob, black));
            },
            SliderOrientation::SliderVertical => {
                let mid = x0 + w / 2;
                ops.push(DrawOp::DrawLine(mid, y0 + 10, mid, y0 + h - 10, gray));
                ops.push(DrawOp::DrawLine(mid - 1, y0 + 10, mid - 1, y0 + h - 10, gray));
                ops.push(DrawOp::DrawLine(mid + 1, y0 + 10, mid + 1, y0 + h - 10, gray));
                let start = knob_offset(c.size.h, self.min, self.max, self.current);
                let knob = Rect { x: x0, y: y0 + start as i64, w: c.size.w, h: 30 };
                ops.push(DrawOp::FillRect(knob, c.base_color));
                ops.push(DrawOp::DrawRect(knob, black));
            },
        }
        assert(ops@ =~= slider_ops(*old(self)));
        self.config.set_invalidated(false);
        ops
    }
}

/// Where the knob starts along a track of `length` pixels.
fn knob_offset(length: u32, min: u32, max: u32, current: u32) -> (r: u32)
    ensures
        r == knob_start(length as int, min as int, max as int, current as int),
{
    let range: u64 = if max >= min {
        (max - min) as u64
    } else {
        0
    };
    let center: u64 = if range == 0 || current <= min {
        0
    } else {
        let d = (current - min) as u64;
        assert((length as u64) * d <= 0xffff_ffff * 0xffff_ffff) by (nonlinear_arith)
            requires
                length <= 0xffff_ffff,
                d <= 0xffff_ffff,
        ;
        (length as u64) * d / range
    };
    if center + 15 >= length as u64 {
        if length >= 30 {
            length - 30
        } else {
            0
        }
    } else if center <= 15 {
        0
    } else {
        (center - 15) as u32
    }
}

} // verus!
