use vstd::prelude::*;

use crate::geometry::{Color, Point, Rect, Size};

verus! {

/// Which of a widget's colors a setting refers to.
#[derive(Clone, Copy, Debug, PartialEq, Eq, Structural)]
pub enum ColorKind {
    /// The fill color.
    Base,
    /// The color of the bounding box.
    Border,
    /// The color of a widget's secondary feature, such as the fill of a progress bar.
    Secondary,
}

/// The state that every widget carries: where it is, how large, how it is painted, and whether it
/// is visible, accepts input and needs to be redrawn.
#[derive(Clone, Copy, Debug, PartialEq, Eq, Structural)]
pub struct WidgetConfig {
    pub origin: Point,
    pub size: Size,
    pub base_color: Color,
    pub border_color: Color,
    pub secondary_color: Color,
    pub border_width: u8,
    pub hidden: bool,
    pub enabled: bool,
    pub invalidated: bool,
    pub autoclip: bool,
}

impl WidgetConfig {
    /// A visible, enabled widget at `origin` of the given `size`, painted white with a black
    /// border of width zero.  It starts invalidated so that the first frame draws it.
    pub open spec fn fresh(origin: Point, size: Size) -> WidgetConfig {
        WidgetConfig {
            origin,
            size,
            base_color: Color { r: 255, g: 255, b: 255, a: 255 },
            border_color: Color { r: 0, g: 0, b: 0, a: 255 },
            secondary_color: Color { r: 0, g: 0, b: 0, a: 255 },
            border_width: 0,
            hidden: false,
            enabled: true,
            invalidated: true,
            autoclip: false,
        }
    }

    pub fn new(origin: Point, size: Size) -> (r: WidgetConfig)
        ensures
            r == WidgetConfig::fresh(origin, size),
    {
        WidgetConfig {
            origin,
            size,
            base_color: Color::rgb(255, 255, 255),
            border_color: Color::rgb(0, 0, 0),
            secondary_color: Color::rgb(0, 0, 0),
            border_width: 0,
            hidden: false,
            enabled: true,
            invalidated: true,
            autoclip: false,
        }
    }

    pub open spec fn color_spec(self, kind: ColorKind) -> Color {
        match kind {
            ColorKind::Base => self.base_color,
            ColorKind::Border => self.border_color,
            ColorKind::Secondary => self.secondary_color,
        }
    }

    /// The box that the widget occupies on the surface.
    pub open spec fn area_spec(self) -> Rect {
        Rect { x: self.origin.x as i64, y: self.origin.y as i64, w: self.size.w, h: self.size.h }
    }

    pub fn set_origin(&mut self, x: i32, y: i32)
        ensures
            *final(self) == (WidgetConfig {
                origin: Point { x, y },
                invalidated: true,
                ..*old(self)
            }),
    {
        self.origin = Point { x, y };
        self.invalidated = true;
    }

    pub fn set_size(&mut self, w: u32, h: u32)
        ensures
            *final(self) == (WidgetConfig { size: Size { w, h }, invalidated: true, ..*old(self) }),
    {
        self.size = Size { w, h };
        self.invalidated = true;
    }

    pub fn set_color(&mut self, kind: ColorKind, color: Color)
        ensures
            final(self).color_spec(kind) == color,
            final(self).invalidated,
            final(self).origin == old(self).origin,
            final(self).size == old(self).size,
            final(self).border_width == old(self).border_width,
            final(self).hidden == old(self).hidden,
            final(self).enabled == old(self).enabled,
            final(self).autoclip == old(self).autoclip,
            forall|k: ColorKind| k != kind ==> final(self).color_spec(k) == old(self).color_spec(k),
    {
        match kind {
            ColorKind::Base => self.base_color = color,
            ColorKind::Border => self.border_color = color,
            ColorKind::Secondary => self.secondary_color = color,
        }
        self.invalidated = true;
    }

    pub fn set_border_width(&mut self, width: u8)
        ensures
            *final(self) == (WidgetConfig {
                border_width: width,
                invalidated: true,
                ..*old(self)
            }),
    {
        self.border_width = width;
        self.invalidated = true;
    }

    pub fn set_autoclip(&mut self, clip: bool)
        ensures
            *final(self) == (WidgetConfig { autoclip: clip, invalidated: true, ..*old(self) }),
    {
        self.autoclip = clip;
        self.invalidated = true;
    }

    /// Shows or hides the widget.  Either way the surface under it changes, so it is invalidated.
    pub fn set_hidden(&mut self, hidden: bool)
        ensures
            *final(self) == (WidgetConfig { hidden, invalidated: true, ..*old(self) }),
    {
        self.hidden = hidden;
        self.invalidated = true;
    }

    /// Enables or disables input to the widget; a disabled widget is drawn dimmed, so it is
    /// invalidated.
    pub fn set_enabled(&mut self, enabled: bool)
        ensures
            *final(self) == (WidgetConfig { enabled, invalidated: true, ..*old(self) }),
    {
        self.enabled = enabled;
        self.invalidated = true;
    }

    /// Sets or clears the dirty bit directly.
    pub fn set_invalidated(&mut self, invalidated: bool)
        ensures
            *final(self) == (WidgetConfig { invalidated, ..*old(self) }),
    {
        self.invalidated = invalidated;
    }

    pub fn get_color(&self, kind: ColorKind) -> (c: Color)
        ensures
            c == self.color_spec(kind),
    {
        match kind {
            ColorKind::Base => self.base_color,
            ColorKind::Border => self.border_color,
            ColorKind::Secondary => self.secondary_color,
        }
    }

    /// The surface's x coordinate of the point `offset` pixels right of the widget's origin.
    pub fn to_x(&self, offset: i32) -> (x: i64)
        ensures
            x == self.origin.x + offset,
    {
        self.origin.x as i64 + offset as i64
    }

    /// The surface's y coordinate of the point `offset` pixels below the widget's origin.
    pub fn to_y(&self, offset: i32) -> (y: i64)
        ensures
            y == self.origin.y + offset,
    {
        self.origin.y as i64 + offset as i64
    }

    /// The box that the widget occupies on the surface, used to clip its drawing.
    pub fn get_drawing_area(&self) -> (r: Rect)
        ensures
            r == self.area_spec(),
    {
        Rect { x: self.origin.x as i64, y: self.origin.y as i64, w: self.size.w, h: self.size.h }
    }
}

} // verus!
