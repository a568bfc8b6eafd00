//! A retained-mode widget toolkit.
//!
//! Widgets live in a registry (`widget_cache`) that hands out their IDs, finds the widget under a
//! point, routes input to it and draws the widget hierarchy, repainting only what is invalidated.
//! Layout managers (`layout`) compute the geometry of the widgets assigned to them, and the
//! `engine` runs both once per frame.  Drawing produces a list of commands (`canvas`) that the
//! host replays on its surface.
use vstd::prelude::*;

pub mod base_widget;
pub mod canvas;
pub mod config;
pub mod engine;
pub mod geometry;
pub mod grid_widget;
pub mod hierarchy;
pub mod layout;
pub mod progress_widget;
pub mod slider_widget;
pub mod widget;
pub mod widget_cache;

verus! {

} // verus!
