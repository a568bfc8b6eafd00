use pushrod::base_widget::BaseWidget;
use pushrod::canvas::DrawOp;
use pushrod::config::ColorKind;
use pushrod::geometry::{Color, Point, Rect, Size};
use pushrod::grid_widget::GridWidget;
use pushrod::progress_widget::ProgressWidget;
use pushrod::slider_widget::{SliderOrientation, SliderWidget};
use pushrod::widget::Widget;

#[test]
fn setters_invalidate_and_draw_clears() {
    let mut w = Widget::Base(BaseWidget::new(0, 0, 10, 10));
    w.clear_invalidate();
    assert!(!w.is_invalidated());
    w.set_color(ColorKind::Base, Color::rgb(1, 2, 3));
    assert!(w.is_invalidated());
    assert_eq!(w.get_color(ColorKind::Base), Color::rgb(1, 2, 3));
    w.draw();
    assert!(!w.is_invalidated());
    w.set_size(20, 30);
    assert!(w.is_invalidated());
    assert_eq!(w.get_size(), Size::new(20, 30));
    w.draw();
    w.set_origin(5, 6);
    assert!(w.is_invalidated());
    assert_eq!(w.get_origin(), Point::new(5, 6));
    w.draw();
    w.set_autoclip(true);
    assert!(w.is_invalidated());
    assert!(w.get_autoclip());
}

#[test]
fn base_widget_draws_fill_and_border() {
    let mut b = BaseWidget::new(10, 20, 30, 40);
    b.config.set_border_width(2);
    let ops = b.draw();
    assert_eq!(
        ops,
        vec![
            DrawOp::FillRect(Rect::new(10, 20, 30, 40), Color::rgb(255, 255, 255)),
            DrawOp::DrawRect(Rect::new(10, 20, 30, 40), Color::rgb(0, 0, 0)),
            DrawOp::DrawRect(Rect::new(11, 21, 28, 38), Color::rgb(0, 0, 0)),
        ]
    );
    assert!(!b.config.invalidated);
}

#[test]
fn grid_widget_draws_lines() {
    let mut g = GridWidget::new(Point::new(0, 0), Size::new(25, 10), 10, true);
    let ops = g.draw();
    let gray = Color::rgb(192, 192, 192);
    assert_eq!(ops.len(), 1 + 3 + 1 + 1);
    assert_eq!(ops[1], DrawOp::DrawLine(0, 0, 0, 10, gray));
    assert_eq!(ops[3], DrawOp::DrawLine(20, 0, 20, 10, gray));
    assert_eq!(ops[4], DrawOp::DrawLine(0, 0, 25, 0, gray));
    assert!(!g.config.invalidated);
}

#[test]
fn grid_widget_draws_dots() {
    let mut g = GridWidget::new(Point::new(5, 5), Size::new(20, 20), 10, false);
    let ops = g.draw();
    let black = Color::rgb(0, 0, 0);
    assert_eq!(ops.len(), 1 + 4 + 1);
    assert_eq!(ops[1], DrawOp::DrawPoint(5, 5, black));
    assert_eq!(ops[2], DrawOp::DrawPoint(5, 15, black));
    assert_eq!(ops[3], DrawOp::DrawPoint(15, 5, black));
}

#[test]
fn grid_widget_setters_invalidate() {
    let mut g = GridWidget::new(Point::new(0, 0), Size::new(20, 20), 10, false);
    g.draw();
    g.set_grid_size(5);
    assert!(g.config.invalidated);
    assert_eq!(g.grid_size, 5);
    g.draw();
    g.set_grid_connections(true);
    assert!(g.config.invalidated);
    assert!(g.grid_connections);
}

#[test]
fn grid_widget_size_zero_draws_no_grid() {
    let mut g = GridWidget::new(Point::new(0, 0), Size::new(20, 20), 0, true);
    assert_eq!(g.draw().len(), 2);
}

#[test]
fn progress_is_clamped_to_100() {
    let mut p = ProgressWidget::new(0, 0, 200, 20, 250);
    assert_eq!(p.get_progress(), 100);
    p.draw();
    p.set_progress(40);
    assert_eq!(p.get_progress(), 40);
    assert!(p.config.invalidated);
    p.draw();
    p.set_progress(40);
    assert!(!p.config.invalidated);
    p.set_progress(150);
    assert_eq!(p.get_progress(), 100);
}

#[test]
fn progress_fill_width() {
    let mut p = ProgressWidget::new(10, 10, 200, 20, 25);
    p.config.set_color(ColorKind::Secondary, Color::rgb(0, 0, 255));
    let ops = p.draw();
    assert_eq!(
        ops.last(),
        Some(&DrawOp::FillRect(Rect::new(11, 11, 50, 18), Color::rgb(0, 0, 255)))
    );
}

fn dragging_slider(min: u32, max: u32, current: u32) -> SliderWidget {
    let mut s = SliderWidget::new(
        Point::new(20, 20),
        Size::new(200, 20),
        min,
        max,
        current,
        SliderOrientation::SliderHorizontal,
    );
    s.mouse_entered();
    s.button_clicked(1, 1, true);
    s
}

#[test]
fn slider_midpoint_is_half_the_range() {
    let mut s = dragging_slider(0, 100, 0);
    assert_eq!(s.mouse_moved(Point::new(100, 10)), Some(50));
    assert_eq!(s.get_value(), 50);
    assert!(s.config.invalidated);
}

#[test]
fn slider_move_clamps_to_range() {
    let mut s = dragging_slider(10, 110, 10);
    assert_eq!(s.mouse_moved(Point::new(-5, 10)), Some(10));
    assert_eq!(s.mouse_moved(Point::new(500, 10)), Some(110));
    assert_eq!(s.mouse_moved(Point::new(50, 10)), Some(35));
}

#[test]
fn slider_ignores_moves_without_drag() {
    let mut s = dragging_slider(0, 100, 7);
    s.button_clicked(1, 1, false);
    assert_eq!(s.mouse_moved(Point::new(100, 10)), None);
    assert_eq!(s.get_value(), 7);
    s.button_clicked(1, 1, true);
    s.mouse_exited();
    assert_eq!(s.mouse_moved(Point::new(100, 10)), None);
}

#[test]
fn slider_scroll_clamps_at_bounds() {
    let mut s = dragging_slider(10, 100, 50);
    assert_eq!(s.mouse_scrolled(Point::new(1000, 0)), Some(100));
    assert_eq!(s.mouse_scrolled(Point::new(-1000, 0)), Some(10));
    assert_eq!(s.mouse_scrolled(Point::new(5, 0)), Some(15));
    let mut v = SliderWidget::new(
        Point::new(0, 0),
        Size::new(20, 200),
        0,
        100,
        50,
        SliderOrientation::SliderVertical,
    );
    assert_eq!(v.mouse_scrolled(Point::new(0, 10)), Some(40));
}

#[test]
fn slider_draws_knob_at_value() {
    let mut s = SliderWidget::new(
        Point::new(0, 0),
        Size::new(200, 20),
        0,
        100,
        50,
        SliderOrientation::SliderHorizontal,
    );
    let ops = s.draw();
    assert_eq!(ops.len(), 6);
    assert_eq!(ops[4], DrawOp::FillRect(Rect::new(85, 0, 30, 20), Color::rgb(255, 255, 255)));
    assert_eq!(ops[5], DrawOp::DrawRect(Rect::new(85, 0, 30, 20), Color::rgb(0, 0, 0)));
    assert!(!s.config.invalidated);
}
