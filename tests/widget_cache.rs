use pushrod::base_widget::BaseWidget;
use pushrod::canvas::DrawOp;
use pushrod::geometry::{Point, Rect, Size};
use pushrod::slider_widget::{SliderOrientation, SliderWidget};
use pushrod::widget::Widget;
use pushrod::widget_cache::WidgetCache;

fn base(x: i32, y: i32, w: u32, h: u32) -> Widget {
    Widget::Base(BaseWidget::new(x, y, w, h))
}

fn presents(ops: &[DrawOp]) -> usize {
    ops.iter().filter(|op| matches!(op, DrawOp::Present)).count()
}

fn slider_at(x: i32, y: i32) -> Widget {
    Widget::Slider(SliderWidget::new(
        Point::new(x, y),
        Size::new(200, 20),
        0,
        100,
        0,
        SliderOrientation::SliderHorizontal,
    ))
}

#[test]
fn add_widget_assigns_dense_ids_from_zero() {
    let mut cache = WidgetCache::new();
    for expected in 0..5 {
        let id = cache.add_widget(base(0, 0, 10, 10), format!("w{}", expected));
        assert_eq!(id, expected);
    }
    for i in 0..5 {
        assert_eq!(cache.cache[i].get_widget_id(), i as i32);
        assert_eq!(cache.cache[i].get_parent_id(), 0);
    }
}

#[test]
fn add_widget_records_origin_and_parent() {
    let mut cache = WidgetCache::new();
    cache.add_widget(base(0, 0, 400, 300), String::from("root"));
    let panel = cache.add_widget(base(10, 20, 100, 100), String::from("panel"));
    let child = cache.add_widget_to_parent(base(15, 25, 10, 10), String::from("child"), panel);
    assert_eq!(child, 2);
    assert_eq!(cache.cache[2].get_parent_id(), 1);
    assert_eq!(cache.cache[1].origin, Point::new(10, 20));
    assert_eq!(cache.cache[2].get_widget_name(), "child");
}

#[test]
fn find_widget_returns_topmost_visible_hit() {
    let mut cache = WidgetCache::new();
    cache.add_widget(base(0, 0, 400, 300), String::from("root"));
    cache.add_widget(base(10, 10, 100, 100), String::from("a"));
    cache.add_widget(base(50, 50, 100, 100), String::from("b"));
    assert_eq!(cache.find_widget(60, 60), 2);
    assert_eq!(cache.find_widget(20, 20), 1);
    // The far edge is inside.
    assert_eq!(cache.find_widget(150, 150), 2);
    assert_eq!(cache.find_widget(151, 151), 0);
    assert_eq!(cache.find_widget(-5, -5), 0);
}

#[test]
fn find_widget_skips_hidden_widgets() {
    let mut cache = WidgetCache::new();
    cache.add_widget(base(0, 0, 400, 300), String::from("root"));
    cache.add_widget(base(10, 10, 100, 100), String::from("a"));
    let mut hidden = base(50, 50, 100, 100);
    hidden.set_hidden(true);
    cache.add_widget(hidden, String::from("b"));
    assert_eq!(cache.find_widget(60, 60), 1);
    assert_eq!(cache.find_widget(140, 140), 0);
}

#[test]
fn container_by_name_falls_back_to_root() {
    let mut cache = WidgetCache::new();
    cache.add_widget(base(0, 0, 400, 300), String::from("root"));
    cache.add_widget(base(10, 10, 100, 100), String::from("a"));
    cache.add_widget(base(20, 20, 100, 100), String::from("a"));
    assert_eq!(cache.find_widget_by_name(&String::from("a")), 1);
    assert_eq!(cache.find_widget_by_name(&String::from("zzz")), 0);
    assert_eq!(cache.get_container_by_name(String::from("zzz")).get_widget_id(), 0);
    cache.get_container_by_id(2).widget.set_origin(5, 6);
    assert_eq!(cache.cache[2].widget.get_origin(), Point::new(5, 6));
}

#[test]
fn disabled_widget_receives_no_input() {
    let mut cache = WidgetCache::new();
    cache.add_widget(base(0, 0, 400, 300), String::from("root"));
    let mut slider = slider_at(0, 0);
    slider.set_enabled(false);
    let id = cache.add_widget(slider, String::from("slider"));
    cache.mouse_entered(id);
    cache.button_clicked(id, 1, 1, true);
    assert_eq!(cache.mouse_moved(id, Point::new(100, 5)), None);
    assert_eq!(cache.mouse_scrolled(id, Point::new(30, 0)), None);
    match &cache.cache[id as usize].widget {
        Widget::Slider(s) => {
            assert!(!s.in_bounds);
            assert!(!s.active);
            assert_eq!(s.current, 0);
        }
        _ => panic!("not a slider"),
    }
}

#[test]
fn hidden_widget_receives_no_input() {
    let mut cache = WidgetCache::new();
    cache.add_widget(base(0, 0, 400, 300), String::from("root"));
    let mut slider = slider_at(0, 0);
    slider.set_hidden(true);
    let id = cache.add_widget(slider, String::from("slider"));
    assert_eq!(cache.mouse_scrolled(id, Point::new(30, 0)), None);
}

#[test]
fn enabled_slider_receives_input() {
    let mut cache = WidgetCache::new();
    cache.add_widget(base(0, 0, 400, 300), String::from("root"));
    let id = cache.add_widget(slider_at(0, 0), String::from("slider"));
    cache.mouse_entered(id);
    cache.button_clicked(id, 1, 1, true);
    assert_eq!(cache.mouse_moved(id, Point::new(100, 5)), Some(50));
    assert_eq!(cache.mouse_scrolled(id, Point::new(30, 0)), Some(80));
}

#[test]
fn draw_loop_twice_presents_once() {
    let mut cache = WidgetCache::new();
    cache.add_widget(base(0, 0, 400, 300), String::from("root"));
    cache.add_widget(base(10, 10, 100, 100), String::from("a"));
    let first = cache.draw_loop();
    assert_eq!(presents(&first), 1);
    assert_eq!(first.last(), Some(&DrawOp::Present));
    for c in &cache.cache {
        assert!(!c.widget.is_invalidated());
    }
    let second = cache.draw_loop();
    assert_eq!(presents(&second), 0);
    assert!(second.is_empty());
}

#[test]
fn draw_loop_clips_paints_and_dims() {
    let mut cache = WidgetCache::new();
    cache.add_widget(base(0, 0, 400, 300), String::from("root"));
    let mut w = base(10, 10, 100, 50);
    w.set_enabled(false);
    cache.add_widget(w, String::from("a"));
    let ops = cache.draw_loop();
    let area = Rect::new(10, 10, 100, 50);
    let top = Rect::new(0, 0, 400, 300);
    assert!(ops.contains(&DrawOp::SetClip(area)));
    assert!(ops.contains(&DrawOp::FillRect(area, pushrod::geometry::Color::rgb(255, 255, 255))));
    assert!(ops.contains(&DrawOp::SetClip(top)));
    assert!(ops.contains(&DrawOp::DrawRect(area, pushrod::geometry::Color::rgba(0, 0, 0, 128))));
    assert_eq!(presents(&ops), 1);
}

#[test]
fn hidden_invalidated_widget_is_not_painted() {
    let mut cache = WidgetCache::new();
    cache.add_widget(base(0, 0, 400, 300), String::from("root"));
    cache.draw_loop();
    let mut w = base(10, 10, 100, 50);
    w.set_hidden(true);
    cache.add_widget(w, String::from("a"));
    let ops = cache.draw_loop();
    assert_eq!(presents(&ops), 0);
    assert!(cache.cache[1].widget.is_invalidated());
}

#[test]
fn draw_loop_reaches_nested_children() {
    let mut cache = WidgetCache::new();
    cache.add_widget(base(0, 0, 400, 300), String::from("root"));
    let panel = cache.add_widget(base(10, 10, 200, 200), String::from("panel"));
    let child = cache.add_widget_to_parent(base(20, 20, 50, 50), String::from("child"), panel);
    cache.draw_loop();
    cache.cache[child as usize].widget.set_size(60, 60);
    let ops = cache.draw_loop();
    assert_eq!(presents(&ops), 1);
    assert!(ops.contains(&DrawOp::SetClip(Rect::new(20, 20, 60, 60))));
    assert!(!cache.cache[child as usize].widget.is_invalidated());
}

#[test]
fn empty_registry_draws_nothing() {
    let mut cache = WidgetCache::new();
    assert_eq!(cache.len(), 0);
    assert!(cache.draw_loop().is_empty());
    cache.tick();
    assert_eq!(cache.len(), 0);
}

#[test]
fn draw_loop_orders_children_and_restores_clip() {
    let mut cache = WidgetCache::new();
    cache.add_widget(base(0, 0, 400, 300), String::from("root"));
    cache.add_widget(base(10, 10, 20, 20), String::from("a"));
    let ops = cache.draw_loop();
    let white = pushrod::geometry::Color::rgb(255, 255, 255);
    let root = Rect::new(0, 0, 400, 300);
    let a = Rect::new(10, 10, 20, 20);
    assert_eq!(
        ops,
        vec![
            DrawOp::SetClip(root),
            DrawOp::FillRect(root, white),
            DrawOp::SetClip(root),
            DrawOp::SetClip(a),
            DrawOp::FillRect(a, white),
            DrawOp::SetClip(root),
            DrawOp::Present,
        ]
    );
}
