use pushrod::base_widget::BaseWidget;
use pushrod::engine::{Engine, Layout};
use pushrod::geometry::{Point, Size};
use pushrod::layout::{GridLayout, HorizontalLayoutManager, LayoutPosition, PaddingConstraint};
use pushrod::slider_widget::{SliderOrientation, SliderWidget};
use pushrod::widget::Widget;
use pushrod::widget_cache::WidgetCache;

fn base(x: i32, y: i32, w: u32, h: u32) -> Widget {
    Widget::Base(BaseWidget::new(x, y, w, h))
}

#[test]
fn horizontal_layout_two_widgets() {
    let mut cache = WidgetCache::new();
    cache.add_widget(base(0, 0, 400, 180), String::from("root"));
    let container = cache.add_widget(base(20, 20, 360, 80), String::from("box"));
    let a = cache.add_widget(base(0, 0, 0, 0), String::from("a"));
    let b = cache.add_widget(base(0, 0, 0, 0), String::from("b"));
    let mut layout = HorizontalLayoutManager::new(container);
    layout.insert_widget(a, LayoutPosition::new(0, 0));
    layout.insert_widget(b, LayoutPosition::new(1, 0));
    assert!(layout.needs_layout());
    layout.do_layout(&mut cache);
    assert!(!layout.needs_layout());
    assert_eq!(cache.cache[a as usize].widget.get_origin(), Point::new(20, 20));
    assert_eq!(cache.cache[a as usize].widget.get_size(), Size::new(180, 80));
    assert_eq!(cache.cache[b as usize].widget.get_origin(), Point::new(200, 20));
    assert_eq!(cache.cache[b as usize].widget.get_size(), Size::new(180, 80));
    assert!(cache.cache[b as usize].widget.is_invalidated());
}

#[test]
fn horizontal_layout_offsets_accumulate() {
    let mut cache = WidgetCache::new();
    cache.add_widget(base(0, 0, 300, 100), String::from("root"));
    for name in ["a", "b", "c"] {
        cache.add_widget(base(0, 0, 0, 0), String::from(name));
    }
    let mut layout = HorizontalLayoutManager::new(0);
    layout.set_padding(PaddingConstraint::new(0, 10, 0, 0, 0));
    layout.append_widget(1);
    layout.append_widget(2);
    layout.append_widget(3);
    assert_eq!(layout.widget_positions[2], LayoutPosition::new(0, 2));
    layout.do_layout(&mut cache);
    assert_eq!(cache.cache[1].widget.get_origin(), Point::new(0, 0));
    assert_eq!(cache.cache[2].widget.get_origin(), Point::new(100, 0));
    assert_eq!(cache.cache[3].widget.get_origin(), Point::new(300, 0));
    assert_eq!(cache.cache[3].widget.get_size(), Size::new(100, 90));
}

#[test]
fn grid_layout_defers_below_two_widgets() {
    let mut cache = WidgetCache::new();
    cache.add_widget(base(0, 0, 300, 100), String::from("root"));
    cache.add_widget(base(1, 2, 3, 4), String::from("a"));
    cache.draw_loop();
    let mut grid = GridLayout::new(0, 0, 300, 300, vec![2, 2], PaddingConstraint::new(0, 0, 0, 0, 0));
    assert!(!grid.needs_layout());
    grid.do_layout(&mut cache);
    assert!(!grid.needs_layout());
    grid.insert_widget(1, LayoutPosition::new(0, 0));
    assert!(grid.needs_layout());
    grid.do_layout(&mut cache);
    assert!(grid.needs_layout());
    assert_eq!(cache.cache[1].widget.get_origin(), Point::new(1, 2));
    assert!(!cache.cache[1].widget.is_invalidated());
}

#[test]
fn grid_layout_places_cells() {
    let mut cache = WidgetCache::new();
    cache.add_widget(base(0, 0, 300, 300), String::from("root"));
    cache.add_widget(base(0, 0, 0, 0), String::from("a"));
    cache.add_widget(base(0, 0, 0, 0), String::from("b"));
    let padding = PaddingConstraint::new(2, 3, 4, 5, 6);
    let mut grid = GridLayout::new(10, 10, 200, 100, vec![], padding);
    assert_eq!(grid.get_padding(), padding);
    grid.insert_widget(1, LayoutPosition::new(0, 0));
    grid.append_widget(2);
    grid.do_layout(&mut cache);
    assert!(!grid.needs_layout());
    // Cells of 100 by 50; spacing 6 gives 3 on each inner side.
    assert_eq!(cache.cache[1].widget.get_origin(), Point::new(14, 14));
    assert_eq!(cache.cache[1].widget.get_size(), Size::new(93, 45));
    assert_eq!(cache.cache[2].widget.get_origin(), Point::new(113, 65));
    assert_eq!(cache.cache[2].widget.get_size(), Size::new(92, 44));
}

#[test]
fn engine_runs_dirty_layouts_then_draws() {
    let mut engine = Engine::new(400, 180);
    let box_id = engine.add_widget(base(20, 20, 360, 80), String::from("box"));
    let a = engine.add_widget(base(0, 0, 0, 0), String::from("a"));
    let b = engine.add_widget(base(0, 0, 0, 0), String::from("b"));
    let index = engine.add_layout(Layout::Horizontal(HorizontalLayoutManager::new(box_id)));
    engine.assign_widget_to_layout(index, a, Some(LayoutPosition::new(0, 0)));
    engine.assign_widget_to_layout(index, b, None);
    let ops = engine.frame();
    assert_eq!(ops.last(), Some(&pushrod::canvas::DrawOp::Present));
    assert!(!engine.layouts[index].needs_layout());
    assert_eq!(engine.widgets.cache[b as usize].widget.get_origin(), Point::new(200, 20));
    assert!(engine.frame().is_empty());
}

#[test]
fn engine_routes_pointer_to_widget_under_it() {
    let mut engine = Engine::new(400, 180);
    let slider = Widget::Slider(SliderWidget::new(
        Point::new(100, 50),
        Size::new(200, 20),
        0,
        100,
        0,
        SliderOrientation::SliderHorizontal,
    ));
    let id = engine.add_widget(slider, String::from("slider"));
    assert_eq!(engine.mouse_moved(150, 60), None);
    assert_eq!(engine.current_widget_id, id);
    engine.button_clicked(1, 1, true);
    assert_eq!(engine.mouse_moved(200, 60), Some((id, 50)));
    assert_eq!(engine.mouse_scrolled(10, 0), Some((id, 60)));
    assert_eq!(engine.mouse_moved(5, 5), None);
    assert_eq!(engine.current_widget_id, 0);
}
