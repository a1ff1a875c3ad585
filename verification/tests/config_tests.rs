use pushrod::engine::callbacks::{CallbackStore, CallbackTypes, CALLBACK_CLICKED};
use pushrod::engine::point::{point_in_bounds, Point, Size};
use pushrod::widget::config::{
    Color, Config, Configurable, CONFIG_BODY_SIZE, CONFIG_INVALIDATE, CONFIG_MAIN_COLOR,
    CONFIG_ORIGIN, CONFIG_TEXT_COLOR, CONFIG_WIDGET_HIDDEN,
};

#[test]
fn empty_settings_hold_nothing() {
    let config = Configurable::new();
    assert_eq!(config.get(CONFIG_ORIGIN), None);
    assert!(!config.contains(CONFIG_INVALIDATE));
}

#[test]
fn set_then_get_returns_the_value() {
    let mut config = Configurable::new();
    config.set(CONFIG_ORIGIN, Config::Point(Point { x: 3, y: -4 }));
    assert_eq!(config.get(CONFIG_ORIGIN), Some(Config::Point(Point { x: 3, y: -4 })));
    assert!(config.contains(CONFIG_ORIGIN));
    assert_eq!(config.get(CONFIG_BODY_SIZE), None);
}

#[test]
fn set_overwrites_the_value_before() {
    let mut config = Configurable::new();
    config.set(CONFIG_BODY_SIZE, Config::Size(Size { w: 1, h: 2 }));
    config.set(CONFIG_BODY_SIZE, Config::Size(Size { w: 7, h: 8 }));
    assert_eq!(config.get(CONFIG_BODY_SIZE), Some(Config::Size(Size { w: 7, h: 8 })));
}

#[test]
fn remove_takes_the_key_away() {
    let mut config = Configurable::new();
    config.set(CONFIG_INVALIDATE, Config::Toggle(true));
    assert!(config.contains(CONFIG_INVALIDATE));
    config.remove(CONFIG_INVALIDATE);
    assert!(!config.contains(CONFIG_INVALIDATE));
    config.remove(CONFIG_INVALIDATE);
    assert!(!config.contains(CONFIG_INVALIDATE));
}

#[test]
fn setting_one_key_leaves_the_others() {
    let mut config = Configurable::new();
    config.set_point(CONFIG_ORIGIN, 1, 2);
    config.set_size(CONFIG_BODY_SIZE, 3, 4);
    config.remove(CONFIG_BODY_SIZE);
    assert_eq!(config.get_point(CONFIG_ORIGIN), Point { x: 1, y: 2 });
}

#[test]
fn typed_getters_fall_back_on_the_defaults() {
    let config = Configurable::new();
    assert_eq!(config.get_point(CONFIG_ORIGIN), Point { x: 0, y: 0 });
    assert_eq!(config.get_size(CONFIG_BODY_SIZE), Size { w: 0, h: 0 });
    assert_eq!(config.get_color(CONFIG_MAIN_COLOR), Color { r: 255, g: 255, b: 255, a: 255 });
    assert!(!config.get_toggle(CONFIG_WIDGET_HIDDEN));
}

#[test]
fn typed_getters_fall_back_on_a_value_of_another_type() {
    let mut config = Configurable::new();
    config.set_toggle(CONFIG_ORIGIN, true);
    config.set_point(CONFIG_BODY_SIZE, 5, 5);
    config.set_size(CONFIG_MAIN_COLOR, 5, 5);
    config.set_color(CONFIG_WIDGET_HIDDEN, Color { r: 1, g: 2, b: 3, a: 4 });
    assert_eq!(config.get_point(CONFIG_ORIGIN), Point { x: 0, y: 0 });
    assert_eq!(config.get_size(CONFIG_BODY_SIZE), Size { w: 0, h: 0 });
    assert_eq!(config.get_color(CONFIG_MAIN_COLOR), Color { r: 255, g: 255, b: 255, a: 255 });
    assert!(!config.get_toggle(CONFIG_WIDGET_HIDDEN));
}

#[test]
fn typed_setters_store_typed_values() {
    let mut config = Configurable::new();
    config.set_point(CONFIG_ORIGIN, 9, 8);
    config.set_size(CONFIG_BODY_SIZE, 7, 6);
    config.set_color(CONFIG_TEXT_COLOR, Color { r: 1, g: 2, b: 3, a: 4 });
    config.set_toggle(CONFIG_WIDGET_HIDDEN, true);
    assert_eq!(config.get(CONFIG_ORIGIN), Some(Config::Point(Point { x: 9, y: 8 })));
    assert_eq!(config.get(CONFIG_BODY_SIZE), Some(Config::Size(Size { w: 7, h: 6 })));
    assert_eq!(config.get_color(CONFIG_TEXT_COLOR), Color { r: 1, g: 2, b: 3, a: 4 });
    assert!(config.get_toggle(CONFIG_WIDGET_HIDDEN));
}

#[test]
fn bounds_hold_their_left_and_top_edges_only() {
    let origin = Point { x: 10, y: 20 };
    let size = Size { w: 5, h: 6 };
    assert!(point_in_bounds(origin, size, 10, 20));
    assert!(point_in_bounds(origin, size, 14, 25));
    assert!(!point_in_bounds(origin, size, 15, 20));
    assert!(!point_in_bounds(origin, size, 10, 26));
    assert!(!point_in_bounds(origin, size, 9, 20));
    assert!(!point_in_bounds(origin, size, 10, 19));
}

#[test]
fn bounds_without_extent_hold_nothing() {
    assert!(!point_in_bounds(Point { x: 0, y: 0 }, Size { w: 0, h: 0 }, 0, 0));
    assert!(!point_in_bounds(Point { x: 0, y: 0 }, Size { w: -5, h: 5 }, -1, 0));
}

#[test]
fn bounds_at_the_edge_of_the_coordinates_do_not_overflow() {
    let origin = Point { x: i32::MAX, y: i32::MAX };
    let size = Size { w: i32::MAX, h: i32::MAX };
    assert!(point_in_bounds(origin, size, i32::MAX as i64 + 5, i32::MAX as i64 + 5));
    assert!(!point_in_bounds(origin, size, 0, 0));
}

#[test]
fn registering_a_handler_replaces_the_one_before() {
    let mut callbacks = CallbackStore::new();
    assert_eq!(callbacks.get(CALLBACK_CLICKED), None);
    callbacks.put(CALLBACK_CLICKED, CallbackTypes::SingleCallback { callback: 1 });
    callbacks.put(CALLBACK_CLICKED, CallbackTypes::SingleCallback { callback: 2 });
    assert_eq!(
        callbacks.get(CALLBACK_CLICKED),
        Some(CallbackTypes::SingleCallback { callback: 2 })
    );
    callbacks.remove(CALLBACK_CLICKED);
    assert_eq!(callbacks.get(CALLBACK_CLICKED), None);
}
