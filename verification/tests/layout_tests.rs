use pushrod::engine::horizontal_layout_manager::{HorizontalLayoutManager, DEFAULT_GUTTER};
use pushrod::engine::layout_manager::{copy_ids, named_before, LayoutManager, Placement};
use pushrod::engine::point::{Point, Size};
use pushrod::engine::widget_store::WidgetStore;
use pushrod::widget::config::{Config, CONFIG_BODY_SIZE};
use pushrod::widget::drawable::TextJustify;
use pushrod::widget::push_button_widget::PushButtonWidget;
use pushrod::widget::widget::{CanvasWidget, Widget};

fn sized(w: i32, h: i32) -> CanvasWidget {
    let mut widget = CanvasWidget::new();
    widget.set_size(w, h);
    widget
}

/// A container 200 wide and 40 high, and `count` children of it, each 50 wide and 60 high.
fn row(count: i32) -> WidgetStore<CanvasWidget> {
    let mut store = WidgetStore::new();
    store.add_widget(sized(200, 40));
    for _ in 0..count {
        store.add_widget_to_parent(sized(50, 60), 0).unwrap();
    }
    store.redraw();
    store
}

fn geometry(store: &WidgetStore<CanvasWidget>, id: i32) -> (i32, i32, i32, i32) {
    let widget = store.get_widget(id).unwrap();
    let origin = widget.get_origin();
    let size = widget.get_size();
    (origin.x, origin.y, size.w, size.h)
}

fn place(x: i32, w: i32, h: i32) -> Placement {
    Placement { origin: Point { x, y: 0 }, size: Size { w, h } }
}

#[test]
fn a_new_manager_knows_its_container_and_the_usual_gutter() {
    let manager = HorizontalLayoutManager::new(17);
    assert_eq!(manager.get_widget_id(), 17);
    assert_eq!(manager.get_gutter(), 5);
    assert_eq!(DEFAULT_GUTTER, 5);
}

#[test]
fn the_gutter_can_be_set() {
    let mut manager = HorizontalLayoutManager::new(3);
    manager.set_gutter(12);
    assert_eq!(manager.get_gutter(), 12);
    assert_eq!(manager.get_widget_id(), 3);
}

#[test]
fn three_children_go_side_by_side() {
    let mut store = row(3);
    let mut manager = HorizontalLayoutManager::new(0);
    manager.do_layout(vec![1, 2, 3], vec![Point { x: 0, y: 0 }; 3], &mut store);
    assert_eq!(geometry(&store, 1), (0, 0, 50, 40));
    assert_eq!(geometry(&store, 2), (55, 0, 50, 40));
    assert_eq!(geometry(&store, 3), (110, 0, 50, 40));
    assert_eq!(geometry(&store, 0), (0, 0, 200, 40));
}

#[test]
fn a_child_that_does_not_fit_is_cut_off_and_not_wrapped() {
    let mut store = row(5);
    let mut manager = HorizontalLayoutManager::new(0);
    manager.do_layout(vec![1, 2, 3, 4, 5], vec![], &mut store);
    assert_eq!(geometry(&store, 3), (110, 0, 50, 40));
    assert_eq!(geometry(&store, 4), (165, 0, 35, 40));
    assert_eq!(geometry(&store, 5), (205, 0, 0, 40));
}

#[test]
fn laying_out_marks_the_children_and_only_them() {
    let mut store = row(2);
    let mut manager = HorizontalLayoutManager::new(0);
    manager.do_layout(vec![1, 2], vec![], &mut store);
    assert!(!store.get_widget(0).unwrap().is_invalidated());
    assert!(store.get_widget(1).unwrap().is_invalidated());
    assert!(store.get_widget(2).unwrap().is_invalidated());
    assert_eq!(store.traverse_draw_order(), vec![0, 1, 2]);
}

#[test]
fn laying_out_twice_changes_nothing() {
    let mut store = row(5);
    let mut manager = HorizontalLayoutManager::new(0);
    manager.do_layout(vec![1, 2, 3, 4, 5], vec![], &mut store);
    let once: Vec<_> = (0..6).map(|id| geometry(&store, id)).collect();
    manager.do_layout(vec![1, 2, 3, 4, 5], vec![], &mut store);
    let twice: Vec<_> = (0..6).map(|id| geometry(&store, id)).collect();
    assert_eq!(once, twice);
}

#[test]
fn the_gutter_lies_between_the_children() {
    let mut store = row(3);
    let mut manager = HorizontalLayoutManager::new(0);
    manager.set_gutter(0);
    manager.do_layout(vec![1, 2, 3], vec![], &mut store);
    assert_eq!(geometry(&store, 2), (50, 0, 50, 40));
    assert_eq!(geometry(&store, 3), (100, 0, 50, 40));
    manager.set_gutter(20);
    manager.do_layout(vec![1, 2, 3], vec![], &mut store);
    assert_eq!(geometry(&store, 2), (70, 0, 50, 40));
    assert_eq!(geometry(&store, 3), (140, 0, 50, 40));
}

#[test]
fn the_children_go_in_the_order_they_are_named() {
    let mut store = row(3);
    let mut manager = HorizontalLayoutManager::new(0);
    manager.do_layout(vec![3, 1], vec![], &mut store);
    assert_eq!(geometry(&store, 3), (0, 0, 50, 40));
    assert_eq!(geometry(&store, 1), (55, 0, 50, 40));
    assert_eq!(geometry(&store, 2), (0, 0, 50, 60));
}

#[test]
fn an_unknown_child_is_passed_over() {
    let mut store = row(2);
    let mut manager = HorizontalLayoutManager::new(0);
    manager.do_layout(vec![1, 9, 2], vec![], &mut store);
    assert_eq!(geometry(&store, 1), (0, 0, 50, 40));
    assert_eq!(geometry(&store, 2), (60, 0, 50, 40));
    assert_eq!(store.len(), 3);
}

#[test]
fn a_child_named_twice_goes_where_it_is_named_first() {
    let mut store = row(2);
    let mut manager = HorizontalLayoutManager::new(0);
    manager.do_layout(vec![1, 2, 1], vec![], &mut store);
    assert_eq!(geometry(&store, 1), (0, 0, 50, 40));
    assert_eq!(geometry(&store, 2), (55, 0, 50, 40));
}

#[test]
fn a_removed_child_is_passed_over() {
    let mut store = row(3);
    store.remove_widget(2).unwrap();
    let mut manager = HorizontalLayoutManager::new(0);
    manager.do_layout(vec![1, 2, 3], vec![], &mut store);
    assert_eq!(geometry(&store, 1), (0, 0, 50, 40));
    assert_eq!(geometry(&store, 3), (60, 0, 50, 40));
    assert_eq!(store.widgets()[2].widget.get_size(), Size { w: 50, h: 60 });
}

#[test]
fn an_unknown_container_lays_nothing_out() {
    let mut store = row(2);
    let mut manager = HorizontalLayoutManager::new(7);
    manager.do_layout(vec![1, 2], vec![], &mut store);
    assert_eq!(geometry(&store, 1), (0, 0, 50, 60));
    assert_eq!(geometry(&store, 2), (0, 0, 50, 60));
    assert!(!store.get_widget(1).unwrap().is_invalidated());
}

#[test]
fn resize_computes_the_row_for_another_extent() {
    let store = row(3);
    let mut manager = HorizontalLayoutManager::new(0);
    let placed = manager.resize(Size { w: 100, h: 20 }, vec![1, 2, 3], vec![], &store);
    assert_eq!(placed, vec![place(0, 50, 20), place(55, 45, 20), place(105, 0, 20)]);
    assert_eq!(geometry(&store, 2), (0, 0, 50, 60));
}

#[test]
fn resize_with_no_children_places_nothing() {
    let store = row(0);
    let mut manager = HorizontalLayoutManager::new(0);
    assert_eq!(manager.resize(Size { w: 100, h: 20 }, vec![], vec![], &store), vec![]);
}

#[test]
fn a_container_without_room_leaves_nothing_of_its_children() {
    let store = row(2);
    let mut manager = HorizontalLayoutManager::new(0);
    let placed = manager.resize(Size { w: -10, h: 0 }, vec![1, 2], vec![], &store);
    assert_eq!(placed, vec![place(0, 0, 0), place(5, 0, 0)]);
}

#[test]
fn children_with_negative_extent_count_as_empty() {
    let mut store = WidgetStore::new();
    store.add_widget(sized(200, 40));
    store.add_widget_to_parent(sized(-30, -5), 0).unwrap();
    store.add_widget_to_parent(sized(10, 10), 0).unwrap();
    let mut manager = HorizontalLayoutManager::new(0);
    let placed = manager.resize(Size { w: 200, h: 40 }, vec![1, 2], vec![], &store);
    assert_eq!(placed, vec![place(0, 0, 0), place(5, 10, 10)]);
}

#[test]
fn starts_stop_at_the_largest_coordinate() {
    let mut store = WidgetStore::new();
    store.add_widget(sized(i32::MAX, 40));
    store.add_widget_to_parent(sized(i32::MAX, 10), 0).unwrap();
    store.add_widget_to_parent(sized(10, 10), 0).unwrap();
    store.add_widget_to_parent(sized(10, 10), 0).unwrap();
    let mut manager = HorizontalLayoutManager::new(0);
    manager.set_gutter(u16::MAX);
    let placed = manager.resize(Size { w: i32::MAX, h: 40 }, vec![1, 2, 3], vec![], &store);
    assert_eq!(
        placed,
        vec![place(0, i32::MAX, 10), place(i32::MAX, 0, 10), place(i32::MAX, 0, 10)]
    );
}

#[test]
fn laying_out_a_push_button_sizes_its_parts() {
    let mut store: WidgetStore<PushButtonWidget> = WidgetStore::new();
    let mut container =
        PushButtonWidget::new("arial".to_string(), "".to_string(), 12, TextJustify::Left);
    container.set_config(CONFIG_BODY_SIZE, Config::Size(Size { w: 200, h: 40 }));
    store.add_widget(container);
    let mut child =
        PushButtonWidget::new("arial".to_string(), "OK".to_string(), 12, TextJustify::Left);
    child.set_config(CONFIG_BODY_SIZE, Config::Size(Size { w: 50, h: 60 }));
    store.add_widget_to_parent(child, 0).unwrap();
    let mut manager = HorizontalLayoutManager::new(0);
    manager.do_layout(vec![1], vec![], &mut store);
    let child = store.get_widget(1).unwrap();
    assert_eq!(child.get_size(), Size { w: 50, h: 40 });
    assert_eq!(child.base_widget().config().get_size(CONFIG_BODY_SIZE), Size { w: 50, h: 40 });
    assert_eq!(child.text_widget().config().get_size(CONFIG_BODY_SIZE), Size { w: 50, h: 40 });
    assert!(child.is_invalidated());
}

#[test]
fn an_id_is_named_before_where_it_stands_earlier_too() {
    let ids = vec![3, 1, 3, 2, 1];
    assert!(!named_before(&ids, 0));
    assert!(!named_before(&ids, 1));
    assert!(named_before(&ids, 2));
    assert!(!named_before(&ids, 3));
    assert!(named_before(&ids, 4));
}

#[test]
fn a_copy_of_ids_holds_the_same_ids() {
    assert_eq!(copy_ids(&vec![3, 1, 2]), vec![3, 1, 2]);
    assert_eq!(copy_ids(&vec![]), Vec::<i32>::new());
}
