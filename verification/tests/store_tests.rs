use pushrod::engine::point::{Point, Size};
use pushrod::engine::widget_store::{DrawRequest, WidgetStore, WidgetStoreError};
use pushrod::widget::config::{Color, Config, CONFIG_WIDGET_HIDDEN};
use pushrod::widget::drawable::DrawCommand;
use pushrod::widget::widget::{CanvasWidget, Widget};

const WHITE: Color = Color { r: 255, g: 255, b: 255, a: 255 };

fn canvas(x: i32, y: i32, w: i32, h: i32) -> CanvasWidget {
    let mut widget = CanvasWidget::new();
    widget.set_origin(x, y);
    widget.set_size(w, h);
    widget
}

/// Two roots, 0 and 4. Within 0 lie 1 and 2, within 1 lies 3.
fn sample() -> WidgetStore<CanvasWidget> {
    let mut store = WidgetStore::new();
    assert_eq!(store.add_widget(canvas(10, 10, 100, 100)), 0);
    assert_eq!(store.add_widget_to_parent(canvas(5, 5, 20, 20), 0), Ok(1));
    assert_eq!(store.add_widget_to_parent(canvas(10, 10, 30, 30), 0), Ok(2));
    assert_eq!(store.add_widget_to_parent(canvas(2, 2, 5, 5), 1), Ok(3));
    assert_eq!(store.add_widget(canvas(0, 0, 18, 18)), 4);
    store
}

fn fill(w: i32, h: i32) -> Vec<DrawCommand> {
    vec![DrawCommand::Rectangle {
        origin: Point { x: 0, y: 0 },
        size: Size { w, h },
        color: WHITE,
    }]
}

#[test]
fn a_new_store_is_empty() {
    let store: WidgetStore<CanvasWidget> = WidgetStore::new();
    assert_eq!(store.len(), 0);
    assert_eq!(store.traverse_draw_order(), Vec::<i32>::new());
    assert_eq!(store.widget_ids_at_point(Point { x: 0, y: 0 }), Vec::<i32>::new());
}

#[test]
fn ids_are_given_in_the_order_of_insertion() {
    let mut store = WidgetStore::new();
    assert_eq!(store.add_widget(CanvasWidget::new()), 0);
    assert_eq!(store.add_widget(CanvasWidget::new()), 1);
    assert_eq!(store.add_widget_to_parent(CanvasWidget::new(), 0), Ok(2));
    assert_eq!(store.add_widget(CanvasWidget::new()), 3);
    assert_eq!(store.len(), 4);
}

#[test]
fn a_widget_is_told_its_id() {
    let store = sample();
    for id in 0..5 {
        assert_eq!(store.get_widget(id).map(|w| w.get_widget_id()), Ok(id));
        assert_eq!(store.widgets()[id as usize].widget_id, id);
    }
}

#[test]
fn an_unknown_parent_is_refused_and_nothing_changes() {
    let mut store = sample();
    assert_eq!(
        store.add_widget_to_parent(CanvasWidget::new(), 5),
        Err(WidgetStoreError::InvalidParent)
    );
    assert_eq!(
        store.add_widget_to_parent(CanvasWidget::new(), -1),
        Err(WidgetStoreError::InvalidParent)
    );
    assert_eq!(store.len(), 5);
    assert_eq!(store.traverse_draw_order(), vec![0, 1, 3, 2, 4]);
}

#[test]
fn an_unknown_id_is_not_found() {
    let mut store = sample();
    assert!(matches!(store.get_widget(5), Err(WidgetStoreError::NotFound)));
    assert!(matches!(store.get_widget(-1), Err(WidgetStoreError::NotFound)));
    assert!(matches!(store.get_widget_mut(5), Err(WidgetStoreError::NotFound)));
    assert!(matches!(store.get_widget_mut(i32::MIN), Err(WidgetStoreError::NotFound)));
    assert!(store.get_widget(4).is_ok());
}

#[test]
fn a_widget_can_be_changed_in_place() {
    let mut store = sample();
    store.get_widget_mut(2).unwrap().set_size(7, 8);
    assert_eq!(store.get_widget(2).unwrap().get_size(), Size { w: 7, h: 8 });
    assert_eq!(store.get_widget(1).unwrap().get_size(), Size { w: 20, h: 20 });
    assert_eq!(store.widgets()[2].parent_id, Some(0));
}

#[test]
fn every_child_is_listed_by_its_parent_once_and_by_nobody_else() {
    let store = sample();
    let records = store.widgets();
    assert_eq!(records[0].children, vec![1, 2]);
    assert_eq!(records[1].children, vec![3]);
    assert!(records[2].children.is_empty());
    assert!(records[3].children.is_empty());
    assert!(records[4].children.is_empty());
    assert_eq!(records[0].parent_id, None);
    assert_eq!(records[1].parent_id, Some(0));
    assert_eq!(records[2].parent_id, Some(0));
    assert_eq!(records[3].parent_id, Some(1));
    assert_eq!(records[4].parent_id, None);
    for child in 0..5i32 {
        let listed: usize = records
            .iter()
            .map(|r| r.children.iter().filter(|c| **c == child).count())
            .sum();
        let expected = if records[child as usize].parent_id.is_some() { 1 } else { 0 };
        assert_eq!(listed, expected);
    }
}

#[test]
fn every_parent_has_a_smaller_id_than_its_child() {
    let store = sample();
    for record in store.widgets() {
        if let Some(parent) = record.parent_id {
            assert!(parent < record.widget_id);
        }
    }
}

#[test]
fn drawing_goes_parent_first_and_siblings_as_inserted() {
    let store = sample();
    assert_eq!(store.traverse_draw_order(), vec![0, 1, 3, 2, 4]);
    assert_eq!(store.traverse_draw_order(), vec![0, 1, 3, 2, 4]);
}

#[test]
fn hits_come_topmost_first() {
    let store = sample();
    assert_eq!(store.widget_ids_at_point(Point { x: 17, y: 17 }), vec![4, 3, 1, 0]);
    assert_eq!(store.widget_ids_at_point(Point { x: 25, y: 25 }), vec![2, 1, 0]);
    assert_eq!(store.widget_ids_at_point(Point { x: 60, y: 60 }), vec![0]);
}

#[test]
fn hits_take_the_position_into_the_containers_space() {
    let store = sample();
    // Widget 3 starts at 10 + 5 + 2 = 17 and ends before 22; widget 2 is drawn after it.
    assert_eq!(store.widget_ids_at_point(Point { x: 21, y: 21 }), vec![2, 3, 1, 0]);
    assert_eq!(store.widget_ids_at_point(Point { x: 22, y: 22 }), vec![2, 1, 0]);
    assert_eq!(store.widget_ids_at_point(Point { x: 16, y: 16 }), vec![4, 1, 0]);
}

#[test]
fn the_edges_of_the_bounds_are_half_open() {
    let store = sample();
    assert_eq!(store.widget_ids_at_point(Point { x: 10, y: 10 }), vec![4, 0]);
    assert_eq!(store.widget_ids_at_point(Point { x: 109, y: 109 }), vec![0]);
    assert_eq!(store.widget_ids_at_point(Point { x: 110, y: 110 }), Vec::<i32>::new());
    assert_eq!(store.widget_ids_at_point(Point { x: -1, y: 0 }), Vec::<i32>::new());
}

#[test]
fn a_child_outside_its_container_is_still_hit() {
    let mut store = WidgetStore::new();
    store.add_widget(canvas(0, 0, 10, 10));
    store.add_widget_to_parent(canvas(50, 50, 10, 10), 0).unwrap();
    assert_eq!(store.widget_ids_at_point(Point { x: 55, y: 55 }), vec![1]);
}

#[test]
fn asking_twice_gives_the_same_hits() {
    let store = sample();
    for x in [-5, 0, 10, 17, 21, 25, 49, 60, 109, 110] {
        let point = Point { x, y: x };
        assert_eq!(store.widget_ids_at_point(point), store.widget_ids_at_point(point));
    }
}

#[test]
fn hits_at_the_edge_of_the_coordinates_do_not_overflow() {
    let mut store = WidgetStore::new();
    store.add_widget(canvas(i32::MIN, i32::MIN, i32::MAX, i32::MAX));
    store.add_widget_to_parent(canvas(i32::MIN, i32::MIN, i32::MAX, i32::MAX), 0).unwrap();
    store.add_widget_to_parent(canvas(i32::MAX, i32::MAX, i32::MAX, i32::MAX), 1).unwrap();
    // Widget 0 spans from the smallest coordinate to before -1. Widget 2 starts one before
    // the smallest coordinate and ends before -2; widget 1 lies wholly to the left of both.
    assert_eq!(store.widget_ids_at_point(Point { x: i32::MIN, y: i32::MIN }), vec![2, 0]);
    assert_eq!(store.widget_ids_at_point(Point { x: -3, y: -3 }), vec![2, 0]);
    assert_eq!(store.widget_ids_at_point(Point { x: -2, y: -2 }), vec![0]);
    assert_eq!(store.widget_ids_at_point(Point { x: -1, y: -1 }), Vec::<i32>::new());
    assert_eq!(
        store.widget_ids_at_point(Point { x: i32::MAX, y: i32::MAX }),
        Vec::<i32>::new()
    );
}

#[test]
fn a_redraw_paints_the_marked_widgets_in_the_order_of_drawing() {
    let mut store = sample();
    let requests = store.redraw();
    assert_eq!(
        requests,
        vec![
            DrawRequest {
                widget_id: 0,
                x: 10,
                y: 10,
                size: Size { w: 100, h: 100 },
                commands: fill(100, 100)
            },
            DrawRequest {
                widget_id: 1,
                x: 15,
                y: 15,
                size: Size { w: 20, h: 20 },
                commands: fill(20, 20)
            },
            DrawRequest {
                widget_id: 3,
                x: 17,
                y: 17,
                size: Size { w: 5, h: 5 },
                commands: fill(5, 5)
            },
            DrawRequest {
                widget_id: 2,
                x: 20,
                y: 20,
                size: Size { w: 30, h: 30 },
                commands: fill(30, 30)
            },
            DrawRequest {
                widget_id: 4,
                x: 0,
                y: 0,
                size: Size { w: 18, h: 18 },
                commands: fill(18, 18)
            },
        ]
    );
}

#[test]
fn a_redraw_clears_every_mark_it_visits() {
    let mut store = sample();
    for id in 0..5 {
        assert!(store.get_widget(id).unwrap().is_invalidated());
    }
    store.redraw();
    for id in 0..5 {
        assert!(!store.get_widget(id).unwrap().is_invalidated());
    }
    assert_eq!(store.redraw(), Vec::<DrawRequest>::new());
}

#[test]
fn a_redraw_passes_over_what_is_not_marked() {
    let mut store = sample();
    store.redraw();
    store.get_widget_mut(3).unwrap().set_color(Color { r: 1, g: 2, b: 3, a: 255 });
    store.get_widget_mut(0).unwrap().invalidate();
    let requests = store.redraw();
    let ids: Vec<i32> = requests.iter().map(|r| r.widget_id).collect();
    assert_eq!(ids, vec![0, 3]);
    assert_eq!(
        requests[1].commands,
        vec![DrawCommand::Rectangle {
            origin: Point { x: 0, y: 0 },
            size: Size { w: 5, h: 5 },
            color: Color { r: 1, g: 2, b: 3, a: 255 },
        }]
    );
}

#[test]
fn a_redraw_passes_over_what_is_hidden_and_leaves_its_mark() {
    let mut store = sample();
    store.get_widget_mut(1).unwrap().set_config(CONFIG_WIDGET_HIDDEN, Config::Toggle(true));
    let ids: Vec<i32> = store.redraw().iter().map(|r| r.widget_id).collect();
    assert_eq!(ids, vec![0, 3, 2, 4]);
    assert!(store.get_widget(1).unwrap().is_invalidated());
    store.get_widget_mut(1).unwrap().set_config(CONFIG_WIDGET_HIDDEN, Config::Toggle(false));
    let ids: Vec<i32> = store.redraw().iter().map(|r| r.widget_id).collect();
    assert_eq!(ids, vec![1]);
    assert!(!store.get_widget(1).unwrap().is_invalidated());
}

#[test]
fn a_redraw_leaves_places_and_geometry() {
    let mut store = sample();
    store.redraw();
    assert_eq!(store.traverse_draw_order(), vec![0, 1, 3, 2, 4]);
    assert_eq!(store.widget_ids_at_point(Point { x: 17, y: 17 }), vec![4, 3, 1, 0]);
    assert_eq!(store.get_widget(2).unwrap().get_origin(), Point { x: 10, y: 10 });
}

#[test]
fn removing_a_widget_takes_out_all_that_lies_within_it() {
    let mut store = sample();
    assert_eq!(store.remove_widget(1), Ok(()));
    assert!(store.is_alive(0));
    assert!(!store.is_alive(1));
    assert!(store.is_alive(2));
    assert!(!store.is_alive(3));
    assert!(store.is_alive(4));
    assert!(matches!(store.get_widget(1), Err(WidgetStoreError::NotFound)));
    assert!(matches!(store.get_widget(3), Err(WidgetStoreError::NotFound)));
    assert!(matches!(store.get_widget_mut(3), Err(WidgetStoreError::NotFound)));
    assert!(store.get_widget(2).is_ok());
    assert_eq!(store.widgets()[0].children, vec![2]);
    assert_eq!(store.widgets()[1].parent_id, None);
    assert!(store.widgets()[1].removed);
    assert_eq!(store.widgets()[1].children, vec![3]);
    assert_eq!(store.widgets()[3].parent_id, Some(1));
    assert!(!store.widgets()[3].removed);
    assert_eq!(store.traverse_draw_order(), vec![0, 2, 4]);
    assert_eq!(store.widget_ids_at_point(Point { x: 17, y: 17 }), vec![4, 0]);
    assert_eq!(store.widget_ids_at_point(Point { x: 25, y: 25 }), vec![2, 0]);
}

#[test]
fn removing_a_root_takes_out_its_tree() {
    let mut store = sample();
    assert_eq!(store.remove_widget(0), Ok(()));
    for id in 0..4 {
        assert!(!store.is_alive(id));
    }
    assert!(store.is_alive(4));
    assert_eq!(store.traverse_draw_order(), vec![4]);
    assert_eq!(store.widget_ids_at_point(Point { x: 60, y: 60 }), Vec::<i32>::new());
    let ids: Vec<i32> = store.redraw().iter().map(|r| r.widget_id).collect();
    assert_eq!(ids, vec![4]);
    assert!(store.widgets()[2].widget.is_invalidated());
}

#[test]
fn removing_the_first_of_several_children_keeps_the_order_of_the_rest() {
    let mut store = WidgetStore::new();
    store.add_widget(canvas(0, 0, 10, 10));
    for _ in 0..4 {
        store.add_widget_to_parent(canvas(0, 0, 10, 10), 0).unwrap();
    }
    assert_eq!(store.remove_widget(2), Ok(()));
    assert_eq!(store.widgets()[0].children, vec![1, 3, 4]);
    assert_eq!(store.remove_widget(1), Ok(()));
    assert_eq!(store.widgets()[0].children, vec![3, 4]);
    assert_eq!(store.remove_widget(4), Ok(()));
    assert_eq!(store.widgets()[0].children, vec![3]);
    assert_eq!(store.traverse_draw_order(), vec![0, 3]);
}

#[test]
fn what_was_removed_cannot_be_removed_again() {
    let mut store = sample();
    assert_eq!(store.remove_widget(1), Ok(()));
    assert_eq!(store.remove_widget(1), Err(WidgetStoreError::NotFound));
    assert_eq!(store.remove_widget(3), Err(WidgetStoreError::NotFound));
    assert_eq!(store.remove_widget(9), Err(WidgetStoreError::NotFound));
    assert_eq!(store.remove_widget(-1), Err(WidgetStoreError::NotFound));
    assert_eq!(store.traverse_draw_order(), vec![0, 2, 4]);
}

#[test]
fn the_ids_of_removed_widgets_are_not_given_out_again() {
    let mut store = sample();
    assert_eq!(store.remove_widget(4), Ok(()));
    assert_eq!(store.remove_widget(1), Ok(()));
    assert_eq!(store.add_widget(canvas(0, 0, 1, 1)), 5);
    assert_eq!(store.add_widget_to_parent(canvas(0, 0, 1, 1), 0), Ok(6));
    assert_eq!(store.len(), 7);
    assert_eq!(store.traverse_draw_order(), vec![0, 2, 6, 5]);
}

#[test]
fn a_removed_widget_is_no_parent() {
    let mut store = sample();
    assert_eq!(store.remove_widget(1), Ok(()));
    assert_eq!(
        store.add_widget_to_parent(canvas(0, 0, 1, 1), 1),
        Err(WidgetStoreError::InvalidParent)
    );
    assert_eq!(
        store.add_widget_to_parent(canvas(0, 0, 1, 1), 3),
        Err(WidgetStoreError::InvalidParent)
    );
    assert_eq!(store.len(), 5);
}
