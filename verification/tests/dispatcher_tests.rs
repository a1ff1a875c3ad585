use pushrod::engine::callbacks::{target_of, CallbackCall, CallbackEvent, EventResponse};
use pushrod::engine::dispatcher::{
    contains_id, dispatch, point_of_event, route_event, Capture, DispatchState,
};
use pushrod::engine::input::{Button, ButtonState, InputEvent, Key, MouseButton};
use pushrod::engine::point::{Point, Size};
use pushrod::engine::widget_store::{WidgetStore, WidgetStoreError};
use pushrod::engine::window::PushrodWindow;
use pushrod::widget::any_widget::AnyWidget;
use pushrod::widget::checkbox_widget::CheckboxWidget;
use pushrod::widget::config::{
    Color, Config, CONFIG_BODY_SIZE, CONFIG_MAIN_COLOR, CONFIG_ORIGIN, CONFIG_TEXT_COLOR,
};
use pushrod::widget::drawable::TextJustify;
use pushrod::widget::push_button_widget::{PushButtonState, PushButtonWidget};
use pushrod::widget::widget::{CanvasWidget, Widget};

const WHITE: Color = Color { r: 255, g: 255, b: 255, a: 255 };
const BLACK: Color = Color { r: 0, g: 0, b: 0, a: 255 };
const LEFT: Button = Button::Mouse(MouseButton::Left);
const RIGHT: Button = Button::Mouse(MouseButton::Right);
const NOTHING: EventResponse = EventResponse { derived: None, call: None };

fn at(x: i32, y: i32) -> Point {
    Point { x, y }
}

fn moved(x: i32, y: i32) -> InputEvent {
    InputEvent::PointerMoved { point: at(x, y) }
}

fn down(button: Button, x: i32, y: i32) -> InputEvent {
    InputEvent::ButtonDown { button, point: at(x, y) }
}

fn up(button: Button, x: i32, y: i32) -> InputEvent {
    InputEvent::ButtonUp { button, point: at(x, y) }
}

fn canvas(x: i32, y: i32, w: i32, h: i32) -> CanvasWidget {
    let mut widget = CanvasWidget::new();
    widget.set_origin(x, y);
    widget.set_size(w, h);
    widget
}

/// Widget 0 spans 0..50, widget 1 spans 100..150, both 50 high.
fn two_canvases() -> WidgetStore<CanvasWidget> {
    let mut store = WidgetStore::new();
    store.add_widget(canvas(0, 0, 50, 50));
    store.add_widget(canvas(100, 0, 50, 50));
    store
}

fn free(hover: Option<i32>) -> DispatchState {
    DispatchState { hover, capture: None, last_point: at(0, 0) }
}

fn held(widget_id: i32, button: Button, hover: Option<i32>) -> DispatchState {
    DispatchState { hover, capture: Some(Capture { widget_id, button }), last_point: at(0, 0) }
}

#[test]
fn a_new_dispatcher_remembers_nothing() {
    assert_eq!(DispatchState::new(), free(None));
}

#[test]
fn a_move_onto_a_widget_enters_it_and_moves_within_it() {
    let routing = route_event(&free(None), &moved(10, 10), &vec![0]);
    assert_eq!(
        routing.events,
        vec![
            CallbackEvent::MouseEntered { widget_id: 0 },
            CallbackEvent::MouseMoved { widget_id: 0, point: at(10, 10) },
        ]
    );
    assert_eq!(
        routing.state,
        DispatchState { hover: Some(0), capture: None, last_point: at(10, 10) }
    );
}

#[test]
fn a_move_within_the_same_widget_only_moves() {
    let routing = route_event(&free(Some(0)), &moved(11, 10), &vec![0]);
    assert_eq!(routing.events, vec![CallbackEvent::MouseMoved { widget_id: 0, point: at(11, 10) }]);
    assert_eq!(routing.state.hover, Some(0));
}

#[test]
fn a_move_from_one_widget_to_another_exits_then_enters() {
    let routing = route_event(&free(Some(0)), &moved(110, 10), &vec![1]);
    assert_eq!(
        routing.events,
        vec![
            CallbackEvent::MouseExited { widget_id: 0 },
            CallbackEvent::MouseEntered { widget_id: 1 },
            CallbackEvent::MouseMoved { widget_id: 1, point: at(110, 10) },
        ]
    );
    assert_eq!(routing.state.hover, Some(1));
}

#[test]
fn a_move_off_all_widgets_only_exits() {
    let routing = route_event(&free(Some(1)), &moved(300, 300), &vec![]);
    assert_eq!(routing.events, vec![CallbackEvent::MouseExited { widget_id: 1 }]);
    assert_eq!(
        routing.state,
        DispatchState { hover: None, capture: None, last_point: at(300, 300) }
    );
}

#[test]
fn a_move_over_nothing_does_nothing() {
    let routing = route_event(&free(None), &moved(300, 300), &vec![]);
    assert_eq!(routing.events, Vec::<CallbackEvent>::new());
    assert_eq!(routing.state.last_point, at(300, 300));
}

#[test]
fn only_the_topmost_widget_under_the_pointer_gets_the_event() {
    let routing = route_event(&free(None), &moved(5, 5), &vec![3, 1, 0]);
    assert_eq!(
        routing.events,
        vec![
            CallbackEvent::MouseEntered { widget_id: 3 },
            CallbackEvent::MouseMoved { widget_id: 3, point: at(5, 5) },
        ]
    );
}

#[test]
fn a_button_down_over_a_widget_captures_the_pointer() {
    let routing = route_event(&free(Some(0)), &down(LEFT, 10, 10), &vec![0]);
    assert_eq!(routing.events, vec![CallbackEvent::MouseButtonDown { widget_id: 0, button: LEFT }]);
    assert_eq!(routing.state.capture, Some(Capture { widget_id: 0, button: LEFT }));
    assert_eq!(routing.state.hover, Some(0));
}

#[test]
fn a_button_down_tells_the_widget_first_that_the_pointer_came() {
    let routing = route_event(&free(None), &down(LEFT, 10, 10), &vec![0]);
    assert_eq!(
        routing.events,
        vec![
            CallbackEvent::MouseEntered { widget_id: 0 },
            CallbackEvent::MouseButtonDown { widget_id: 0, button: LEFT },
        ]
    );
}

#[test]
fn a_button_down_over_nothing_captures_nothing() {
    let routing = route_event(&free(Some(0)), &down(LEFT, 300, 300), &vec![]);
    assert_eq!(routing.events, vec![CallbackEvent::MouseExited { widget_id: 0 }]);
    assert_eq!(routing.state.capture, None);
    assert_eq!(routing.state.hover, None);
}

#[test]
fn a_captured_move_goes_to_the_captor_wherever_the_pointer_is() {
    let state = held(0, LEFT, Some(0));
    for hits in [vec![1], vec![], vec![0], vec![1, 0]] {
        let routing = route_event(&state, &moved(110, 10), &hits);
        assert_eq!(
            routing.events,
            vec![CallbackEvent::MouseMoved { widget_id: 0, point: at(110, 10) }]
        );
        assert_eq!(routing.state.capture, state.capture);
        assert_eq!(routing.state.hover, Some(0));
        assert_eq!(routing.state.last_point, at(110, 10));
    }
}

#[test]
fn the_matching_release_inside_ends_the_capture() {
    let routing = route_event(&held(0, LEFT, Some(0)), &up(LEFT, 10, 10), &vec![0]);
    assert_eq!(
        routing.events,
        vec![CallbackEvent::MouseButtonUpInside { widget_id: 0, button: LEFT }]
    );
    assert_eq!(
        routing.state,
        DispatchState { hover: Some(0), capture: None, last_point: at(10, 10) }
    );
}

#[test]
fn the_matching_release_outside_ends_the_capture_and_moves_the_hover() {
    let routing = route_event(&held(0, LEFT, Some(0)), &up(LEFT, 110, 10), &vec![1]);
    assert_eq!(
        routing.events,
        vec![
            CallbackEvent::MouseButtonUpOutside { widget_id: 0, button: LEFT },
            CallbackEvent::MouseExited { widget_id: 0 },
            CallbackEvent::MouseEntered { widget_id: 1 },
        ]
    );
    assert_eq!(
        routing.state,
        DispatchState { hover: Some(1), capture: None, last_point: at(110, 10) }
    );
}

#[test]
fn a_release_under_another_widget_is_still_inside_the_captor() {
    let routing = route_event(&held(0, LEFT, Some(0)), &up(LEFT, 10, 10), &vec![2, 0]);
    assert_eq!(
        routing.events,
        vec![
            CallbackEvent::MouseButtonUpInside { widget_id: 0, button: LEFT },
            CallbackEvent::MouseExited { widget_id: 0 },
            CallbackEvent::MouseEntered { widget_id: 2 },
        ]
    );
}

#[test]
fn another_buttons_release_keeps_the_capture() {
    let state = held(0, LEFT, Some(0));
    let routing = route_event(&state, &up(RIGHT, 110, 10), &vec![1]);
    assert_eq!(
        routing.events,
        vec![CallbackEvent::MouseButtonUpOutside { widget_id: 0, button: RIGHT }]
    );
    assert_eq!(routing.state.capture, state.capture);
    assert_eq!(routing.state.hover, Some(0));
}

#[test]
fn another_button_down_during_a_capture_goes_to_the_captor() {
    let state = held(0, LEFT, Some(0));
    let routing = route_event(&state, &down(RIGHT, 110, 10), &vec![1]);
    assert_eq!(
        routing.events,
        vec![CallbackEvent::MouseButtonDown { widget_id: 0, button: RIGHT }]
    );
    assert_eq!(routing.state.capture, state.capture);
}

#[test]
fn a_release_without_a_capture_reaches_nobody() {
    let routing = route_event(&free(Some(0)), &up(LEFT, 10, 10), &vec![0]);
    assert_eq!(routing.events, Vec::<CallbackEvent>::new());
    let routing = route_event(&free(None), &up(LEFT, 10, 10), &vec![0]);
    assert_eq!(routing.events, vec![CallbackEvent::MouseEntered { widget_id: 0 }]);
    assert_eq!(routing.state.capture, None);
}

#[test]
fn keys_go_to_the_widget_under_the_pointer() {
    let key = Key { code: 65 };
    let state = free(Some(1));
    let routing = route_event(&state, &InputEvent::KeyDown { key }, &vec![]);
    assert_eq!(
        routing.events,
        vec![CallbackEvent::KeyPressed { widget_id: 1, key, state: ButtonState::Press }]
    );
    assert_eq!(routing.state, state);
    let routing = route_event(&state, &InputEvent::KeyUp { key }, &vec![]);
    assert_eq!(
        routing.events,
        vec![CallbackEvent::KeyPressed { widget_id: 1, key, state: ButtonState::Release }]
    );
    let routing = route_event(&free(None), &InputEvent::KeyDown { key }, &vec![]);
    assert_eq!(routing.events, Vec::<CallbackEvent>::new());
}

#[test]
fn keys_go_to_the_captor_during_a_capture() {
    let key = Key { code: 65 };
    let state = held(0, LEFT, Some(1));
    let routing = route_event(&state, &InputEvent::KeyDown { key }, &vec![]);
    assert_eq!(
        routing.events,
        vec![CallbackEvent::KeyPressed { widget_id: 0, key, state: ButtonState::Press }]
    );
    assert_eq!(routing.state, state);
}

#[test]
fn a_scroll_goes_to_the_topmost_widget_with_its_distance() {
    let event = InputEvent::Scroll { delta: at(0, -3), point: at(10, 10) };
    let routing = route_event(&free(Some(0)), &event, &vec![0]);
    assert_eq!(
        routing.events,
        vec![CallbackEvent::MouseScrolled { widget_id: 0, point: at(0, -3) }]
    );
    assert_eq!(routing.state.last_point, at(10, 10));
}

#[test]
fn helpers_read_events_and_lists() {
    assert!(contains_id(&vec![3, 1, 0], 1));
    assert!(!contains_id(&vec![3, 1, 0], 2));
    assert!(!contains_id(&vec![], 0));
    assert_eq!(point_of_event(&moved(1, 2)), Some(at(1, 2)));
    assert_eq!(point_of_event(&down(LEFT, 3, 4)), Some(at(3, 4)));
    assert_eq!(point_of_event(&up(LEFT, 5, 6)), Some(at(5, 6)));
    assert_eq!(
        point_of_event(&InputEvent::Scroll { delta: at(9, 9), point: at(7, 8) }),
        Some(at(7, 8))
    );
    assert_eq!(point_of_event(&InputEvent::KeyDown { key: Key { code: 1 } }), None);
    assert_eq!(target_of(&CallbackEvent::MouseExited { widget_id: 12 }), 12);
    assert_eq!(
        target_of(&CallbackEvent::WidgetSelected { widget_id: 13, button: LEFT, selected: true }),
        13
    );
}

#[test]
fn a_capture_routes_moves_to_the_captor_until_the_release() {
    let mut store = two_canvases();
    let mut state = DispatchState::new();
    dispatch(&mut state, &moved(10, 10), &mut store);
    let pressed = dispatch(&mut state, &down(LEFT, 10, 10), &mut store);
    assert_eq!(pressed.events, vec![CallbackEvent::MouseButtonDown { widget_id: 0, button: LEFT }]);
    assert_eq!(state.capture, Some(Capture { widget_id: 0, button: LEFT }));

    for (x, y) in [(110, 10), (300, 300), (20, 20), (149, 49)] {
        let outcome = dispatch(&mut state, &moved(x, y), &mut store);
        assert_eq!(
            outcome.events,
            vec![CallbackEvent::MouseMoved { widget_id: 0, point: at(x, y) }]
        );
        assert_eq!(state.capture, Some(Capture { widget_id: 0, button: LEFT }));
    }

    let released = dispatch(&mut state, &up(LEFT, 110, 10), &mut store);
    assert_eq!(
        released.events,
        vec![
            CallbackEvent::MouseButtonUpOutside { widget_id: 0, button: LEFT },
            CallbackEvent::MouseExited { widget_id: 0 },
            CallbackEvent::MouseEntered { widget_id: 1 },
        ]
    );
    assert_eq!(state.capture, None);

    let after = dispatch(&mut state, &moved(120, 10), &mut store);
    assert_eq!(after.events, vec![CallbackEvent::MouseMoved { widget_id: 1, point: at(120, 10) }]);
    let after = dispatch(&mut state, &moved(10, 10), &mut store);
    assert_eq!(
        after.events,
        vec![
            CallbackEvent::MouseExited { widget_id: 1 },
            CallbackEvent::MouseEntered { widget_id: 0 },
            CallbackEvent::MouseMoved { widget_id: 0, point: at(10, 10) },
        ]
    );
}

#[test]
fn entries_and_exits_pair_up_along_a_path() {
    let mut store = two_canvases();
    let mut state = DispatchState::new();
    let path = [
        (10, 10),
        (20, 20),
        (60, 10),
        (110, 10),
        (10, 10),
        (300, 300),
        (120, 40),
        (130, 40),
        (49, 49),
        (50, 50),
        (0, 0),
    ];
    let mut entered = [0i32; 2];
    let mut exited = [0i32; 2];
    for (x, y) in path {
        let outcome = dispatch(&mut state, &moved(x, y), &mut store);
        for event in outcome.events {
            match event {
                CallbackEvent::MouseEntered { widget_id } => entered[widget_id as usize] += 1,
                CallbackEvent::MouseExited { widget_id } => exited[widget_id as usize] += 1,
                _ => {}
            }
        }
        for id in 0..2 {
            let pending = entered[id] - exited[id];
            assert_eq!(pending, if state.hover == Some(id as i32) { 1 } else { 0 });
        }
    }
    assert_eq!(entered, [4, 2]);
    assert_eq!(exited, [3, 2]);
    assert_eq!(state.hover, Some(0));
}

#[test]
fn the_dispatcher_forgets_widgets_that_are_gone() {
    let mut store = two_canvases();
    let mut state = DispatchState {
        hover: Some(7),
        capture: Some(Capture { widget_id: 9, button: LEFT }),
        last_point: at(1, 1),
    };
    assert_eq!(
        state.settled(&store),
        DispatchState { hover: None, capture: None, last_point: at(1, 1) }
    );
    let known = DispatchState {
        hover: Some(1),
        capture: Some(Capture { widget_id: 0, button: LEFT }),
        last_point: at(1, 1),
    };
    assert_eq!(known.settled(&store), known);
    let outcome = dispatch(&mut state, &moved(110, 10), &mut store);
    assert_eq!(
        outcome.events,
        vec![
            CallbackEvent::MouseEntered { widget_id: 1 },
            CallbackEvent::MouseMoved { widget_id: 1, point: at(110, 10) },
        ]
    );
    assert_eq!(state, DispatchState { hover: Some(1), capture: None, last_point: at(110, 10) });
}

#[test]
fn a_removed_captor_releases_the_pointer() {
    let mut store = two_canvases();
    let mut state = DispatchState::new();
    dispatch(&mut state, &down(LEFT, 10, 10), &mut store);
    assert_eq!(state.capture, Some(Capture { widget_id: 0, button: LEFT }));
    assert_eq!(store.remove_widget(0), Ok(()));
    let outcome = dispatch(&mut state, &moved(110, 10), &mut store);
    assert_eq!(
        outcome.events,
        vec![
            CallbackEvent::MouseEntered { widget_id: 1 },
            CallbackEvent::MouseMoved { widget_id: 1, point: at(110, 10) },
        ]
    );
    assert_eq!(state, DispatchState { hover: Some(1), capture: None, last_point: at(110, 10) });
    let outcome = dispatch(&mut state, &moved(10, 10), &mut store);
    assert_eq!(outcome.events, vec![CallbackEvent::MouseExited { widget_id: 1 }]);
    assert_eq!(state.hover, None);
}

#[test]
fn an_event_for_no_widget_changes_nothing() {
    let mut store = two_canvases();
    assert_eq!(
        store.deliver(false, CallbackEvent::MouseEntered { widget_id: 5 }),
        Err(WidgetStoreError::NotFound)
    );
    assert_eq!(
        store.deliver(false, CallbackEvent::MouseEntered { widget_id: -1 }),
        Err(WidgetStoreError::NotFound)
    );
    assert_eq!(store.deliver(false, CallbackEvent::MouseEntered { widget_id: 1 }), Ok(NOTHING));
    assert_eq!(store.len(), 2);
}

#[test]
fn the_dispatcher_collects_the_handlers_to_run() {
    let mut store = two_canvases();
    store.get_widget_mut(0).unwrap().on_mouse_entered(31);
    store.get_widget_mut(0).unwrap().on_mouse_moved(32);
    store.get_widget_mut(0).unwrap().on_mouse_exited(33);
    let mut state = DispatchState::new();
    let outcome = dispatch(&mut state, &moved(10, 10), &mut store);
    assert_eq!(
        outcome.responses,
        vec![
            EventResponse {
                derived: None,
                call: Some(CallbackCall::Single { callback: 31, widget_id: 0 })
            },
            EventResponse {
                derived: None,
                call: Some(CallbackCall::Point { callback: 32, widget_id: 0, point: at(10, 10) })
            },
        ]
    );
    let outcome = dispatch(&mut state, &moved(110, 10), &mut store);
    assert_eq!(
        outcome.responses,
        vec![
            EventResponse {
                derived: None,
                call: Some(CallbackCall::Single { callback: 33, widget_id: 0 })
            },
            NOTHING,
            NOTHING,
        ]
    );
}

#[test]
fn a_push_button_in_a_window_is_clicked() {
    let mut button =
        PushButtonWidget::new("arial".to_string(), "OK".to_string(), 12, TextJustify::Center);
    button.set_config(CONFIG_ORIGIN, Config::Point(at(10, 10)));
    button.set_config(CONFIG_BODY_SIZE, Config::Size(Size { w: 100, h: 30 }));
    button.on_click(5);
    let mut window: PushrodWindow<PushButtonWidget> = PushrodWindow::new();
    let id = window.add_widget(button);
    assert_eq!(id, 0);
    assert_eq!(window.get_widget_id_for_point(at(50, 20)), Some(0));
    assert_eq!(window.get_widget_id_for_point(at(5, 5)), None);

    let pressed = window.handle_input(&down(LEFT, 50, 20));
    assert_eq!(
        pressed.events,
        vec![
            CallbackEvent::MouseEntered { widget_id: 0 },
            CallbackEvent::MouseButtonDown { widget_id: 0, button: LEFT },
        ]
    );
    assert_eq!(pressed.responses, vec![NOTHING, NOTHING]);
    {
        let button = window.widget_store().get_widget(0).unwrap();
        assert_eq!(button.state(), PushButtonState::Pressed);
        assert!(button.is_invalidated());
        assert_eq!(button.base_widget().config().get_color(CONFIG_MAIN_COLOR), BLACK);
        assert_eq!(button.text_widget().config().get_color(CONFIG_TEXT_COLOR), WHITE);
    }
    assert_eq!(window.state().capture, Some(Capture { widget_id: 0, button: LEFT }));

    let released = window.handle_input(&up(LEFT, 50, 20));
    assert_eq!(
        released.events,
        vec![CallbackEvent::MouseButtonUpInside { widget_id: 0, button: LEFT }]
    );
    assert_eq!(
        released.responses,
        vec![EventResponse {
            derived: Some(CallbackEvent::WidgetClicked { widget_id: 0, button: LEFT }),
            call: Some(CallbackCall::Single { callback: 5, widget_id: 0 }),
        }]
    );
    let clicks = released
        .responses
        .iter()
        .filter(|r| matches!(r.derived, Some(CallbackEvent::WidgetClicked { .. })))
        .count();
    assert_eq!(clicks, 1);
    {
        let button = window.widget_store().get_widget(0).unwrap();
        assert_eq!(button.state(), PushButtonState::Hovered);
        assert_eq!(button.base_widget().config().get_color(CONFIG_MAIN_COLOR), WHITE);
        assert_eq!(button.text_widget().config().get_color(CONFIG_TEXT_COLOR), BLACK);
    }
    assert_eq!(window.state().capture, None);
}

#[test]
fn a_push_button_released_outside_is_not_clicked() {
    let mut button =
        PushButtonWidget::new("arial".to_string(), "OK".to_string(), 12, TextJustify::Center);
    button.set_config(CONFIG_ORIGIN, Config::Point(at(10, 10)));
    button.set_config(CONFIG_BODY_SIZE, Config::Size(Size { w: 100, h: 30 }));
    let mut window: PushrodWindow<PushButtonWidget> = PushrodWindow::new();
    window.add_widget(button);
    window.handle_input(&down(LEFT, 50, 20));
    let dragged = window.handle_input(&moved(500, 500));
    assert_eq!(
        dragged.events,
        vec![CallbackEvent::MouseMoved { widget_id: 0, point: at(500, 500) }]
    );
    let released = window.handle_input(&up(LEFT, 500, 500));
    assert_eq!(
        released.events,
        vec![
            CallbackEvent::MouseButtonUpOutside { widget_id: 0, button: LEFT },
            CallbackEvent::MouseExited { widget_id: 0 },
        ]
    );
    assert_eq!(released.responses, vec![NOTHING, NOTHING]);
    let button = window.widget_store().get_widget(0).unwrap();
    assert_eq!(button.state(), PushButtonState::Idle);
    assert_eq!(button.base_widget().config().get_color(CONFIG_MAIN_COLOR), WHITE);
}

#[test]
fn a_checkbox_in_a_window_is_ticked_and_unticked() {
    let mut checkbox = CheckboxWidget::new(
        "arial".to_string(),
        "Tick".to_string(),
        12,
        TextJustify::Left,
        false,
    );
    checkbox.set_config(CONFIG_ORIGIN, Config::Point(at(0, 0)));
    checkbox.set_config(CONFIG_BODY_SIZE, Config::Size(Size { w: 100, h: 32 }));
    checkbox.on_selected(8);
    let mut window: PushrodWindow<CheckboxWidget> = PushrodWindow::new();
    window.add_widget(checkbox);

    assert_eq!(window.handle_input(&down(LEFT, 5, 5)).responses, vec![NOTHING, NOTHING]);
    let released = window.handle_input(&up(LEFT, 5, 5));
    assert_eq!(
        released.responses,
        vec![EventResponse {
            derived: Some(CallbackEvent::WidgetSelected {
                widget_id: 0,
                button: LEFT,
                selected: true
            }),
            call: Some(CallbackCall::Toggle { callback: 8, widget_id: 0, selected: true }),
        }]
    );
    assert!(window.widget_store().get_widget(0).unwrap().is_selected());

    window.handle_input(&down(LEFT, 5, 5));
    let released = window.handle_input(&up(LEFT, 5, 5));
    assert_eq!(
        released.responses[0].derived,
        Some(CallbackEvent::WidgetSelected { widget_id: 0, button: LEFT, selected: false })
    );
    assert_eq!(
        released.responses[0].call,
        Some(CallbackCall::Toggle { callback: 8, widget_id: 0, selected: false })
    );
    assert!(!window.widget_store().get_widget(0).unwrap().is_selected());
}

#[test]
fn widgets_of_different_kinds_share_a_window() {
    let mut canvas = CanvasWidget::new();
    canvas.set_size(300, 300);
    let mut button =
        PushButtonWidget::new("arial".to_string(), "OK".to_string(), 12, TextJustify::Center);
    button.set_config(CONFIG_ORIGIN, Config::Point(at(10, 10)));
    button.set_config(CONFIG_BODY_SIZE, Config::Size(Size { w: 100, h: 30 }));
    let mut checkbox = CheckboxWidget::new(
        "arial".to_string(),
        "Tick".to_string(),
        12,
        TextJustify::Left,
        false,
    );
    checkbox.set_config(CONFIG_ORIGIN, Config::Point(at(10, 50)));
    checkbox.set_config(CONFIG_BODY_SIZE, Config::Size(Size { w: 100, h: 32 }));

    let mut window: PushrodWindow<AnyWidget> = PushrodWindow::new();
    assert_eq!(window.add_widget(AnyWidget::Canvas(canvas)), 0);
    assert_eq!(
        window.widget_store_mut().add_widget_to_parent(AnyWidget::PushButton(button), 0),
        Ok(1)
    );
    assert_eq!(
        window.widget_store_mut().add_widget_to_parent(AnyWidget::Checkbox(checkbox), 0),
        Ok(2)
    );
    assert_eq!(window.widget_store().widget_ids_at_point(at(20, 20)), vec![1, 0]);
    assert_eq!(window.widget_store().widget_ids_at_point(at(20, 60)), vec![2, 0]);

    window.handle_input(&down(LEFT, 20, 20));
    let clicked = window.handle_input(&up(LEFT, 20, 20));
    assert_eq!(
        clicked.responses[0].derived,
        Some(CallbackEvent::WidgetClicked { widget_id: 1, button: LEFT })
    );
    window.handle_input(&down(LEFT, 20, 60));
    let ticked = window.handle_input(&up(LEFT, 20, 60));
    assert_eq!(
        ticked.events,
        vec![CallbackEvent::MouseButtonUpInside { widget_id: 2, button: LEFT }]
    );
    assert_eq!(
        ticked.responses[0].derived,
        Some(CallbackEvent::WidgetSelected { widget_id: 2, button: LEFT, selected: true })
    );
    match window.widget_store().get_widget(2).unwrap() {
        AnyWidget::Checkbox(checkbox) => assert!(checkbox.is_selected()),
        _ => panic!("widget 2 is the checkbox"),
    }
    assert_eq!(window.widget_store().get_widget(1).unwrap().get_widget_id(), 1);
    let ids: Vec<i32> = window.redraw().iter().map(|r| r.widget_id).collect();
    assert_eq!(ids, vec![0, 1, 2]);
}

#[test]
fn a_window_redraws_through_its_store() {
    let mut window: PushrodWindow<CanvasWidget> = PushrodWindow::new();
    window.add_widget(canvas(1, 2, 3, 4));
    window.widget_store_mut().add_widget_to_parent(canvas(5, 6, 7, 8), 0).unwrap();
    let requests = window.redraw();
    assert_eq!(requests.len(), 2);
    assert_eq!((requests[1].widget_id, requests[1].x, requests[1].y), (1, 6, 8));
    assert_eq!(window.redraw().len(), 0);
    assert_eq!(window.state(), DispatchState::new());
}
