use crate::engine::callbacks::{
    button_call, key_call, no_response, point_call, single_call, toggle_call, CallbackCall,
    CallbackEvent, CallbackStore, CallbackTypes, EventResponse, CALLBACK_KEY_PRESSED,
    CALLBACK_MOUSE_BUTTON_DOWN, CALLBACK_MOUSE_BUTTON_UP_INSIDE,
    CALLBACK_MOUSE_BUTTON_UP_OUTSIDE, CALLBACK_MOUSE_ENTERED, CALLBACK_MOUSE_EXITED,
    CALLBACK_MOUSE_MOVED, CALLBACK_MOUSE_SCROLLED,
};
use crate::engine::input::{Button, ButtonState, Key};
use crate::engine::point::{Point, Size};
use crate::widget::config::{
    color_setting, point_setting, size_setting, Color, Config, Configurable, CONFIG_BODY_SIZE,
    CONFIG_INVALIDATE, CONFIG_MAIN_COLOR, CONFIG_ORIGIN,
};
use crate::widget::drawable::{body_fill, DrawCommand};
use vstd::prelude::*;

verus! {

/// What a widget that keeps no state of its own answers to an event: the handler registered for
/// the event's kind, with the event's arguments, and nothing where the event was injected.
pub open spec fn trigger_response(
    registry: Map<u32, CallbackTypes>,
    injected: bool,
    event: CallbackEvent,
) -> EventResponse {
    if injected {
        no_response()
    } else {
        match event {
            CallbackEvent::KeyPressed { widget_id, key, state } => EventResponse {
                derived: None,
                call: key_call(registry, CALLBACK_KEY_PRESSED, widget_id, key, state),
            },
            CallbackEvent::MouseEntered { widget_id } => EventResponse {
                derived: None,
                call: single_call(registry, CALLBACK_MOUSE_ENTERED, widget_id),
            },
            CallbackEvent::MouseExited { widget_id } => EventResponse {
                derived: None,
                call: single_call(registry, CALLBACK_MOUSE_EXITED, widget_id),
            },
            CallbackEvent::MouseScrolled { widget_id, point } => EventResponse {
                derived: None,
                call: point_call(registry, CALLBACK_MOUSE_SCROLLED, widget_id, point),
            },
            CallbackEvent::MouseMoved { widget_id, point } => EventResponse {
                derived: None,
                call: point_call(registry, CALLBACK_MOUSE_MOVED, widget_id, point),
            },
            CallbackEvent::MouseButtonDown { widget_id, button } => EventResponse {
                derived: None,
                call: button_call(registry, CALLBACK_MOUSE_BUTTON_DOWN, widget_id, button),
            },
            CallbackEvent::MouseButtonUpInside { widget_id, button } => EventResponse {
                derived: None,
                call: button_call(registry, CALLBACK_MOUSE_BUTTON_UP_INSIDE, widget_id, button),
            },
            CallbackEvent::MouseButtonUpOutside { widget_id, button } => EventResponse {
                derived: None,
                call: button_call(registry, CALLBACK_MOUSE_BUTTON_UP_OUTSIDE, widget_id, button),
            },
            _ => no_response(),
        }
    }
}

/// What every widget can do: keep settings and handlers, report an id, answer events and paint
/// itself.
///
/// A widget is described by its settings (`spec_config`), its handlers (`spec_callbacks`) and
/// its id (`spec_widget_id`). What else it holds is its own; `differs_in_config`,
/// `differs_in_callbacks` and `differs_in_widget_id` say that this rest is untouched.
pub trait Widget: Sized {
    /// The widget's settings, as a map from key to value.
    spec fn spec_config(&self) -> Map<u8, Config>;

    /// The widget's handlers, as a map from the kind of callback to the handler.
    spec fn spec_callbacks(&self) -> Map<u32, CallbackTypes>;

    /// The id that the widget reports.
    spec fn spec_widget_id(&self) -> i32;

    /// Whether `other` is this widget with, at most, other settings.
    spec fn differs_in_config(&self, other: &Self) -> bool;

    /// Whether `other` is this widget with, at most, other handlers.
    spec fn differs_in_callbacks(&self, other: &Self) -> bool;

    /// Whether `other` is this widget with, at most, another id.
    spec fn differs_in_widget_id(&self, other: &Self) -> bool;

    /// Whether this widget, given `event`, becomes `after` and answers `response`.
    spec fn responds(
        &self,
        injected: bool,
        event: CallbackEvent,
        after: &Self,
        response: EventResponse,
    ) -> bool;

    /// Whether this widget, asked to paint itself, becomes `after` and asks for `commands`.
    spec fn paints(&self, after: &Self, commands: Seq<DrawCommand>) -> bool;

    /// Whether this widget, told to store `value` under `key`, becomes `after`.
    spec fn configures(&self, key: u8, value: Config, after: &Self) -> bool;

    /// The widget's settings, to change them.
    fn config(&mut self) -> (config: &mut Configurable)
        ensures
            config@ == old(self).spec_config(),
            final(self).spec_config() == final(config)@,
            final(self).spec_callbacks() == old(self).spec_callbacks(),
            final(self).spec_widget_id() == old(self).spec_widget_id(),
            old(self).differs_in_config(final(self)),
    ;

    /// The widget's settings, to read them.
    fn settings(&self) -> (config: &Configurable)
        ensures
            config@ == self.spec_config(),
    ;

    /// The widget's handlers, to change them.
    fn callbacks(&mut self) -> (callbacks: &mut CallbackStore)
        ensures
            callbacks@ == old(self).spec_callbacks(),
            final(self).spec_callbacks() == final(callbacks)@,
            final(self).spec_config() == old(self).spec_config(),
            final(self).spec_widget_id() == old(self).spec_widget_id(),
            old(self).differs_in_callbacks(final(self)),
    ;

    /// The widget's handlers, to read them.
    fn handlers(&self) -> (callbacks: &CallbackStore)
        ensures
            callbacks@ == self.spec_callbacks(),
    ;

    /// Tells the widget its id.
    fn set_widget_id(&mut self, widget_id: i32)
        ensures
            final(self).spec_widget_id() == widget_id,
            final(self).spec_config() == old(self).spec_config(),
            final(self).spec_callbacks() == old(self).spec_callbacks(),
            old(self).differs_in_widget_id(final(self)),
    ;

    /// The id that the widget was told.
    fn get_widget_id(&self) -> (widget_id: i32)
        ensures
            widget_id == self.spec_widget_id(),
    ;

    /// Hands the widget an event. An event that the system made up itself is `injected`. The
    /// answer holds the event that the widget makes of it, if any, and the handler to run, if
    /// any.
    fn handle_event(&mut self, injected: bool, event: CallbackEvent) -> (response: EventResponse)
        ensures
            old(self).responds(injected, event, final(self), response),
    ;

    /// Paints the widget: returns what to paint, in the widget's own space, and clears the mark
    /// that asks for a redraw.
    fn draw(&mut self) -> (commands: Vec<DrawCommand>)
        ensures
            old(self).paints(final(self), commands@),
            final(self).spec_config() == old(self).spec_config().remove(CONFIG_INVALIDATE),
            final(self).spec_callbacks() == old(self).spec_callbacks(),
            final(self).spec_widget_id() == old(self).spec_widget_id(),
    ;

    /// Stores `value` under `key` in the widget's settings. A widget made of others hands the
    /// setting on to them.
    fn set_config(&mut self, key: u8, value: Config)
        ensures
            old(self).configures(key, value, final(self)),
            final(self).spec_config() == old(self).spec_config().insert(key, value),
            final(self).spec_callbacks() == old(self).spec_callbacks(),
            final(self).spec_widget_id() == old(self).spec_widget_id(),
    ;

    /// Marks the widget as needing a redraw.
    fn invalidate(&mut self)
        ensures
            final(self).spec_config() == old(self).spec_config().insert(
                CONFIG_INVALIDATE,
                Config::Toggle(true),
            ),
            final(self).spec_callbacks() == old(self).spec_callbacks(),
            final(self).spec_widget_id() == old(self).spec_widget_id(),
            old(self).differs_in_config(final(self)),
    {
        self.config().set(CONFIG_INVALIDATE, Config::Toggle(true));
    }

    /// Takes the mark away.
    fn clear_invalidate(&mut self)
        ensures
            final(self).spec_config() == old(self).spec_config().remove(CONFIG_INVALIDATE),
            final(self).spec_callbacks() == old(self).spec_callbacks(),
            final(self).spec_widget_id() == old(self).spec_widget_id(),
            old(self).differs_in_config(final(self)),
    {
        self.config().remove(CONFIG_INVALIDATE);
    }

    /// Whether the widget needs a redraw.
    fn is_invalidated(&self) -> (invalidated: bool)
        ensures
            invalidated == self.spec_config().contains_key(CONFIG_INVALIDATE),
    {
        self.settings().contains(CONFIG_INVALIDATE)
    }

    /// Moves the widget to `(x, y)` in its container, and marks it for a redraw.
    fn set_origin(&mut self, x: i32, y: i32)
        ensures
            final(self).spec_config() == old(self).spec_config().insert(
                CONFIG_ORIGIN,
                Config::Point(Point { x, y }),
            ).insert(CONFIG_INVALIDATE, Config::Toggle(true)),
            final(self).spec_config().contains_key(CONFIG_INVALIDATE),
            final(self).spec_callbacks() == old(self).spec_callbacks(),
            final(self).spec_widget_id() == old(self).spec_widget_id(),
            old(self).differs_in_config(final(self)),
    {
        let config = self.config();
        config.set(CONFIG_ORIGIN, Config::Point(Point { x, y }));
        config.set(CONFIG_INVALIDATE, Config::Toggle(true));
    }

    /// Where the widget starts in its container: `(0, 0)` unless it was moved.
    fn get_origin(&self) -> (origin: Point)
        ensures
            origin == point_setting(self.spec_config(), CONFIG_ORIGIN),
    {
        self.settings().get_point(CONFIG_ORIGIN)
    }

    /// Gives the widget the extent `(w, h)`, and marks it for a redraw.
    fn set_size(&mut self, w: i32, h: i32)
        ensures
            final(self).spec_config() == old(self).spec_config().insert(
                CONFIG_BODY_SIZE,
                Config::Size(Size { w, h }),
            ).insert(CONFIG_INVALIDATE, Config::Toggle(true)),
            final(self).spec_config().contains_key(CONFIG_INVALIDATE),
            final(self).spec_callbacks() == old(self).spec_callbacks(),
            final(self).spec_widget_id() == old(self).spec_widget_id(),
            old(self).differs_in_config(final(self)),
    {
        let config = self.config();
        config.set(CONFIG_BODY_SIZE, Config::Size(Size { w, h }));
        config.set(CONFIG_INVALIDATE, Config::Toggle(true));
    }

    /// The widget's extent: `(0, 0)` unless it was given one.
    fn get_size(&self) -> (size: Size)
        ensures
            size == size_setting(self.spec_config(), CONFIG_BODY_SIZE),
    {
        self.settings().get_size(CONFIG_BODY_SIZE)
    }

    /// Gives the widget's body a colour, and marks the widget for a redraw.
    fn set_color(&mut self, color: Color)
        ensures
            final(self).spec_config() == old(self).spec_config().insert(
                CONFIG_MAIN_COLOR,
                Config::Color(color),
            ).insert(CONFIG_INVALIDATE, Config::Toggle(true)),
            final(self).spec_config().contains_key(CONFIG_INVALIDATE),
            final(self).spec_callbacks() == old(self).spec_callbacks(),
            final(self).spec_widget_id() == old(self).spec_widget_id(),
            old(self).differs_in_config(final(self)),
    {
        let config = self.config();
        config.set(CONFIG_MAIN_COLOR, Config::Color(color));
        config.set(CONFIG_INVALIDATE, Config::Toggle(true));
    }

    /// The colour of the widget's body: opaque white unless it was given one.
    fn get_color(&self) -> (color: Color)
        ensures
            color == color_setting(self.spec_config(), CONFIG_MAIN_COLOR),
    {
        self.settings().get_color(CONFIG_MAIN_COLOR)
    }

    /// The call of the handler registered for `callback_id`, where that handler takes the
    /// widget's id. Any other handler, or none, gives no call.
    fn perform_single_callback(&self, callback_id: u32, widget_id: i32) -> (call: Option<
        CallbackCall,
    >)
        ensures
            call == single_call(self.spec_callbacks(), callback_id, widget_id),
    {
        match self.handlers().get(callback_id) {
            Some(CallbackTypes::SingleCallback { callback }) => Some(
                CallbackCall::Single { callback, widget_id },
            ),
            _ => None,
        }
    }

    /// The call of the handler registered for `callback_id`, where that handler takes the
    /// widget's id and a position. Any other handler, or none, gives no call.
    fn perform_point_callback(&self, callback_id: u32, widget_id: i32, point: Point) -> (call:
        Option<CallbackCall>)
        ensures
            call == point_call(self.spec_callbacks(), callback_id, widget_id, point),
    {
        match self.handlers().get(callback_id) {
            Some(CallbackTypes::PointCallback { callback }) => Some(
                CallbackCall::Point { callback, widget_id, point },
            ),
            _ => None,
        }
    }

    /// The call of the handler registered for `callback_id`, where that handler takes the
    /// widget's id, a key and the key's state. Any other handler, or none, gives no call.
    fn perform_key_callback(
        &self,
        callback_id: u32,
        widget_id: i32,
        key: Key,
        state: ButtonState,
    ) -> (call: Option<CallbackCall>)
        ensures
            call == key_call(self.spec_callbacks(), callback_id, widget_id, key, state),
    {
        match self.handlers().get(callback_id) {
            Some(CallbackTypes::KeyCallback { callback }) => Some(
                CallbackCall::Key { callback, widget_id, key, state },
            ),
            _ => None,
        }
    }

    /// The call of the handler registered for `callback_id`, where that handler takes the
    /// widget's id and a button. Any other handler, or none, gives no call.
    fn perform_button_callback(&self, callback_id: u32, widget_id: i32, button: Button) -> (call:
        Option<CallbackCall>)
        ensures
            call == button_call(self.spec_callbacks(), callback_id, widget_id, button),
    {
        match self.handlers().get(callback_id) {
            Some(CallbackTypes::ButtonCallback { callback }) => Some(
                CallbackCall::Button { callback, widget_id, button },
            ),
            _ => None,
        }
    }

    /// The call of the handler registered for `callback_id`, where that handler takes the
    /// widget's id and a selection. Any other handler, or none, gives no call.
    fn perform_toggle_callback(&self, callback_id: u32, widget_id: i32, selected: bool) -> (call:
        Option<CallbackCall>)
        ensures
            call == toggle_call(self.spec_callbacks(), callback_id, widget_id, selected),
    {
        match self.handlers().get(callback_id) {
            Some(CallbackTypes::ToggleCallback { callback }) => Some(
                CallbackCall::Toggle { callback, widget_id, selected },
            ),
            _ => None,
        }
    }

    /// A key went down or came up while the pointer was over the widget.
    fn key_pressed(&self, widget_id: i32, key: &Key, state: &ButtonState) -> (call: Option<
        CallbackCall,
    >)
        ensures
            call == key_call(
                self.spec_callbacks(),
                CALLBACK_KEY_PRESSED,
                widget_id,
                *key,
                *state,
            ),
    {
        self.perform_key_callback(CALLBACK_KEY_PRESSED, widget_id, *key, *state)
    }

    /// The pointer came into the widget's bounds.
    fn mouse_entered(&self, widget_id: i32) -> (call: Option<CallbackCall>)
        ensures
            call == single_call(self.spec_callbacks(), CALLBACK_MOUSE_ENTERED, widget_id),
    {
        self.perform_single_callback(CALLBACK_MOUSE_ENTERED, widget_id)
    }

    /// The pointer left the widget's bounds.
    fn mouse_exited(&self, widget_id: i32) -> (call: Option<CallbackCall>)
        ensures
            call == single_call(self.spec_callbacks(), CALLBACK_MOUSE_EXITED, widget_id),
    {
        self.perform_single_callback(CALLBACK_MOUSE_EXITED, widget_id)
    }

    /// The wheel turned while the pointer was over the widget.
    fn mouse_scrolled(&self, widget_id: i32, point: Point) -> (call: Option<CallbackCall>)
        ensures
            call == point_call(self.spec_callbacks(), CALLBACK_MOUSE_SCROLLED, widget_id, point),
    {
        self.perform_point_callback(CALLBACK_MOUSE_SCROLLED, widget_id, point)
    }

    /// The pointer moved within the widget's bounds.
    fn mouse_moved(&self, widget_id: i32, point: Point) -> (call: Option<CallbackCall>)
        ensures
            call == point_call(self.spec_callbacks(), CALLBACK_MOUSE_MOVED, widget_id, point),
    {
        self.perform_point_callback(CALLBACK_MOUSE_MOVED, widget_id, point)
    }

    /// A button went down over the widget.
    fn mouse_button_down(&self, widget_id: i32, button: Button) -> (call: Option<CallbackCall>)
        ensures
            call == button_call(
                self.spec_callbacks(),
                CALLBACK_MOUSE_BUTTON_DOWN,
                widget_id,
                button,
            ),
    {
        self.perform_button_callback(CALLBACK_MOUSE_BUTTON_DOWN, widget_id, button)
    }

    /// A button that went down over the widget came up inside it.
    fn mouse_button_up_inside(&self, widget_id: i32, button: Button) -> (call: Option<
        CallbackCall,
    >)
        ensures
            call == button_call(
                self.spec_callbacks(),
                CALLBACK_MOUSE_BUTTON_UP_INSIDE,
                widget_id,
                button,
            ),
    {
        self.perform_button_callback(CALLBACK_MOUSE_BUTTON_UP_INSIDE, widget_id, button)
    }

    /// A button that went down over the widget came up outside it.
    fn mouse_button_up_outside(&self, widget_id: i32, button: Button) -> (call: Option<
        CallbackCall,
    >)
        ensures
            call == button_call(
                self.spec_callbacks(),
                CALLBACK_MOUSE_BUTTON_UP_OUTSIDE,
                widget_id,
                button,
            ),
    {
        self.perform_button_callback(CALLBACK_MOUSE_BUTTON_UP_OUTSIDE, widget_id, button)
    }

    /// The answer of a widget that keeps no state of its own: the handler registered for the
    /// event's kind.
    fn trigger(&self, injected: bool, event: CallbackEvent) -> (response: EventResponse)
        ensures
            response == trigger_response(self.spec_callbacks(), injected, event),
    {
        if injected {
            return EventResponse { derived: None, call: None };
        }
        let call = match event {
            CallbackEvent::KeyPressed { widget_id, key, state } => self.key_pressed(
                widget_id,
                &key,
                &state,
            ),
            CallbackEvent::MouseEntered { widget_id } => self.mouse_entered(widget_id),
            CallbackEvent::MouseExited { widget_id } => self.mouse_exited(widget_id),
            CallbackEvent::MouseScrolled { widget_id, point } => self.mouse_scrolled(
                widget_id,
                point,
            ),
            CallbackEvent::MouseMoved { widget_id, point } => self.mouse_moved(widget_id, point),
            CallbackEvent::MouseButtonDown { widget_id, button } => self.mouse_button_down(
                widget_id,
                button,
            ),
            CallbackEvent::MouseButtonUpInside { widget_id, button } => self.mouse_button_up_inside(
                widget_id,
                button,
            ),
            CallbackEvent::MouseButtonUpOutside {
                widget_id,
                button,
            } => self.mouse_button_up_outside(widget_id, button),
            _ => None,
        };
        EventResponse { derived: None, call }
    }

    /// Registers the handler to run when a key goes down or comes up over the widget, in place
    /// of the one registered before.
    fn on_key_pressed(&mut self, callback: u32)
        ensures
            final(self).spec_callbacks() == old(self).spec_callbacks().insert(
                CALLBACK_KEY_PRESSED,
                CallbackTypes::KeyCallback { callback },
            ),
            final(self).spec_config() == old(self).spec_config(),
            final(self).spec_widget_id() == old(self).spec_widget_id(),
            old(self).differs_in_callbacks(final(self)),
    {
        self.callbacks().put(CALLBACK_KEY_PRESSED, CallbackTypes::KeyCallback { callback });
    }

    /// Registers the handler to run when the pointer enters the widget, in place of the one
    /// registered before.
    fn on_mouse_entered(&mut self, callback: u32)
        ensures
            final(self).spec_callbacks() == old(self).spec_callbacks().insert(
                CALLBACK_MOUSE_ENTERED,
                CallbackTypes::SingleCallback { callback },
            ),
            final(self).spec_config() == old(self).spec_config(),
            final(self).spec_widget_id() == old(self).spec_widget_id(),
            old(self).differs_in_callbacks(final(self)),
    {
        self.callbacks().put(CALLBACK_MOUSE_ENTERED, CallbackTypes::SingleCallback { callback });
    }

    /// Registers the handler to run when the pointer leaves the widget, in place of the one
    /// registered before.
    fn on_mouse_exited(&mut self, callback: u32)
        ensures
            final(self).spec_callbacks() == old(self).spec_callbacks().insert(
                CALLBACK_MOUSE_EXITED,
                CallbackTypes::SingleCallback { callback },
            ),
            final(self).spec_config() == old(self).spec_config(),
            final(self).spec_widget_id() == old(self).spec_widget_id(),
            old(self).differs_in_callbacks(final(self)),
    {
        self.callbacks().put(CALLBACK_MOUSE_EXITED, CallbackTypes::SingleCallback { callback });
    }

    /// Registers the handler to run when the wheel turns over the widget, in place of the one
    /// registered before.
    fn on_mouse_scrolled(&mut self, callback: u32)
        ensures
            final(self).spec_callbacks() == old(self).spec_callbacks().insert(
                CALLBACK_MOUSE_SCROLLED,
                CallbackTypes::PointCallback { callback },
            ),
            final(self).spec_config() == old(self).spec_config(),
            final(self).spec_widget_id() == old(self).spec_widget_id(),
            old(self).differs_in_callbacks(final(self)),
    {
        self.callbacks().put(CALLBACK_MOUSE_SCROLLED, CallbackTypes::PointCallback { callback });
    }

    /// Registers the handler to run when the pointer moves within the widget, in place of the
    /// one registered before.
    fn on_mouse_moved(&mut self, callback: u32)
        ensures
            final(self).spec_callbacks() == old(self).spec_callbacks().insert(
                CALLBACK_MOUSE_MOVED,
                CallbackTypes::PointCallback { callback },
            ),
            final(self).spec_config() == old(self).spec_config(),
            final(self).spec_widget_id() == old(self).spec_widget_id(),
            old(self).differs_in_callbacks(final(self)),
    {
        self.callbacks().put(CALLBACK_MOUSE_MOVED, CallbackTypes::PointCallback { callback });
    }

    /// Registers the handler to run when a button goes down over the widget, in place of the
    /// one registered before.
    fn on_mouse_button_down(&mut self, callback: u32)
        ensures
            final(self).spec_callbacks() == old(self).spec_callbacks().insert(
                CALLBACK_MOUSE_BUTTON_DOWN,
                CallbackTypes::ButtonCallback { callback },
            ),
            final(self).spec_config() == old(self).spec_config(),
            final(self).spec_widget_id() == old(self).spec_widget_id(),
            old(self).differs_in_callbacks(final(self)),
    {
        self.callbacks().put(
            CALLBACK_MOUSE_BUTTON_DOWN,
            CallbackTypes::ButtonCallback { callback },
        );
    }

    /// Registers the handler to run when a button comes up inside the widget that it went
    /// down over, in place of the one registered before.
    fn on_mouse_button_up_inside(&mut self, callback: u32)
        ensures
            final(self).spec_callbacks() == old(self).spec_callbacks().insert(
                CALLBACK_MOUSE_BUTTON_UP_INSIDE,
                CallbackTypes::ButtonCallback { callback },
            ),
            final(self).spec_config() == old(self).spec_config(),
            final(self).spec_widget_id() == old(self).spec_widget_id(),
            old(self).differs_in_callbacks(final(self)),
    {
        self.callbacks().put(
            CALLBACK_MOUSE_BUTTON_UP_INSIDE,
            CallbackTypes::ButtonCallback { callback },
        );
    }

    /// Registers the handler to run when a button comes up outside the widget that it went
    /// down over, in place of the one registered before.
    fn on_mouse_button_up_outside(&mut self, callback: u32)
        ensures
            final(self).spec_callbacks() == old(self).spec_callbacks().insert(
                CALLBACK_MOUSE_BUTTON_UP_OUTSIDE,
                CallbackTypes::ButtonCallback { callback },
            ),
            final(self).spec_config() == old(self).spec_config(),
            final(self).spec_widget_id() == old(self).spec_widget_id(),
            old(self).differs_in_callbacks(final(self)),
    {
        self.callbacks().put(
            CALLBACK_MOUSE_BUTTON_UP_OUTSIDE,
            CallbackTypes::ButtonCallback { callback },
        );
    }
}

/// A plain widget: a rectangle in its main colour, and a base for a layer of the display. It
/// holds nothing but its settings, its handlers and its id.
pub struct CanvasWidget {
    config: Configurable,
    callbacks: CallbackStore,
    widget_id: i32,
}

impl CanvasWidget {
    /// A canvas with no settings and no handlers, under the id 0.
    pub fn new() -> (widget: Self)
        ensures
            widget.spec_config() == Map::<u8, Config>::empty(),
            widget.spec_callbacks() == Map::<u32, CallbackTypes>::empty(),
            widget.spec_widget_id() == 0,
    {
        Self { config: Configurable::new(), callbacks: CallbackStore::new(), widget_id: 0 }
    }
}

impl Widget for CanvasWidget {
    closed spec fn spec_config(&self) -> Map<u8, Config> {
        self.config@
    }

    closed spec fn spec_callbacks(&self) -> Map<u32, CallbackTypes> {
        self.callbacks@
    }

    closed spec fn spec_widget_id(&self) -> i32 {
        self.widget_id
    }

    open spec fn differs_in_config(&self, other: &Self) -> bool {
        &&& other.spec_callbacks() == self.spec_callbacks()
        &&& other.spec_widget_id() == self.spec_widget_id()
    }

    open spec fn differs_in_callbacks(&self, other: &Self) -> bool {
        &&& other.spec_config() == self.spec_config()
        &&& other.spec_widget_id() == self.spec_widget_id()
    }

    open spec fn differs_in_widget_id(&self, other: &Self) -> bool {
        &&& other.spec_config() == self.spec_config()
        &&& other.spec_callbacks() == self.spec_callbacks()
    }

    /// A canvas keeps no state of its own: it stays as it is, and answers with the handler
    /// registered for the event's kind.
    open spec fn responds(
        &self,
        injected: bool,
        event: CallbackEvent,
        after: &Self,
        response: EventResponse,
    ) -> bool {
        &&& after.spec_config() == self.spec_config()
        &&& after.spec_callbacks() == self.spec_callbacks()
        &&& after.spec_widget_id() == self.spec_widget_id()
        &&& response == trigger_response(self.spec_callbacks(), injected, event)
    }

    /// A canvas stores the setting and stays as it is otherwise.
    open spec fn configures(&self, key: u8, value: Config, after: &Self) -> bool {
        &&& self.differs_in_config(after)
        &&& after.spec_config() == self.spec_config().insert(key, value)
    }

    /// A canvas fills its body with its main colour.
    open spec fn paints(&self, after: &Self, commands: Seq<DrawCommand>) -> bool {
        &&& self.differs_in_config(after)
        &&& commands =~= seq![
            body_fill(
                size_setting(self.spec_config(), CONFIG_BODY_SIZE),
                color_setting(self.spec_config(), CONFIG_MAIN_COLOR),
            ),
        ]
    }

    fn config(&mut self) -> (config: &mut Configurable) {
        &mut self.config
    }

    fn settings(&self) -> (config: &Configurable) {
        &self.config
    }

    fn callbacks(&mut self) -> (callbacks: &mut CallbackStore) {
        &mut self.callbacks
    }

    fn handlers(&self) -> (callbacks: &CallbackStore) {
        &self.callbacks
    }

    fn set_widget_id(&mut self, widget_id: i32) {
        self.widget_id = widget_id;
    }

    fn get_widget_id(&self) -> (widget_id: i32) {
        self.widget_id
    }

    fn handle_event(&mut self, injected: bool, event: CallbackEvent) -> (response: EventResponse) {
        self.trigger(injected, event)
    }

    fn draw(&mut self) -> (commands: Vec<DrawCommand>) {
        let size = self.get_size();
        let color = self.get_color();
        self.clear_invalidate();
        vec![DrawCommand::Rectangle { origin: Point { x: 0, y: 0 }, size, color }]
    }

    fn set_config(&mut self, key: u8, value: Config) {
        self.config.set(key, value);
    }
}

} // verus!
