use crate::engine::input::{Button, ButtonState, Key};
use crate::engine::point::Point;
use std::collections::HashMap;
use vstd::prelude::*;

verus! {

broadcast use vstd::std_specs::hash::group_hash_axioms;

/// The kind of callback that runs when a key goes down or comes up over a widget.
pub const CALLBACK_KEY_PRESSED: u32 = 0;

/// The kind of callback that runs when the pointer enters a widget.
pub const CALLBACK_MOUSE_ENTERED: u32 = 1;

/// The kind of callback that runs when the pointer leaves a widget.
pub const CALLBACK_MOUSE_EXITED: u32 = 2;

/// The kind of callback that runs when the wheel turns over a widget.
pub const CALLBACK_MOUSE_SCROLLED: u32 = 3;

/// The kind of callback that runs when the pointer moves over a widget.
pub const CALLBACK_MOUSE_MOVED: u32 = 4;

/// The kind of callback that runs when a button goes down over a widget.
pub const CALLBACK_MOUSE_BUTTON_DOWN: u32 = 5;

/// The kind of callback that runs when a button comes up inside the widget it went down in.
pub const CALLBACK_MOUSE_BUTTON_UP_INSIDE: u32 = 6;

/// The kind of callback that runs when a button comes up outside the widget it went down in.
pub const CALLBACK_MOUSE_BUTTON_UP_OUTSIDE: u32 = 7;

/// The kind of callback that runs when a widget was clicked.
pub const CALLBACK_CLICKED: u32 = 8;

/// The kind of callback that runs when a widget was selected or unselected.
pub const CALLBACK_SELECTED: u32 = 9;

/// An event addressed to one widget, or produced by one.
#[derive(Clone, Copy, Debug, PartialEq, Eq, Structural)]
pub enum CallbackEvent {
    KeyPressed { widget_id: i32, key: Key, state: ButtonState },
    MouseEntered { widget_id: i32 },
    MouseExited { widget_id: i32 },
    MouseScrolled { widget_id: i32, point: Point },
    MouseMoved { widget_id: i32, point: Point },
    MouseButtonDown { widget_id: i32, button: Button },
    MouseButtonUpInside { widget_id: i32, button: Button },
    MouseButtonUpOutside { widget_id: i32, button: Button },
    WidgetClicked { widget_id: i32, button: Button },
    WidgetSelected { widget_id: i32, button: Button, selected: bool },
}

/// The widget that an event is addressed to.
pub open spec fn event_target(event: CallbackEvent) -> i32 {
    match event {
        CallbackEvent::KeyPressed { widget_id, .. } => widget_id,
        CallbackEvent::MouseEntered { widget_id } => widget_id,
        CallbackEvent::MouseExited { widget_id } => widget_id,
        CallbackEvent::MouseScrolled { widget_id, .. } => widget_id,
        CallbackEvent::MouseMoved { widget_id, .. } => widget_id,
        CallbackEvent::MouseButtonDown { widget_id, .. } => widget_id,
        CallbackEvent::MouseButtonUpInside { widget_id, .. } => widget_id,
        CallbackEvent::MouseButtonUpOutside { widget_id, .. } => widget_id,
        CallbackEvent::WidgetClicked { widget_id, .. } => widget_id,
        CallbackEvent::WidgetSelected { widget_id, .. } => widget_id,
    }
}

/// The widget that an event is addressed to.
pub fn target_of(event: &CallbackEvent) -> (widget_id: i32)
    ensures
        widget_id == event_target(*event),
{
    match event {
        CallbackEvent::KeyPressed { widget_id, .. } => *widget_id,
        CallbackEvent::MouseEntered { widget_id } => *widget_id,
        CallbackEvent::MouseExited { widget_id } => *widget_id,
        CallbackEvent::MouseScrolled { widget_id, .. } => *widget_id,
        CallbackEvent::MouseMoved { widget_id, .. } => *widget_id,
        CallbackEvent::MouseButtonDown { widget_id, .. } => *widget_id,
        CallbackEvent::MouseButtonUpInside { widget_id, .. } => *widget_id,
        CallbackEvent::MouseButtonUpOutside { widget_id, .. } => *widget_id,
        CallbackEvent::WidgetClicked { widget_id, .. } => *widget_id,
        CallbackEvent::WidgetSelected { widget_id, .. } => *widget_id,
    }
}

/// A registered handler, by the token under which the application keeps it, together with the
/// arguments that the handler takes.
#[derive(Clone, Copy, Debug, PartialEq, Eq, Structural)]
pub enum CallbackTypes {
    /// Takes the widget's id.
    SingleCallback { callback: u32 },
    /// Takes the widget's id and a position.
    PointCallback { callback: u32 },
    /// Takes the widget's id, a key and the key's state.
    KeyCallback { callback: u32 },
    /// Takes the widget's id and a button.
    ButtonCallback { callback: u32 },
    /// Takes the widget's id and whether the widget is selected.
    ToggleCallback { callback: u32 },
}

/// A handler that is due to run, with its arguments.
#[derive(Clone, Copy, Debug, PartialEq, Eq, Structural)]
pub enum CallbackCall {
    Single { callback: u32, widget_id: i32 },
    Point { callback: u32, widget_id: i32, point: Point },
    Key { callback: u32, widget_id: i32, key: Key, state: ButtonState },
    Button { callback: u32, widget_id: i32, button: Button },
    Toggle { callback: u32, widget_id: i32, selected: bool },
}

/// What a widget answers to an event: an event of its own for the dispatcher to pass on, and a
/// handler to run.
#[derive(Clone, Copy, Debug, PartialEq, Eq, Structural)]
pub struct EventResponse {
    pub derived: Option<CallbackEvent>,
    pub call: Option<CallbackCall>,
}

/// The answer of a widget that ignores an event.
pub open spec fn no_response() -> EventResponse {
    EventResponse { derived: None, call: None }
}

/// The call that a registry asks for under `callback_id`, where a handler that takes the widget's
/// id is registered there.
pub open spec fn single_call(
    registry: Map<u32, CallbackTypes>,
    callback_id: u32,
    widget_id: i32,
) -> Option<CallbackCall> {
    if registry.contains_key(callback_id) {
        match registry[callback_id] {
            CallbackTypes::SingleCallback { callback } => Some(
                CallbackCall::Single { callback, widget_id },
            ),
            _ => None,
        }
    } else {
        None
    }
}

/// The call that a registry asks for under `callback_id`, where a handler that takes the widget's
/// id and a position is registered there.
pub open spec fn point_call(
    registry: Map<u32, CallbackTypes>,
    callback_id: u32,
    widget_id: i32,
    point: Point,
) -> Option<CallbackCall> {
    if registry.contains_key(callback_id) {
        match registry[callback_id] {
            CallbackTypes::PointCallback { callback } => Some(
                CallbackCall::Point { callback, widget_id, point },
            ),
            _ => None,
        }
    } else {
        None
    }
}

/// The call that a registry asks for under `callback_id`, where a handler that takes the widget's
/// id, a key and the key's state is registered there.
pub open spec fn key_call(
    registry: Map<u32, CallbackTypes>,
    callback_id: u32,
    widget_id: i32,
    key: Key,
    state: ButtonState,
) -> Option<CallbackCall> {
    if registry.contains_key(callback_id) {
        match registry[callback_id] {
            CallbackTypes::KeyCallback { callback } => Some(
                CallbackCall::Key { callback, widget_id, key, state },
            ),
            _ => None,
        }
    } else {
        None
    }
}

/// The call that a registry asks for under `callback_id`, where a handler that takes the widget's
/// id and a button is registered there.
pub open spec fn button_call(
    registry: Map<u32, CallbackTypes>,
    callback_id: u32,
    widget_id: i32,
    button: Button,
) -> Option<CallbackCall> {
    if registry.contains_key(callback_id) {
        match registry[callback_id] {
            CallbackTypes::ButtonCallback { callback } => Some(
                CallbackCall::Button { callback, widget_id, button },
            ),
            _ => None,
        }
    } else {
        None
    }
}

/// The call that a registry asks for under `callback_id`, where a handler that takes the widget's
/// id and a selection is registered there.
pub open spec fn toggle_call(
    registry: Map<u32, CallbackTypes>,
    callback_id: u32,
    widget_id: i32,
    selected: bool,
) -> Option<CallbackCall> {
    if registry.contains_key(callback_id) {
        match registry[callback_id] {
            CallbackTypes::ToggleCallback { callback } => Some(
                CallbackCall::Toggle { callback, widget_id, selected },
            ),
            _ => None,
        }
    } else {
        None
    }
}

/// The handlers of one widget: at most one for each kind of callback.
pub struct CallbackStore {
    callbacks: HashMap<u32, CallbackTypes>,
}

impl View for CallbackStore {
    type V = Map<u32, CallbackTypes>;

    closed spec fn view(&self) -> Map<u32, CallbackTypes> {
        self.callbacks@
    }
}

impl CallbackStore {
    /// A registry with no handler.
    pub fn new() -> (store: Self)
        ensures
            store@ == Map::<u32, CallbackTypes>::empty(),
    {
        Self { callbacks: HashMap::new() }
    }

    /// Registers `callback` for the kind `callback_id`, in place of the handler that was
    /// registered for it.
    pub fn put(&mut self, callback_id: u32, callback: CallbackTypes)
        ensures
            final(self)@ == old(self)@.insert(callback_id, callback),
    {
        self.callbacks.insert(callback_id, callback);
    }

    /// The handler registered for the kind `callback_id`, if there is one.
    pub fn get(&self, callback_id: u32) -> (callback: Option<CallbackTypes>)
        ensures
            callback == (if self@.contains_key(callback_id) {
                Some(self@[callback_id])
            } else {
                None
            }),
    {
        match self.callbacks.get(&callback_id) {
            Some(callback) => Some(*callback),
            None => None,
        }
    }

    /// Takes away the handler registered for the kind `callback_id`.
    pub fn remove(&mut self, callback_id: u32)
        ensures
            final(self)@ == old(self)@.remove(callback_id),
    {
        self.callbacks.remove(&callback_id);
    }
}

} // verus!
