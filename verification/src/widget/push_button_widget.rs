use crate::engine::callbacks::{
    no_response, point_call, single_call, CallbackCall, CallbackEvent, CallbackStore,
    CallbackTypes, EventResponse, CALLBACK_CLICKED, CALLBACK_MOUSE_MOVED,
};
use crate::engine::input::{button_is_left, is_left_button};
use crate::engine::point::Point;
use crate::widget::box_widget::BoxWidget;
use crate::widget::config::{
    color_setting, size_setting, white, Color, Config, Configurable, CONFIG_BODY_SIZE,
    CONFIG_INVALIDATE, CONFIG_MAIN_COLOR, CONFIG_TEXT_COLOR,
};
use crate::widget::drawable::{body_fill, DrawCommand, TextJustify};
use crate::widget::text_widget::TextWidget;
use crate::widget::widget::Widget;
use vstd::prelude::*;

verus! {

/// Where a push button stands between the pointer's arrival and a click.
#[derive(Clone, Copy, Debug, PartialEq, Eq, Structural)]
pub enum PushButtonState {
    /// The pointer is elsewhere.
    Idle,
    /// The pointer is over the button.
    Hovered,
    /// The left button went down over the button and has not come up.
    Pressed,
}

/// What an event does to the look of a push button.
#[derive(Clone, Copy, Debug, PartialEq, Eq, Structural)]
pub enum PushButtonLook {
    /// The look stays.
    Kept,
    /// The body turns black and the text white.
    Inverted,
    /// The body turns white and the text black.
    Restored,
}

/// Opaque black.
pub open spec fn black() -> Color {
    Color { r: 0, g: 0, b: 0, a: 255 }
}

/// White that lets everything through.
pub open spec fn clear_white() -> Color {
    Color { r: 255, g: 255, b: 255, a: 0 }
}

/// The state that a push button in `state` goes to on `event`. Only five pairs of state and
/// event move it; an injected event never does.
pub open spec fn push_button_next(
    state: PushButtonState,
    injected: bool,
    event: CallbackEvent,
) -> PushButtonState {
    if injected {
        state
    } else {
        match (state, event) {
            (PushButtonState::Idle, CallbackEvent::MouseEntered { .. }) => PushButtonState::Hovered,
            (PushButtonState::Hovered, CallbackEvent::MouseExited { .. }) => PushButtonState::Idle,
            (PushButtonState::Hovered, CallbackEvent::MouseButtonDown { button, .. }) => {
                if is_left_button(button) {
                    PushButtonState::Pressed
                } else {
                    state
                }
            },
            (PushButtonState::Pressed, CallbackEvent::MouseButtonUpInside { button, .. }) => {
                if is_left_button(button) {
                    PushButtonState::Hovered
                } else {
                    state
                }
            },
            (PushButtonState::Pressed, CallbackEvent::MouseButtonUpOutside { button, .. }) => {
                if is_left_button(button) {
                    PushButtonState::Idle
                } else {
                    state
                }
            },
            _ => state,
        }
    }
}

/// What `event` does to the look of a push button in `state`: going to `Pressed` inverts it,
/// leaving `Pressed` restores it.
pub open spec fn push_button_look(
    state: PushButtonState,
    injected: bool,
    event: CallbackEvent,
) -> PushButtonLook {
    let next = push_button_next(state, injected, event);
    if next == state {
        PushButtonLook::Kept
    } else if next == PushButtonState::Pressed {
        PushButtonLook::Inverted
    } else if state == PushButtonState::Pressed {
        PushButtonLook::Restored
    } else {
        PushButtonLook::Kept
    }
}

/// What a push button in `state` answers to `event`. A move of the pointer asks for the handler
/// registered for moves. The release of the left button inside a pressed button is a click: it
/// asks for the handler registered for clicks and gives a `WidgetClicked` with the event's id
/// and button.
pub open spec fn push_button_response(
    state: PushButtonState,
    registry: Map<u32, CallbackTypes>,
    own_id: i32,
    injected: bool,
    event: CallbackEvent,
) -> EventResponse {
    if injected {
        no_response()
    } else {
        match event {
            CallbackEvent::MouseMoved { point, .. } => EventResponse {
                derived: None,
                call: point_call(registry, CALLBACK_MOUSE_MOVED, own_id, point),
            },
            CallbackEvent::MouseButtonUpInside { widget_id, button } => {
                if state == PushButtonState::Pressed && is_left_button(button) {
                    EventResponse {
                        derived: Some(CallbackEvent::WidgetClicked { widget_id, button }),
                        call: single_call(registry, CALLBACK_CLICKED, own_id),
                    }
                } else {
                    no_response()
                }
            },
            _ => no_response(),
        }
    }
}

/// A button with a line of text that gives a `WidgetClicked` when it is clicked.
pub struct PushButtonWidget {
    config: Configurable,
    base_widget: BoxWidget,
    text_widget: TextWidget,
    state: PushButtonState,
    widget_id: i32,
    callbacks: CallbackStore,
}

impl PushButtonWidget {
    /// Where the button stands.
    pub closed spec fn spec_state(&self) -> PushButtonState {
        self.state
    }

    /// The settings of the button's body.
    pub closed spec fn base_settings(&self) -> Map<u8, Config> {
        self.base_widget@
    }

    /// The settings of the button's text.
    pub closed spec fn text_settings(&self) -> Map<u8, Config> {
        self.text_widget@
    }

    /// The button's text.
    pub closed spec fn spec_text_widget(&self) -> TextWidget {
        self.text_widget
    }

    /// What a button in this state paints: its body, then its text.
    pub open spec fn draw_commands(&self) -> Seq<DrawCommand> {
        seq![
            body_fill(
                size_setting(self.base_settings(), CONFIG_BODY_SIZE),
                color_setting(self.base_settings(), CONFIG_MAIN_COLOR),
            ),
            self.spec_text_widget().text_command(),
        ]
    }

    /// Whether `after` has the look that `look` makes of this button's look. A change of look
    /// marks the button for a redraw.
    pub open spec fn look_becomes(&self, look: PushButtonLook, after: &Self) -> bool {
        match look {
            PushButtonLook::Kept => {
                &&& after.spec_config() == self.spec_config()
                &&& after.base_settings() == self.base_settings()
                &&& after.text_settings() == self.text_settings()
            },
            PushButtonLook::Inverted => {
                &&& after.spec_config() == self.spec_config().insert(
                    CONFIG_INVALIDATE,
                    Config::Toggle(true),
                )
                &&& after.base_settings() == self.base_settings().insert(
                    CONFIG_MAIN_COLOR,
                    Config::Color(black()),
                )
                &&& after.text_settings() == self.text_settings().insert(
                    CONFIG_TEXT_COLOR,
                    Config::Color(white()),
                )
            },
            PushButtonLook::Restored => {
                &&& after.spec_config() == self.spec_config().insert(
                    CONFIG_INVALIDATE,
                    Config::Toggle(true),
                )
                &&& after.base_settings() == self.base_settings().insert(
                    CONFIG_MAIN_COLOR,
                    Config::Color(white()),
                )
                &&& after.text_settings() == self.text_settings().insert(
                    CONFIG_TEXT_COLOR,
                    Config::Color(black()),
                )
            },
        }
    }

    /// Whether `other` has this button's body and text, with the settings of both.
    pub open spec fn same_parts(&self, other: &Self) -> bool {
        &&& other.base_settings() == self.base_settings()
        &&& other.text_settings() == self.text_settings()
        &&& self.spec_text_widget().same_text(&other.spec_text_widget())
    }

    /// Whether `other` has this button's state, id, handlers and line of text.
    pub open spec fn same_core(&self, other: &Self) -> bool {
        &&& other.spec_state() == self.spec_state()
        &&& other.spec_widget_id() == self.spec_widget_id()
        &&& other.spec_callbacks() == self.spec_callbacks()
        &&& self.spec_text_widget().same_text(&other.spec_text_widget())
    }

    /// An idle button with the line `text` in the named font. Its text has a main colour of
    /// white that lets everything through; nothing else is set, and no handler is registered.
    pub fn new(font_name: String, text: String, font_size: u32, justify: TextJustify) -> (widget:
        Self)
        ensures
            widget.spec_state() == PushButtonState::Idle,
            widget.spec_widget_id() == 0,
            widget.spec_config() == Map::<u8, Config>::empty(),
            widget.spec_callbacks() == Map::<u32, CallbackTypes>::empty(),
            widget.base_settings() == Map::<u8, Config>::empty(),
            widget.text_settings() == Map::<u8, Config>::empty().insert(
                CONFIG_MAIN_COLOR,
                Config::Color(clear_white()),
            ),
            widget.spec_text_widget().spec_font_name() == font_name,
            widget.spec_text_widget().spec_text() == text,
            widget.spec_text_widget().spec_font_size() == font_size,
            widget.spec_text_widget().spec_justify() == justify,
    {
        let mut text_widget = TextWidget::new(font_name, text, font_size, justify);
        text_widget.set_color(CONFIG_MAIN_COLOR, Color { r: 255, g: 255, b: 255, a: 0 });
        Self {
            config: Configurable::new(),
            base_widget: BoxWidget::new(),
            text_widget,
            state: PushButtonState::Idle,
            widget_id: 0,
            callbacks: CallbackStore::new(),
        }
    }

    /// Where the button stands.
    pub fn state(&self) -> (state: PushButtonState)
        ensures
            state == self.spec_state(),
    {
        self.state
    }

    /// The button's body, to read it.
    pub fn base_widget(&self) -> (base: &BoxWidget)
        ensures
            base@ == self.base_settings(),
    {
        &self.base_widget
    }

    /// The button's text, to read it.
    pub fn text_widget(&self) -> (text: &TextWidget)
        ensures
            *text == self.spec_text_widget(),
            text@ == self.text_settings(),
    {
        &self.text_widget
    }

    /// Turns the body black and the text white, and marks the button for a redraw.
    fn draw_hovered(&mut self)
        ensures
            old(self).look_becomes(PushButtonLook::Inverted, final(self)),
            old(self).same_core(final(self)),
    {
        self.base_widget.set_color(CONFIG_MAIN_COLOR, Color { r: 0, g: 0, b: 0, a: 255 });
        self.text_widget.set_color(CONFIG_TEXT_COLOR, Color { r: 255, g: 255, b: 255, a: 255 });
        self.config.set(CONFIG_INVALIDATE, Config::Toggle(true));
    }

    /// Turns the body white and the text black, and marks the button for a redraw.
    fn draw_unhovered(&mut self)
        ensures
            old(self).look_becomes(PushButtonLook::Restored, final(self)),
            old(self).same_core(final(self)),
    {
        self.base_widget.set_color(CONFIG_MAIN_COLOR, Color { r: 255, g: 255, b: 255, a: 255 });
        self.text_widget.set_color(CONFIG_TEXT_COLOR, Color { r: 0, g: 0, b: 0, a: 255 });
        self.config.set(CONFIG_INVALIDATE, Config::Toggle(true));
    }

    /// Registers the handler to run when the button is clicked, in place of the one registered
    /// before.
    pub fn on_click(&mut self, callback: u32)
        ensures
            final(self).spec_callbacks() == old(self).spec_callbacks().insert(
                CALLBACK_CLICKED,
                CallbackTypes::SingleCallback { callback },
            ),
            old(self).differs_in_callbacks(final(self)),
    {
        self.callbacks.put(CALLBACK_CLICKED, CallbackTypes::SingleCallback { callback });
    }

    /// The call of the handler registered for clicks, with the button's own id, if one is
    /// registered.
    pub fn click(&self) -> (call: Option<CallbackCall>)
        ensures
            call == single_call(self.spec_callbacks(), CALLBACK_CLICKED, self.spec_widget_id()),
    {
        self.perform_single_callback(CALLBACK_CLICKED, self.widget_id)
    }

    /// The call of the handler registered for moves of the pointer, with the button's own id
    /// and the pointer's position, if one is registered.
    pub fn mouse_moved(&self, point: Point) -> (call: Option<CallbackCall>)
        ensures
            call == point_call(
                self.spec_callbacks(),
                CALLBACK_MOUSE_MOVED,
                self.spec_widget_id(),
                point,
            ),
    {
        self.perform_point_callback(CALLBACK_MOUSE_MOVED, self.widget_id, point)
    }
}

impl Widget for PushButtonWidget {
    closed spec fn spec_config(&self) -> Map<u8, Config> {
        self.config@
    }

    closed spec fn spec_callbacks(&self) -> Map<u32, CallbackTypes> {
        self.callbacks@
    }

    closed spec fn spec_widget_id(&self) -> i32 {
        self.widget_id
    }

    open spec fn differs_in_config(&self, other: &Self) -> bool {
        &&& self.same_parts(other)
        &&& other.spec_state() == self.spec_state()
        &&& other.spec_callbacks() == self.spec_callbacks()
        &&& other.spec_widget_id() == self.spec_widget_id()
    }

    open spec fn differs_in_callbacks(&self, other: &Self) -> bool {
        &&& self.same_parts(other)
        &&& other.spec_state() == self.spec_state()
        &&& other.spec_config() == self.spec_config()
        &&& other.spec_widget_id() == self.spec_widget_id()
    }

    open spec fn differs_in_widget_id(&self, other: &Self) -> bool {
        &&& self.same_parts(other)
        &&& other.spec_state() == self.spec_state()
        &&& other.spec_config() == self.spec_config()
        &&& other.spec_callbacks() == self.spec_callbacks()
    }

    /// A push button moves between its states as `push_button_next` says, changes its look as
    /// `push_button_look` says, and answers as `push_button_response` says. Its id, its
    /// handlers and its line of text stay.
    open spec fn responds(
        &self,
        injected: bool,
        event: CallbackEvent,
        after: &Self,
        response: EventResponse,
    ) -> bool {
        &&& after.spec_state() == push_button_next(self.spec_state(), injected, event)
        &&& self.look_becomes(push_button_look(self.spec_state(), injected, event), after)
        &&& after.spec_widget_id() == self.spec_widget_id()
        &&& after.spec_callbacks() == self.spec_callbacks()
        &&& self.spec_text_widget().same_text(&after.spec_text_widget())
        &&& response == push_button_response(
            self.spec_state(),
            self.spec_callbacks(),
            self.spec_widget_id(),
            injected,
            event,
        )
    }

    /// A push button stores the setting on itself, on its body and on its text.
    open spec fn configures(&self, key: u8, value: Config, after: &Self) -> bool {
        &&& after.spec_config() == self.spec_config().insert(key, value)
        &&& after.base_settings() == self.base_settings().insert(key, value)
        &&& after.text_settings() == self.text_settings().insert(key, value)
        &&& self.same_core(after)
    }

    /// A push button paints its body, then its text; that clears the mark on all three.
    open spec fn paints(&self, after: &Self, commands: Seq<DrawCommand>) -> bool {
        &&& commands =~= self.draw_commands()
        &&& after.base_settings() == self.base_settings().remove(CONFIG_INVALIDATE)
        &&& after.text_settings() == self.text_settings().remove(CONFIG_INVALIDATE)
        &&& self.same_core(after)
    }

    fn config(&mut self) -> (config: &mut Configurable) {
        &mut self.config
    }

    fn settings(&self) -> (config: &Configurable) {
        &self.config
    }

    fn callbacks(&mut self) -> (callbacks: &mut CallbackStore) {
        &mut self.callbacks
    }

    fn handlers(&self) -> (callbacks: &CallbackStore) {
        &self.callbacks
    }

    fn set_widget_id(&mut self, widget_id: i32) {
        self.widget_id = widget_id;
    }

    fn get_widget_id(&self) -> (widget_id: i32) {
        self.widget_id
    }

    fn set_config(&mut self, key: u8, value: Config) {
        self.config.set(key, value);
        self.base_widget.set_config(key, value);
        self.text_widget.set_config(key, value);
    }

    fn handle_event(&mut self, injected: bool, event: CallbackEvent) -> (response: EventResponse) {
        if !injected {
            match event {
                CallbackEvent::MouseEntered { widget_id: _ } => {
                    if self.state == PushButtonState::Idle {
                        self.state = PushButtonState::Hovered;
                    }
                },
                CallbackEvent::MouseExited { widget_id: _ } => {
                    if self.state == PushButtonState::Hovered {
                        self.state = PushButtonState::Idle;
                    }
                },
                CallbackEvent::MouseMoved { widget_id: _, point } => {
                    let call = self.mouse_moved(point);
                    return EventResponse { derived: None, call };
                },
                CallbackEvent::MouseButtonDown { widget_id: _, button } => {
                    if self.state == PushButtonState::Hovered && button_is_left(button) {
                        self.draw_hovered();
                        self.state = PushButtonState::Pressed;
                    }
                },
                CallbackEvent::MouseButtonUpInside { widget_id, button } => {
                    if self.state == PushButtonState::Pressed && button_is_left(button) {
                        self.draw_unhovered();
                        self.state = PushButtonState::Hovered;
                        let call = self.click();
                        return EventResponse {
                            derived: Some(CallbackEvent::WidgetClicked { widget_id, button }),
                            call,
                        };
                    }
                },
                CallbackEvent::MouseButtonUpOutside { widget_id: _, button } => {
                    if self.state == PushButtonState::Pressed && button_is_left(button) {
                        self.draw_unhovered();
                        self.state = PushButtonState::Idle;
                    }
                },
                _ => (),
            }
        }
        EventResponse { derived: None, call: None }
    }

    fn draw(&mut self) -> (commands: Vec<DrawCommand>) {
        let mut commands = self.base_widget.draw();
        let mut text_commands = self.text_widget.draw();
        commands.append(&mut text_commands);
        self.config.remove(CONFIG_INVALIDATE);
        commands
    }
}

} // verus!
