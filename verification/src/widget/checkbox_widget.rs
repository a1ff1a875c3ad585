use crate::engine::callbacks::{
    no_response, toggle_call, CallbackEvent, CallbackStore, CallbackTypes, EventResponse,
    CALLBACK_SELECTED,
};
use crate::engine::input::{button_is_left, is_left_button};
use crate::engine::point::{Point, Size};
use crate::widget::box_widget::BoxWidget;
use crate::widget::config::{
    color_setting, size_setting, Config, Configurable, CONFIG_BODY_SIZE, CONFIG_INVALIDATE,
    CONFIG_MAIN_COLOR, CONFIG_ORIGIN, CONFIG_WIDGET_HIDDEN,
};
use crate::widget::drawable::{body_fill, DrawCommand, TextJustify};
use crate::widget::image_widget::ImageWidget;
use crate::widget::text_widget::TextWidget;
use crate::widget::widget::Widget;
use vstd::prelude::*;

verus! {

/// The side of the mark of a checkbox where the checkbox is high enough for it.
pub const CHECKBOX_MARK_SIZE: i32 = 32;

/// The height that a checkbox reads back after `value` was stored as its extent: the height of
/// an extent, and 0 for any other value.
pub open spec fn stored_height(value: Config) -> i32 {
    match value {
        Config::Size(size) => size.h,
        _ => 0,
    }
}

/// The settings of a checkbox's mark after `value` was stored under `key` on the checkbox. Only
/// the checkbox's extent matters to the mark. In a checkbox lower than the mark's full side the
/// mark is a square of the checkbox's height; in any other the mark has its full side and stands
/// halfway down.
pub open spec fn mark_settings(before: Map<u8, Config>, key: u8, value: Config) -> Map<
    u8,
    Config,
> {
    let h = stored_height(value);
    if key != CONFIG_BODY_SIZE {
        before
    } else if h < CHECKBOX_MARK_SIZE {
        before.insert(CONFIG_BODY_SIZE, Config::Size(Size { w: h, h }))
    } else {
        before.insert(
            CONFIG_ORIGIN,
            Config::Point(Point { x: 0, y: ((h - CHECKBOX_MARK_SIZE) / 2) as i32 }),
        ).insert(
            CONFIG_BODY_SIZE,
            Config::Size(Size { w: CHECKBOX_MARK_SIZE, h: CHECKBOX_MARK_SIZE }),
        )
    }
}

/// Whether `event` toggles a checkbox: the release of the left button inside it, unless
/// injected.
pub open spec fn checkbox_toggles(injected: bool, event: CallbackEvent) -> bool {
    !injected && (event matches CallbackEvent::MouseButtonUpInside { button, .. }
        && is_left_button(button))
}

/// What a checkbox that is `selected` answers to `event`. Where the event toggles it, it gives
/// a `WidgetSelected` with the event's id and button and the new selection, and asks for the
/// handler registered for selections, with its own id and the new selection. It answers
/// nothing otherwise.
pub open spec fn checkbox_response(
    selected: bool,
    registry: Map<u32, CallbackTypes>,
    own_id: i32,
    injected: bool,
    event: CallbackEvent,
) -> EventResponse {
    if checkbox_toggles(injected, event) {
        match event {
            CallbackEvent::MouseButtonUpInside { widget_id, button } => EventResponse {
                derived: Some(
                    CallbackEvent::WidgetSelected { widget_id, button, selected: !selected },
                ),
                call: toggle_call(registry, CALLBACK_SELECTED, own_id, !selected),
            },
            _ => no_response(),
        }
    } else {
        no_response()
    }
}

/// A box that can be ticked, with a line of text beside it.
pub struct CheckboxWidget {
    config: Configurable,
    base_widget: BoxWidget,
    text_widget: TextWidget,
    selected: bool,
    selected_widget: ImageWidget,
    unselected_widget: ImageWidget,
    widget_id: i32,
    callbacks: CallbackStore,
}

impl CheckboxWidget {
    /// Whether the box is ticked.
    pub closed spec fn spec_selected(&self) -> bool {
        self.selected
    }

    /// The settings of the checkbox's body.
    pub closed spec fn base_settings(&self) -> Map<u8, Config> {
        self.base_widget@
    }

    /// The settings of the checkbox's text.
    pub closed spec fn text_settings(&self) -> Map<u8, Config> {
        self.text_widget@
    }

    /// The checkbox's text.
    pub closed spec fn spec_text_widget(&self) -> TextWidget {
        self.text_widget
    }

    /// The mark of a ticked box.
    pub closed spec fn spec_selected_widget(&self) -> ImageWidget {
        self.selected_widget
    }

    /// The mark of an empty box.
    pub closed spec fn spec_unselected_widget(&self) -> ImageWidget {
        self.unselected_widget
    }

    /// Whether `other` has this checkbox's id, handlers, line of text and images.
    pub open spec fn same_core(&self, other: &Self) -> bool {
        &&& other.spec_widget_id() == self.spec_widget_id()
        &&& other.spec_callbacks() == self.spec_callbacks()
        &&& self.spec_text_widget().same_text(&other.spec_text_widget())
        &&& other.spec_selected_widget().spec_image_name()
            == self.spec_selected_widget().spec_image_name()
        &&& other.spec_unselected_widget().spec_image_name()
            == self.spec_unselected_widget().spec_image_name()
    }

    /// Whether `other` has the settings that this checkbox has on its body, its text and its
    /// two marks.
    pub open spec fn same_parts(&self, other: &Self) -> bool {
        &&& other.base_settings() == self.base_settings()
        &&& other.text_settings() == self.text_settings()
        &&& other.spec_selected_widget()@ == self.spec_selected_widget()@
        &&& other.spec_unselected_widget()@ == self.spec_unselected_widget()@
    }

    /// What a checkbox in this state paints: its body, then its own extent in its main colour.
    pub open spec fn draw_commands(&self) -> Seq<DrawCommand> {
        seq![
            body_fill(
                size_setting(self.base_settings(), CONFIG_BODY_SIZE),
                color_setting(self.base_settings(), CONFIG_MAIN_COLOR),
            ),
            body_fill(
                size_setting(self.spec_config(), CONFIG_BODY_SIZE),
                color_setting(self.spec_config(), CONFIG_MAIN_COLOR),
            ),
        ]
    }

    /// A checkbox with the line `text` in the named font, ticked where `selected`. Both marks
    /// start at `(2, 2)`; the mark of a ticked box is hidden, that of an empty box is not.
    /// Nothing else is set, and no handler is registered.
    pub fn new(
        font_name: String,
        text: String,
        font_size: u32,
        justify: TextJustify,
        selected: bool,
    ) -> (widget: Self)
        ensures
            widget.spec_selected() == selected,
            widget.spec_widget_id() == 0,
            widget.spec_config() == Map::<u8, Config>::empty(),
            widget.spec_callbacks() == Map::<u32, CallbackTypes>::empty(),
            widget.base_settings() == Map::<u8, Config>::empty(),
            widget.text_settings() == Map::<u8, Config>::empty(),
            widget.spec_text_widget().spec_font_name() == font_name,
            widget.spec_text_widget().spec_text() == text,
            widget.spec_text_widget().spec_font_size() == font_size,
            widget.spec_text_widget().spec_justify() == justify,
            widget.spec_selected_widget().spec_image_name()@ == "checkbox_selected.png"@,
            widget.spec_selected_widget()@ == Map::<u8, Config>::empty().insert(
                CONFIG_ORIGIN,
                Config::Point(Point { x: 2, y: 2 }),
            ).insert(CONFIG_WIDGET_HIDDEN, Config::Toggle(true)),
            widget.spec_unselected_widget().spec_image_name()@ == "checkbox_unselected.png"@,
            widget.spec_unselected_widget()@ == Map::<u8, Config>::empty().insert(
                CONFIG_ORIGIN,
                Config::Point(Point { x: 2, y: 2 }),
            ).insert(CONFIG_WIDGET_HIDDEN, Config::Toggle(false)),
    {
        let mut selected_widget = ImageWidget::new("checkbox_selected.png".to_string());
        selected_widget.set_point(CONFIG_ORIGIN, 2, 2);
        selected_widget.set_toggle(CONFIG_WIDGET_HIDDEN, true);

        let mut unselected_widget = ImageWidget::new("checkbox_unselected.png".to_string());
        unselected_widget.set_point(CONFIG_ORIGIN, 2, 2);
        unselected_widget.set_toggle(CONFIG_WIDGET_HIDDEN, false);

        let text_widget = TextWidget::new(font_name, text, font_size, justify);

        Self {
            config: Configurable::new(),
            base_widget: BoxWidget::new(),
            text_widget,
            selected,
            selected_widget,
            unselected_widget,
            widget_id: 0,
            callbacks: CallbackStore::new(),
        }
    }

    /// The checkbox's body, to read it.
    pub fn base_widget(&self) -> (base: &BoxWidget)
        ensures
            base@ == self.base_settings(),
    {
        &self.base_widget
    }

    /// The checkbox's text, to read it.
    pub fn text_widget(&self) -> (text: &TextWidget)
        ensures
            *text == self.spec_text_widget(),
            text@ == self.text_settings(),
    {
        &self.text_widget
    }

    /// The mark of a ticked box, to read it.
    pub fn selected_widget(&self) -> (mark: &ImageWidget)
        ensures
            *mark == self.spec_selected_widget(),
    {
        &self.selected_widget
    }

    /// The mark of an empty box, to read it.
    pub fn unselected_widget(&self) -> (mark: &ImageWidget)
        ensures
            *mark == self.spec_unselected_widget(),
    {
        &self.unselected_widget
    }

    /// Registers the handler to run when the box is ticked or emptied, in place of the one
    /// registered before.
    pub fn on_selected(&mut self, callback: u32)
        ensures
            final(self).spec_callbacks() == old(self).spec_callbacks().insert(
                CALLBACK_SELECTED,
                CallbackTypes::ToggleCallback { callback },
            ),
            old(self).differs_in_callbacks(final(self)),
    {
        self.callbacks.put(CALLBACK_SELECTED, CallbackTypes::ToggleCallback { callback });
    }

    /// Whether the box is ticked.
    pub fn is_selected(&self) -> (selected: bool)
        ensures
            selected == self.spec_selected(),
    {
        self.selected
    }
}

impl Widget for CheckboxWidget {
    closed spec fn spec_config(&self) -> Map<u8, Config> {
        self.config@
    }

    closed spec fn spec_callbacks(&self) -> Map<u32, CallbackTypes> {
        self.callbacks@
    }

    closed spec fn spec_widget_id(&self) -> i32 {
        self.widget_id
    }

    open spec fn differs_in_config(&self, other: &Self) -> bool {
        &&& self.same_parts(other)
        &&& self.same_core(other)
        &&& other.spec_selected() == self.spec_selected()
    }

    open spec fn differs_in_callbacks(&self, other: &Self) -> bool {
        &&& self.same_parts(other)
        &&& other.spec_selected() == self.spec_selected()
        &&& other.spec_config() == self.spec_config()
        &&& other.spec_widget_id() == self.spec_widget_id()
        &&& self.spec_text_widget().same_text(&other.spec_text_widget())
        &&& other.spec_selected_widget().spec_image_name()
            == self.spec_selected_widget().spec_image_name()
        &&& other.spec_unselected_widget().spec_image_name()
            == self.spec_unselected_widget().spec_image_name()
    }

    open spec fn differs_in_widget_id(&self, other: &Self) -> bool {
        &&& self.same_parts(other)
        &&& other.spec_selected() == self.spec_selected()
        &&& other.spec_config() == self.spec_config()
        &&& other.spec_callbacks() == self.spec_callbacks()
        &&& self.spec_text_widget().same_text(&other.spec_text_widget())
        &&& other.spec_selected_widget().spec_image_name()
            == self.spec_selected_widget().spec_image_name()
        &&& other.spec_unselected_widget().spec_image_name()
            == self.spec_unselected_widget().spec_image_name()
    }

    /// The release of the left button inside a checkbox toggles it, marks it for a redraw and
    /// gives a `WidgetSelected`. Any other event leaves the checkbox as it is.
    open spec fn responds(
        &self,
        injected: bool,
        event: CallbackEvent,
        after: &Self,
        response: EventResponse,
    ) -> bool {
        &&& after.spec_selected() == (if checkbox_toggles(injected, event) {
            !self.spec_selected()
        } else {
            self.spec_selected()
        })
        &&& after.spec_config() == (if checkbox_toggles(injected, event) {
            self.spec_config().insert(CONFIG_INVALIDATE, Config::Toggle(true))
        } else {
            self.spec_config()
        })
        &&& self.same_parts(after)
        &&& self.same_core(after)
        &&& response == checkbox_response(
            self.spec_selected(),
            self.spec_callbacks(),
            self.spec_widget_id(),
            injected,
            event,
        )
    }

    /// A checkbox stores the setting on itself, on its body and on its text. A new extent
    /// also sizes and places the two marks.
    open spec fn configures(&self, key: u8, value: Config, after: &Self) -> bool {
        &&& after.spec_config() == self.spec_config().insert(key, value)
        &&& after.base_settings() == self.base_settings().insert(key, value)
        &&& after.text_settings() == self.text_settings().insert(key, value)
        &&& after.spec_selected_widget()@ == mark_settings(
            self.spec_selected_widget()@,
            key,
            value,
        )
        &&& after.spec_unselected_widget()@ == mark_settings(
            self.spec_unselected_widget()@,
            key,
            value,
        )
        &&& after.spec_selected() == self.spec_selected()
        &&& self.same_core(after)
    }

    /// A checkbox paints its body, then its own extent; that clears the mark on the checkbox
    /// and on its body.
    open spec fn paints(&self, after: &Self, commands: Seq<DrawCommand>) -> bool {
        &&& commands =~= self.draw_commands()
        &&& after.base_settings() == self.base_settings().remove(CONFIG_INVALIDATE)
        &&& after.text_settings() == self.text_settings()
        &&& after.spec_selected_widget()@ == self.spec_selected_widget()@
        &&& after.spec_unselected_widget()@ == self.spec_unselected_widget()@
        &&& after.spec_selected() == self.spec_selected()
        &&& self.same_core(after)
    }

    fn config(&mut self) -> (config: &mut Configurable) {
        &mut self.config
    }

    fn settings(&self) -> (config: &Configurable) {
        &self.config
    }

    fn callbacks(&mut self) -> (callbacks: &mut CallbackStore) {
        &mut self.callbacks
    }

    fn handlers(&self) -> (callbacks: &CallbackStore) {
        &self.callbacks
    }

    fn set_widget_id(&mut self, widget_id: i32) {
        self.widget_id = widget_id;
    }

    fn get_widget_id(&self) -> (widget_id: i32) {
        self.widget_id
    }

    fn set_config(&mut self, key: u8, value: Config) {
        self.config.set(key, value);
        self.base_widget.set_config(key, value);
        self.text_widget.set_config(key, value);

        if key == CONFIG_BODY_SIZE {
            let size = self.config.get_size(CONFIG_BODY_SIZE);

            if size.h < CHECKBOX_MARK_SIZE {
                self.selected_widget.set_size(CONFIG_BODY_SIZE, size.h, size.h);
                self.unselected_widget.set_size(CONFIG_BODY_SIZE, size.h, size.h);
            } else {
                let top: i32 = (size.h - CHECKBOX_MARK_SIZE) / 2;
                self.selected_widget.set_point(CONFIG_ORIGIN, 0, top);
                self.selected_widget.set_size(
                    CONFIG_BODY_SIZE,
                    CHECKBOX_MARK_SIZE,
                    CHECKBOX_MARK_SIZE,
                );
                self.unselected_widget.set_point(CONFIG_ORIGIN, 0, top);
                self.unselected_widget.set_size(
                    CONFIG_BODY_SIZE,
                    CHECKBOX_MARK_SIZE,
                    CHECKBOX_MARK_SIZE,
                );
            }
        }
    }

    fn handle_event(&mut self, injected: bool, event: CallbackEvent) -> (response: EventResponse) {
        if !injected {
            match event {
                CallbackEvent::MouseButtonUpInside { widget_id, button } => {
                    if button_is_left(button) {
                        self.selected = !self.selected;
                        self.config.set(CONFIG_INVALIDATE, Config::Toggle(true));
                        let call = self.perform_toggle_callback(
                            CALLBACK_SELECTED,
                            self.widget_id,
                            self.selected,
                        );
                        return EventResponse {
                            derived: Some(
                                CallbackEvent::WidgetSelected {
                                    widget_id,
                                    button,
                                    selected: self.selected,
                                },
                            ),
                            call,
                        };
                    }
                },
                _ => (),
            }
        }
        EventResponse { derived: None, call: None }
    }

    fn draw(&mut self) -> (commands: Vec<DrawCommand>) {
        let mut commands = self.base_widget.draw();
        let size = self.config.get_size(CONFIG_BODY_SIZE);
        let color = self.config.get_color(CONFIG_MAIN_COLOR);
        commands.push(DrawCommand::Rectangle { origin: Point { x: 0, y: 0 }, size, color });
        self.config.remove(CONFIG_INVALIDATE);
        commands
    }
}

} // verus!
