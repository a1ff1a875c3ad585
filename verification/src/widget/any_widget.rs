use crate::engine::callbacks::{CallbackEvent, CallbackStore, CallbackTypes, EventResponse};
use crate::widget::checkbox_widget::CheckboxWidget;
use crate::widget::config::{Config, Configurable};
use crate::widget::drawable::DrawCommand;
use crate::widget::push_button_widget::PushButtonWidget;
use crate::widget::widget::{CanvasWidget, Widget};
use vstd::prelude::*;

verus! {

/// Any of the widgets that come with the toolkit, so that one store can hold them side by
/// side. It does in every respect what the widget inside it does.
pub enum AnyWidget {
    Canvas(CanvasWidget),
    PushButton(PushButtonWidget),
    Checkbox(CheckboxWidget),
}

impl Widget for AnyWidget {
    open spec fn spec_config(&self) -> Map<u8, Config> {
        match self {
            AnyWidget::Canvas(widget) => widget.spec_config(),
            AnyWidget::PushButton(widget) => widget.spec_config(),
            AnyWidget::Checkbox(widget) => widget.spec_config(),
        }
    }

    open spec fn spec_callbacks(&self) -> Map<u32, CallbackTypes> {
        match self {
            AnyWidget::Canvas(widget) => widget.spec_callbacks(),
            AnyWidget::PushButton(widget) => widget.spec_callbacks(),
            AnyWidget::Checkbox(widget) => widget.spec_callbacks(),
        }
    }

    open spec fn spec_widget_id(&self) -> i32 {
        match self {
            AnyWidget::Canvas(widget) => widget.spec_widget_id(),
            AnyWidget::PushButton(widget) => widget.spec_widget_id(),
            AnyWidget::Checkbox(widget) => widget.spec_widget_id(),
        }
    }

    open spec fn differs_in_config(&self, other: &Self) -> bool {
        match (self, other) {
            (AnyWidget::Canvas(a), AnyWidget::Canvas(b)) => a.differs_in_config(b),
            (AnyWidget::PushButton(a), AnyWidget::PushButton(b)) => a.differs_in_config(b),
            (AnyWidget::Checkbox(a), AnyWidget::Checkbox(b)) => a.differs_in_config(b),
            _ => false,
        }
    }

    open spec fn differs_in_callbacks(&self, other: &Self) -> bool {
        match (self, other) {
            (AnyWidget::Canvas(a), AnyWidget::Canvas(b)) => a.differs_in_callbacks(b),
            (AnyWidget::PushButton(a), AnyWidget::PushButton(b)) => a.differs_in_callbacks(b),
            (AnyWidget::Checkbox(a), AnyWidget::Checkbox(b)) => a.differs_in_callbacks(b),
            _ => false,
        }
    }

    open spec fn differs_in_widget_id(&self, other: &Self) -> bool {
        match (self, other) {
            (AnyWidget::Canvas(a), AnyWidget::Canvas(b)) => a.differs_in_widget_id(b),
            (AnyWidget::PushButton(a), AnyWidget::PushButton(b)) => a.differs_in_widget_id(b),
            (AnyWidget::Checkbox(a), AnyWidget::Checkbox(b)) => a.differs_in_widget_id(b),
            _ => false,
        }
    }

    open spec fn responds(
        &self,
        injected: bool,
        event: CallbackEvent,
        after: &Self,
        response: EventResponse,
    ) -> bool {
        match (self, after) {
            (AnyWidget::Canvas(a), AnyWidget::Canvas(b)) => a.responds(
                injected,
                event,
                b,
                response,
            ),
            (AnyWidget::PushButton(a), AnyWidget::PushButton(b)) => a.responds(
                injected,
                event,
                b,
                response,
            ),
            (AnyWidget::Checkbox(a), AnyWidget::Checkbox(b)) => a.responds(
                injected,
                event,
                b,
                response,
            ),
            _ => false,
        }
    }

    open spec fn paints(&self, after: &Self, commands: Seq<DrawCommand>) -> bool {
        match (self, after) {
            (AnyWidget::Canvas(a), AnyWidget::Canvas(b)) => a.paints(b, commands),
            (AnyWidget::PushButton(a), AnyWidget::PushButton(b)) => a.paints(b, commands),
            (AnyWidget::Checkbox(a), AnyWidget::Checkbox(b)) => a.paints(b, commands),
            _ => false,
        }
    }

    open spec fn configures(&self, key: u8, value: Config, after: &Self) -> bool {
        match (self, after) {
            (AnyWidget::Canvas(a), AnyWidget::Canvas(b)) => a.configures(key, value, b),
            (AnyWidget::PushButton(a), AnyWidget::PushButton(b)) => a.configures(key, value, b),
            (AnyWidget::Checkbox(a), AnyWidget::Checkbox(b)) => a.configures(key, value, b),
            _ => false,
        }
    }

    fn config(&mut self) -> (config: &mut Configurable) {
        match self {
            AnyWidget::Canvas(widget) => widget.config(),
            AnyWidget::PushButton(widget) => widget.config(),
            AnyWidget::Checkbox(widget) => widget.config(),
        }
    }

    fn settings(&self) -> (config: &Configurable) {
        match self {
            AnyWidget::Canvas(widget) => widget.settings(),
            AnyWidget::PushButton(widget) => widget.settings(),
            AnyWidget::Checkbox(widget) => widget.settings(),
        }
    }

    fn callbacks(&mut self) -> (callbacks: &mut CallbackStore) {
        match self {
            AnyWidget::Canvas(widget) => widget.callbacks(),
            AnyWidget::PushButton(widget) => widget.callbacks(),
            AnyWidget::Checkbox(widget) => widget.callbacks(),
        }
    }

    fn handlers(&self) -> (callbacks: &CallbackStore) {
        match self {
            AnyWidget::Canvas(widget) => widget.handlers(),
            AnyWidget::PushButton(widget) => widget.handlers(),
            AnyWidget::Checkbox(widget) => widget.handlers(),
        }
    }

    fn set_widget_id(&mut self, widget_id: i32) {
        match self {
            AnyWidget::Canvas(widget) => widget.set_widget_id(widget_id),
            AnyWidget::PushButton(widget) => widget.set_widget_id(widget_id),
            AnyWidget::Checkbox(widget) => widget.set_widget_id(widget_id),
        }
    }

    fn get_widget_id(&self) -> (widget_id: i32) {
        match self {
            AnyWidget::Canvas(widget) => widget.get_widget_id(),
            AnyWidget::PushButton(widget) => widget.get_widget_id(),
            AnyWidget::Checkbox(widget) => widget.get_widget_id(),
        }
    }

    fn handle_event(&mut self, injected: bool, event: CallbackEvent) -> (response: EventResponse) {
        match self {
            AnyWidget::Canvas(widget) => widget.handle_event(injected, event),
            AnyWidget::PushButton(widget) => widget.handle_event(injected, event),
            AnyWidget::Checkbox(widget) => widget.handle_event(injected, event),
        }
    }

    fn draw(&mut self) -> (commands: Vec<DrawCommand>) {
        match self {
            AnyWidget::Canvas(widget) => widget.draw(),
            AnyWidget::PushButton(widget) => widget.draw(),
            AnyWidget::Checkbox(widget) => widget.draw(),
        }
    }

    fn set_config(&mut self, key: u8, value: Config) {
        match self {
            AnyWidget::Canvas(widget) => widget.set_config(key, value),
            AnyWidget::PushButton(widget) => widget.set_config(key, value),
            AnyWidget::Checkbox(widget) => widget.set_config(key, value),
        }
    }
}

} // verus!
