use crate::engine::point::Point;
use crate::widget::config::{
    color_setting, size_setting, Color, Config, Configurable, CONFIG_BODY_SIZE,
    CONFIG_INVALIDATE, CONFIG_MAIN_COLOR,
};
use crate::widget::drawable::{body_fill, DrawCommand};
use vstd::prelude::*;

verus! {

/// A filled rectangle: the body of a composite widget.
pub struct BoxWidget {
    config: Configurable,
}

impl View for BoxWidget {
    type V = Map<u8, Config>;

    /// The box's settings.
    closed spec fn view(&self) -> Map<u8, Config> {
        self.config@
    }
}

impl BoxWidget {
    /// A box with no settings.
    pub fn new() -> (widget: Self)
        ensures
            widget@ == Map::<u8, Config>::empty(),
    {
        Self { config: Configurable::new() }
    }

    /// The box's settings, to read them.
    pub fn config(&self) -> (config: &Configurable)
        ensures
            config@ == self@,
    {
        &self.config
    }

    /// Stores `value` under `key`.
    pub fn set_config(&mut self, key: u8, value: Config)
        ensures
            final(self)@ == old(self)@.insert(key, value),
    {
        self.config.set(key, value);
    }

    /// Stores a colour under `key`.
    pub fn set_color(&mut self, key: u8, color: Color)
        ensures
            final(self)@ == old(self)@.insert(key, Config::Color(color)),
    {
        self.config.set_color(key, color);
    }

    /// Paints the body in the main colour, and clears the mark that asks for a redraw.
    pub fn draw(&mut self) -> (commands: Vec<DrawCommand>)
        ensures
            commands@ == seq![
                body_fill(
                    size_setting(old(self)@, CONFIG_BODY_SIZE),
                    color_setting(old(self)@, CONFIG_MAIN_COLOR),
                ),
            ],
            final(self)@ == old(self)@.remove(CONFIG_INVALIDATE),
    {
        let size = self.config.get_size(CONFIG_BODY_SIZE);
        let color = self.config.get_color(CONFIG_MAIN_COLOR);
        self.config.remove(CONFIG_INVALIDATE);
        vec![DrawCommand::Rectangle { origin: Point { x: 0, y: 0 }, size, color }]
    }
}

} // verus!
