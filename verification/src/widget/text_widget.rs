use crate::engine::point::Point;
use crate::widget::config::{
    color_setting, size_setting, Color, Config, Configurable, CONFIG_BODY_SIZE,
    CONFIG_INVALIDATE, CONFIG_TEXT_COLOR,
};
use crate::widget::drawable::{DrawCommand, TextJustify};
use vstd::prelude::*;

verus! {

/// A line of text: the label of a composite widget.
pub struct TextWidget {
    config: Configurable,
    font_name: String,
    text: String,
    font_size: u32,
    justify: TextJustify,
}

impl View for TextWidget {
    type V = Map<u8, Config>;

    /// The text's settings.
    closed spec fn view(&self) -> Map<u8, Config> {
        self.config@
    }
}

impl TextWidget {
    /// The name of the font.
    pub closed spec fn spec_font_name(&self) -> String {
        self.font_name
    }

    /// The line of text.
    pub closed spec fn spec_text(&self) -> String {
        self.text
    }

    /// The size of the font.
    pub closed spec fn spec_font_size(&self) -> u32 {
        self.font_size
    }

    /// The placement of the line.
    pub closed spec fn spec_justify(&self) -> TextJustify {
        self.justify
    }

    /// Whether `self` and `other` show the same line in the same font.
    pub open spec fn same_text(&self, other: &Self) -> bool {
        &&& self.spec_font_name() == other.spec_font_name()
        &&& self.spec_text() == other.spec_text()
        &&& self.spec_font_size() == other.spec_font_size()
        &&& self.spec_justify() == other.spec_justify()
    }

    /// The command that writes the line.
    pub open spec fn text_command(&self) -> DrawCommand {
        DrawCommand::Text {
            origin: Point { x: 0, y: 0 },
            size: size_setting(self@, CONFIG_BODY_SIZE),
            color: color_setting(self@, CONFIG_TEXT_COLOR),
            font_name: self.spec_font_name(),
            font_size: self.spec_font_size(),
            justify: self.spec_justify(),
            text: self.spec_text(),
        }
    }

    /// A line of text in the named font, with no settings.
    pub fn new(font_name: String, text: String, font_size: u32, justify: TextJustify) -> (widget:
        Self)
        ensures
            widget@ == Map::<u8, Config>::empty(),
            widget.spec_font_name() == font_name,
            widget.spec_text() == text,
            widget.spec_font_size() == font_size,
            widget.spec_justify() == justify,
    {
        Self { config: Configurable::new(), font_name, text, font_size, justify }
    }

    /// The text's settings, to read them.
    pub fn config(&self) -> (config: &Configurable)
        ensures
            config@ == self@,
    {
        &self.config
    }

    /// The line of text.
    pub fn text(&self) -> (text: &String)
        ensures
            *text == self.spec_text(),
    {
        &self.text
    }

    /// Stores `value` under `key`.
    pub fn set_config(&mut self, key: u8, value: Config)
        ensures
            final(self)@ == old(self)@.insert(key, value),
            old(self).same_text(final(self)),
    {
        self.config.set(key, value);
    }

    /// Stores a colour under `key`.
    pub fn set_color(&mut self, key: u8, color: Color)
        ensures
            final(self)@ == old(self)@.insert(key, Config::Color(color)),
            old(self).same_text(final(self)),
    {
        self.config.set_color(key, color);
    }

    /// Writes the line in the text colour, and clears the mark that asks for a redraw.
    pub fn draw(&mut self) -> (commands: Vec<DrawCommand>)
        ensures
            commands@ == seq![old(self).text_command()],
            final(self)@ == old(self)@.remove(CONFIG_INVALIDATE),
            old(self).same_text(final(self)),
    {
        let size = self.config.get_size(CONFIG_BODY_SIZE);
        let color = self.config.get_color(CONFIG_TEXT_COLOR);
        self.config.remove(CONFIG_INVALIDATE);
        vec![
            DrawCommand::Text {
                origin: Point { x: 0, y: 0 },
                size,
                color,
                font_name: self.font_name.clone(),
                font_size: self.font_size,
                justify: self.justify,
                text: self.text.clone(),
            },
        ]
    }
}

} // verus!
