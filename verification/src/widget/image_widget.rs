use crate::engine::point::{Point, Size};
use crate::widget::config::{
    size_setting, Config, Configurable, CONFIG_BODY_SIZE, CONFIG_INVALIDATE,
};
use crate::widget::drawable::DrawCommand;
use vstd::prelude::*;

verus! {

/// A named image: a mark inside a composite widget.
pub struct ImageWidget {
    config: Configurable,
    image_name: String,
}

impl View for ImageWidget {
    type V = Map<u8, Config>;

    /// The image's settings.
    closed spec fn view(&self) -> Map<u8, Config> {
        self.config@
    }
}

impl ImageWidget {
    /// The name under which the image is looked up.
    pub closed spec fn spec_image_name(&self) -> String {
        self.image_name
    }

    /// The command that paints the image.
    pub open spec fn image_command(&self) -> DrawCommand {
        DrawCommand::Image {
            origin: Point { x: 0, y: 0 },
            size: size_setting(self@, CONFIG_BODY_SIZE),
            image_name: self.spec_image_name(),
        }
    }

    /// The named image, with no settings.
    pub fn new(image_name: String) -> (widget: Self)
        ensures
            widget@ == Map::<u8, Config>::empty(),
            widget.spec_image_name() == image_name,
    {
        Self { config: Configurable::new(), image_name }
    }

    /// The image's settings, to read them.
    pub fn config(&self) -> (config: &Configurable)
        ensures
            config@ == self@,
    {
        &self.config
    }

    /// The name under which the image is looked up.
    pub fn image_name(&self) -> (image_name: &String)
        ensures
            *image_name == self.spec_image_name(),
    {
        &self.image_name
    }

    /// Stores the position `(x, y)` under `key`.
    pub fn set_point(&mut self, key: u8, x: i32, y: i32)
        ensures
            final(self)@ == old(self)@.insert(key, Config::Point(Point { x, y })),
            final(self).spec_image_name() == old(self).spec_image_name(),
    {
        self.config.set_point(key, x, y);
    }

    /// Stores the extent `(w, h)` under `key`.
    pub fn set_size(&mut self, key: u8, w: i32, h: i32)
        ensures
            final(self)@ == old(self)@.insert(key, Config::Size(Size { w, h })),
            final(self).spec_image_name() == old(self).spec_image_name(),
    {
        self.config.set_size(key, w, h);
    }

    /// Stores a flag under `key`.
    pub fn set_toggle(&mut self, key: u8, flag: bool)
        ensures
            final(self)@ == old(self)@.insert(key, Config::Toggle(flag)),
            final(self).spec_image_name() == old(self).spec_image_name(),
    {
        self.config.set_toggle(key, flag);
    }

    /// Paints the image, and clears the mark that asks for a redraw.
    pub fn draw(&mut self) -> (commands: Vec<DrawCommand>)
        ensures
            commands@ == seq![old(self).image_command()],
            final(self)@ == old(self)@.remove(CONFIG_INVALIDATE),
            final(self).spec_image_name() == old(self).spec_image_name(),
    {
        let size = self.config.get_size(CONFIG_BODY_SIZE);
        self.config.remove(CONFIG_INVALIDATE);
        vec![
            DrawCommand::Image {
                origin: Point { x: 0, y: 0 },
                size,
                image_name: self.image_name.clone(),
            },
        ]
    }
}

} // verus!
