use crate::engine::point::{Point, Size};
use std::collections::HashMap;
use vstd::prelude::*;

verus! {

broadcast use vstd::std_specs::hash::group_hash_axioms;

/// A colour as four channels, each from 0 (none) to 255 (full).
#[derive(Clone, Copy, Debug, PartialEq, Eq, Structural)]
pub struct Color {
    pub r: u8,
    pub g: u8,
    pub b: u8,
    pub a: u8,
}

/// A value that a setting can hold.
#[derive(Clone, Copy, Debug, PartialEq, Eq, Structural)]
pub enum Config {
    Point(Point),
    Size(Size),
    Color(Color),
    Toggle(bool),
}

/// Marks a widget as needing to be drawn again. Only the key's presence counts.
pub const CONFIG_INVALIDATE: u8 = 0;

/// Where the widget starts, relative to its container. A `Config::Point`.
pub const CONFIG_ORIGIN: u8 = 1;

/// The extent of the widget. A `Config::Size`.
pub const CONFIG_BODY_SIZE: u8 = 2;

/// The colour of the widget's body. A `Config::Color`.
pub const CONFIG_MAIN_COLOR: u8 = 3;

/// The colour of the widget's text. A `Config::Color`.
pub const CONFIG_TEXT_COLOR: u8 = 4;

/// Whether the widget is left out when drawing. A `Config::Toggle`.
pub const CONFIG_WIDGET_HIDDEN: u8 = 5;

/// Opaque white, the colour of a widget that was given none.
pub open spec fn white() -> Color {
    Color { r: 255, g: 255, b: 255, a: 255 }
}

/// The position stored under `key`, or `(0, 0)` where there is none.
pub open spec fn point_setting(settings: Map<u8, Config>, key: u8) -> Point {
    if settings.contains_key(key) && settings[key] is Point {
        settings[key]->Point_0
    } else {
        Point { x: 0, y: 0 }
    }
}

/// The extent stored under `key`, or `(0, 0)` where there is none.
pub open spec fn size_setting(settings: Map<u8, Config>, key: u8) -> Size {
    if settings.contains_key(key) && settings[key] is Size {
        settings[key]->Size_0
    } else {
        Size { w: 0, h: 0 }
    }
}

/// The colour stored under `key`, or opaque white where there is none.
pub open spec fn color_setting(settings: Map<u8, Config>, key: u8) -> Color {
    if settings.contains_key(key) && settings[key] is Color {
        settings[key]->Color_0
    } else {
        white()
    }
}

/// The flag stored under `key`, or `false` where there is none.
pub open spec fn toggle_setting(settings: Map<u8, Config>, key: u8) -> bool {
    if settings.contains_key(key) && settings[key] is Toggle {
        settings[key]->Toggle_0
    } else {
        false
    }
}

/// The settings of one widget: a map from a key to the value stored under it.
pub struct Configurable {
    config: HashMap<u8, Config>,
}

impl View for Configurable {
    type V = Map<u8, Config>;

    closed spec fn view(&self) -> Map<u8, Config> {
        self.config@
    }
}

impl Configurable {
    /// Settings with nothing stored.
    pub fn new() -> (c: Self)
        ensures
            c@ == Map::<u8, Config>::empty(),
    {
        Self { config: HashMap::new() }
    }

    /// Stores `value` under `key`, in place of what was stored there.
    pub fn set(&mut self, key: u8, value: Config)
        ensures
            final(self)@ == old(self)@.insert(key, value),
    {
        self.config.insert(key, value);
    }

    /// The value stored under `key`, if there is one.
    pub fn get(&self, key: u8) -> (value: Option<Config>)
        ensures
            value == (if self@.contains_key(key) {
                Some(self@[key])
            } else {
                None
            }),
    {
        match self.config.get(&key) {
            Some(v) => Some(*v),
            None => None,
        }
    }

    /// Takes away what is stored under `key`.
    pub fn remove(&mut self, key: u8)
        ensures
            final(self)@ == old(self)@.remove(key),
    {
        self.config.remove(&key);
    }

    /// Whether anything is stored under `key`.
    pub fn contains(&self, key: u8) -> (present: bool)
        ensures
            present == self@.contains_key(key),
    {
        self.config.contains_key(&key)
    }

    /// Stores the position `(x, y)` under `key`.
    pub fn set_point(&mut self, key: u8, x: i32, y: i32)
        ensures
            final(self)@ == old(self)@.insert(key, Config::Point(Point { x, y })),
    {
        self.set(key, Config::Point(Point { x, y }));
    }

    /// Stores the extent `(w, h)` under `key`.
    pub fn set_size(&mut self, key: u8, w: i32, h: i32)
        ensures
            final(self)@ == old(self)@.insert(key, Config::Size(Size { w, h })),
    {
        self.set(key, Config::Size(Size { w, h }));
    }

    /// Stores a colour under `key`.
    pub fn set_color(&mut self, key: u8, color: Color)
        ensures
            final(self)@ == old(self)@.insert(key, Config::Color(color)),
    {
        self.set(key, Config::Color(color));
    }

    /// Stores a flag under `key`.
    pub fn set_toggle(&mut self, key: u8, flag: bool)
        ensures
            final(self)@ == old(self)@.insert(key, Config::Toggle(flag)),
    {
        self.set(key, Config::Toggle(flag));
    }

    /// The position stored under `key`, or `(0, 0)`.
    pub fn get_point(&self, key: u8) -> (point: Point)
        ensures
            point == point_setting(self@, key),
    {
        match self.get(key) {
            Some(Config::Point(point)) => point,
            _ => Point { x: 0, y: 0 },
        }
    }

    /// The extent stored under `key`, or `(0, 0)`.
    pub fn get_size(&self, key: u8) -> (size: Size)
        ensures
            size == size_setting(self@, key),
    {
        match self.get(key) {
            Some(Config::Size(size)) => size,
            _ => Size { w: 0, h: 0 },
        }
    }

    /// The colour stored under `key`, or opaque white.
    pub fn get_color(&self, key: u8) -> (color: Color)
        ensures
            color == color_setting(self@, key),
    {
        match self.get(key) {
            Some(Config::Color(color)) => color,
            _ => Color { r: 255, g: 255, b: 255, a: 255 },
        }
    }

    /// The flag stored under `key`, or `false`.
    pub fn get_toggle(&self, key: u8) -> (flag: bool)
        ensures
            flag == toggle_setting(self@, key),
    {
        match self.get(key) {
            Some(Config::Toggle(flag)) => flag,
            _ => false,
        }
    }
}

} // verus!
