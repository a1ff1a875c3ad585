use crate::engine::point::Point;
use vstd::prelude::*;

verus! {

/// A button of the pointing device.
#[derive(Clone, Copy, Debug, PartialEq, Eq, Structural)]
pub enum MouseButton {
    Unknown,
    Left,
    Right,
    Middle,
    X1,
    X2,
    Button6,
    Button7,
    Button8,
}

/// A key of the keyboard, by its code.
#[derive(Clone, Copy, Debug, PartialEq, Eq, Structural)]
pub struct Key {
    pub code: i32,
}

/// Whether a button went down or came up.
#[derive(Clone, Copy, Debug, PartialEq, Eq, Structural)]
pub enum ButtonState {
    Press,
    Release,
}

/// A button of a game controller: the controller, then the button on it.
#[derive(Clone, Copy, Debug, PartialEq, Eq, Structural)]
pub struct ControllerButton {
    pub id: u32,
    pub button: u8,
}

/// The direction in which a controller's hat is held.
#[derive(Clone, Copy, Debug, PartialEq, Eq, Structural)]
pub enum HatState {
    Centered,
    Up,
    Right,
    Down,
    Left,
    RightUp,
    RightDown,
    LeftUp,
    LeftDown,
}

/// A hat of a game controller: the controller, the direction, and the hat on it.
#[derive(Clone, Copy, Debug, PartialEq, Eq, Structural)]
pub struct ControllerHat {
    pub id: u32,
    pub state: HatState,
    pub which: u8,
}

/// Anything that can be pressed and released.
#[derive(Clone, Copy, Debug, PartialEq, Eq, Structural)]
pub enum Button {
    Keyboard(Key),
    Mouse(MouseButton),
    Controller(ControllerButton),
    Hat(ControllerHat),
}

/// Whether `button` is the left button of the pointing device.
pub open spec fn is_left_button(button: Button) -> bool {
    button == Button::Mouse(MouseButton::Left)
}

/// Tests whether `button` is the left button of the pointing device.
pub fn button_is_left(button: Button) -> (left: bool)
    ensures
        left == is_left_button(button),
{
    match button {
        Button::Mouse(mouse_button) => mouse_button == MouseButton::Left,
        _ => false,
    }
}

/// One event as the window delivers it, with positions in the window's pixels.
#[derive(Clone, Copy, Debug, PartialEq, Eq, Structural)]
pub enum InputEvent {
    PointerMoved { point: Point },
    ButtonDown { button: Button, point: Point },
    ButtonUp { button: Button, point: Point },
    KeyDown { key: Key },
    KeyUp { key: Key },
    Scroll { delta: Point, point: Point },
}

} // verus!
