//! Typed input notifications handed to widgets and handlers.

use vstd::prelude::*;

use crate::util::IVec2;
use crate::util::UVec2;

verus! {

/// Whether a key or pointer button was pushed down or let go.
#[derive(Debug, Clone, Copy, PartialEq, Eq, Structural)]
pub enum ButtonState {
    Pressed,
    Released,
}

/// The pointer button a press or release came from.
#[derive(Debug, Clone, Copy, PartialEq, Eq, Structural)]
pub enum MouseButton {
    Left,
    Right,
    Middle,
    Back,
    Forward,
    Other(u16),
}

/// The keyboard modifiers held while an event fired.
#[derive(Debug, Clone, Copy, PartialEq, Eq, Structural)]
pub struct Modifiers {
    pub shift: bool,
    pub ctrl: bool,
    pub alt: bool,
    pub logo: bool,
}

impl Default for Modifiers {
    fn default() -> (m: Self)
        ensures
            m == (Modifiers { shift: false, ctrl: false, alt: false, logo: false }),
    {
        Modifiers { shift: false, ctrl: false, alt: false, logo: false }
    }
}

/// A key press or release, with the platform scancode.
#[derive(Debug, Clone, Copy, PartialEq, Eq, Structural)]
pub struct KeyEvent {
    pub key: u32,
    pub modifiers: Modifiers,
    pub state: ButtonState,
    pub repeat: bool,
}

/// A pointer-button press or release at a window position.
#[derive(Debug, Clone, Copy, PartialEq, Eq, Structural)]
pub struct MouseEvent {
    pub pos: IVec2,
    pub modifiers: Modifiers,
    pub state: ButtonState,
    pub button: MouseButton,
}

/// A pointer movement, with the position and the step from the previous one.
#[derive(Debug, Clone, Copy, PartialEq, Eq, Structural)]
pub struct MouseMoveEvent {
    pub pos: IVec2,
    pub modifiers: Modifiers,
    pub delta: IVec2,
}

/// A change of the window's client-area size.
#[derive(Debug, Clone, Copy, PartialEq, Eq, Structural)]
pub struct ResizeEvent {
    pub size: UVec2,
}

/// Any notification a widget can be asked to update its state from.
#[derive(Debug, Clone, Copy, PartialEq, Eq, Structural)]
pub enum Event {
    Resize(ResizeEvent),
    Mouse(MouseEvent),
    Key(KeyEvent),
    MouseMove(MouseMoveEvent),
}

} // verus!
