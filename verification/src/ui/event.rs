//! The input events that dialogs react to, as plain values.

use vstd::prelude::*;

verus! {

/// A mouse button.
#[derive(Clone, Copy, Debug, PartialEq, Eq, Structural)]
pub enum MouseButton {
    Left,
    Middle,
    Right,
}

/// A position in the window, in pixels from its top left corner.
#[derive(Clone, Copy, Debug, PartialEq, Eq, Structural)]
pub struct Position {
    pub x: i32,
    pub y: i32,
}

/// A key press.
#[derive(Clone, Copy, Debug, PartialEq, Eq, Structural)]
pub struct KeyEvent {
    /// The key symbol, such as `KEY_RETURN`.
    pub keysym: u32,
}

/// An event that the window hands to a dialog.
#[derive(Clone, Copy, Debug, PartialEq, Eq, Structural)]
pub enum WindowEvent {
    CloseRequested,
    RedrawRequested,
    CursorMove(Position),
    CursorEnter(Position),
    CursorLeave,
    ButtonPress(MouseButton),
    ButtonRelease(MouseButton),
    KeyPress(KeyEvent),
}

} // verus!
