//! The notifications that a terminal delivers.

use vstd::prelude::*;

verus! {

/// The button that a mouse notification is about. One notification names one
/// button: buttons are never combined.
#[derive(Debug, Clone, Copy, PartialEq, Eq, Structural)]
pub enum MouseButton {
    Left,
    Right,
    Middle,
    Move,
    WheelUp,
    WheelDown,
    Wheel,
    /// No button is held.
    NoButton,
    Unknown,
}

#[derive(Debug, Clone, Copy, PartialEq, Eq, Structural)]
pub enum Event {
    /// The grid has a new size, in cells.
    Resize(u32, u32),
    /// The window has a new size, in pixels.
    PixelResize(u32, u32),
    /// One cell has a new size, in pixels.
    FontResize(u32, u32),
    MouseMove(MouseButton, u32, u32),
    MouseUp(MouseButton, u32, u32),
    MouseDown(MouseButton, u32, u32),
    KeyPress(char),
    Unknown,
}

} // verus!
