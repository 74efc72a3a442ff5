//! The notifications of the input subsystem, as far as the engine reads them.

use vstd::prelude::*;

verus! {

/// One notification of the input subsystem.
#[derive(Clone, Copy, Debug, PartialEq, Eq, Structural)]
pub enum InputEvent {
    /// A key went down.
    KeyPressed,
    /// A key came up.
    KeyReleased,
    /// Anything else: a pointer, a touch, a device that came or went.
    Other,
}

impl InputEvent {
    /// Whether the notification is a trigger: a key press is one, and nothing
    /// else is.
    pub fn is_trigger(&self) -> (trigger: bool)
        ensures
            trigger == (*self == InputEvent::KeyPressed),
    {
        match self {
            InputEvent::KeyPressed => true,
            _ => false,
        }
    }
}

} // verus!
