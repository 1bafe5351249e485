//! Input events, reduced to what the editor distinguishes.

use vstd::prelude::*;

verus! {

/// A key press, by the categories the editor tells apart.
#[derive(Clone, Copy, Debug, PartialEq, Eq, Structural)]
pub enum Key {
    /// A character key.
    Char(char),
    Backspace,
    Enter,
    Esc,
    /// Any other key: arrows, function keys and the like.
    Other,
}

/// An input event handed to the editor.
#[derive(Clone, Copy, Debug, PartialEq, Eq, Structural)]
pub enum Event {
    Key(Key),
    /// Anything that is not a key press, such as a resize or the mouse.
    Other,
}

impl Event {
    /// Whether the event is a press of the escape key.
    pub open spec fn is_escape(self) -> bool {
        self == Event::Key(Key::Esc)
    }
}

} // verus!
