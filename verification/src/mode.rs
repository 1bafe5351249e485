//! The editor's modes and their display names.

use vstd::prelude::*;

verus! {

/// Which handler receives the next key.
///
/// `Normal` is the navigation mode, in which single keys act on the stack.
/// `Insert` is the insertion mode, in which keys edit the input buffer.
/// `Exit` is the terminated mode: the event loop stops once it sees it.
#[derive(Clone, Copy, Debug, PartialEq, Eq, Structural)]
pub enum Mode {
    Normal,
    Insert,
    Exit,
}

/// The name under which a mode is shown on the last display line.
pub open spec fn mode_text(m: Mode) -> Seq<char> {
    match m {
        Mode::Normal => "Mode::Normal"@,
        Mode::Insert => "Mode::Insert"@,
        Mode::Exit => "Mode::Exit"@,
    }
}

impl Mode {
    /// The mode's display name.
    pub fn to_text(&self) -> (s: String)
        ensures
            s@ == mode_text(*self),
    {
        match self {
            Mode::Normal => "Mode::Normal".to_owned(),
            Mode::Insert => "Mode::Insert".to_owned(),
            Mode::Exit => "Mode::Exit".to_owned(),
        }
    }
}

} // verus!
