//! A modal, keyboard-driven editor core for building combinator terms on a
//! value stack.
//!
//! The crate holds the editor's state, the transition function that maps a
//! state and an input event to the next state, the projection of a state to
//! display lines, and the decision the event loop takes on every poll. The
//! terminal itself, and the waiting for input, live with the caller.

pub mod buffer;
pub mod event;
pub mod literals;
pub mod mode;
pub mod render;
pub mod session;
pub mod stack;
pub mod state;
pub mod term;
pub mod update;
