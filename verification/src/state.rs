//! The editor's state and its mathematical model.

use vstd::prelude::*;
use im::Vector;
use crate::mode::Mode;
use crate::stack::{stack_clone, stack_entries, stack_new, StackEntry};

verus! {

/// Everything the editor knows between two events.
pub struct State {
    /// The mode that decides which handler sees the next key.
    pub mode: Mode,
    /// The text typed so far and not yet committed.
    pub input: String,
    /// The stack of entries, oldest first; the last one is the top.
    pub stack: Vector<StackEntry>,
}

/// A state as plain mathematics: the mode, the input as a sequence of
/// characters, and the stack as a sequence of entries.
pub struct StateView {
    pub mode: Mode,
    pub input: Seq<char>,
    pub stack: Seq<StackEntry>,
}

impl View for State {
    type V = StateView;

    open spec fn view(&self) -> StateView {
        StateView { mode: self.mode, input: self.input@, stack: stack_entries(self.stack) }
    }
}

impl State {
    /// The state in which the editor starts: insertion mode, nothing typed,
    /// nothing on the stack.
    pub fn new() -> (st: State)
        ensures
            st@ == (StateView {
                mode: Mode::Insert,
                input: Seq::<char>::empty(),
                stack: Seq::<StackEntry>::empty(),
            }),
    {
        State { mode: Mode::Insert, input: String::new(), stack: stack_new() }
    }
}

impl Clone for State {
    /// A copy with the same mode, input and stack entries. The copy shares
    /// the stack's storage, and neither value sees what is later done to the
    /// other.
    fn clone(&self) -> (st: State)
        ensures
            st@ == self@,
    {
        State { mode: self.mode, input: self.input.clone(), stack: stack_clone(&self.stack) }
    }
}

} // verus!
