//! The projection of a state to the lines that are shown.

use vstd::prelude::*;
use crate::mode::mode_text;
use crate::stack::{entry_text, stack_iter, StackEntry};
use crate::state::{State, StateView};

verus! {

/// The lines that show a state: one line for each stack entry, oldest first
/// and the top last; then the input as it was typed; then the name of the
/// mode.
pub open spec fn render_lines(s: StateView) -> Seq<Seq<char>> {
    s.stack.map_values(|e: StackEntry| entry_text(e)).push(s.input).push(mode_text(s.mode))
}

/// The text of each line.
pub open spec fn line_texts(lines: Seq<String>) -> Seq<Seq<char>> {
    lines.map_values(|line: String| line@)
}

/// Projects a state to its display lines.
pub fn render(st: &State) -> (lines: Vec<String>)
    ensures
        line_texts(lines@) == render_lines(st@),
        lines@.len() == st@.stack.len() + 2,
        forall|i: int| 0 <= i < st@.stack.len() ==> (#[trigger] lines@[i])@ == entry_text(st@.stack[i]),
        lines@[st@.stack.len() as int]@ == st@.input,
        lines@[st@.stack.len() as int + 1]@ == mode_text(st@.mode),
{
    let entries = stack_iter(&st.stack);
    let mut lines: Vec<String> = Vec::new();
    let mut i: usize = 0;
    while i < entries.len()
        invariant
            entries@.len() == st@.stack.len(),
            forall|k: int| 0 <= k < entries@.len() ==> *(#[trigger] entries@[k]) == st@.stack[k],
            i <= entries.len(),
            lines@.len() == i,
            forall|k: int| 0 <= k < i ==> (#[trigger] lines@[k])@ == entry_text(st@.stack[k]),
        decreases entries.len() - i,
    {
        lines.push(entries[i].to_text());
        i += 1;
    }
    lines.push(st.input.clone());
    lines.push(st.mode.to_text());
    assert(line_texts(lines@) =~= render_lines(st@));
    lines
}

} // verus!
