//! The transition function: a state and an event give the next state.

use vstd::prelude::*;
use crate::event::{Event, Key};
use crate::mode::Mode;
use hvm::language::Term;
use crate::stack::{combine, combined, stack_push_back, StackEntry};
use crate::state::{State, StateView};
use crate::literals::well_formed;
use crate::term::{parse, parsed_term, term_of};

verus! {

/// What a key does in navigation mode: `i` enters insertion mode, `q`
/// terminates, `a` combines the two topmost stack entries, and everything
/// else changes nothing.
pub open spec fn normal_step(s: StateView, event: Event) -> StateView {
    match event {
        Event::Key(Key::Char(c)) => {
            if c == 'i' {
                StateView { mode: Mode::Insert, ..s }
            } else if c == 'q' {
                StateView { mode: Mode::Exit, ..s }
            } else if c == 'a' {
                StateView { stack: combined(s.stack), ..s }
            } else {
                s
            }
        },
        _ => s,
    }
}

/// Handles one event in navigation mode.
pub fn normal_update(st: State, event: Event) -> (r: State)
    ensures
        r@ == normal_step(st@, event),
{
    match event {
        Event::Key(Key::Char(c)) => {
            if c == 'i' {
                State { mode: Mode::Insert, input: st.input, stack: st.stack }
            } else if c == 'q' {
                State { mode: Mode::Exit, input: st.input, stack: st.stack }
            } else if c == 'a' {
                State { mode: st.mode, input: st.input, stack: combine(st.stack) }
            } else {
                st
            }
        },
        _ => st,
    }
}

/// The state after a commit whose text was read as `parsed`. A term is
/// pushed on the stack and the input is cleared; without a term nothing
/// changes.
pub open spec fn committed(s: StateView, parsed: Option<Term>) -> StateView {
    match parsed {
        Some(term) => StateView {
            input: Seq::<char>::empty(),
            stack: s.stack.push(StackEntry::Term(term)),
            ..s
        },
        None => s,
    }
}

/// What a key does in insertion mode: a character is appended to the input,
/// backspace removes the last character if there is one, enter commits the
/// input, and everything else changes nothing.
pub open spec fn insert_step(s: StateView, event: Event) -> StateView {
    match event {
        Event::Key(Key::Char(c)) => StateView { input: s.input.push(c), ..s },
        Event::Key(Key::Backspace) => StateView {
            input: if s.input.len() > 0 {
                s.input.drop_last()
            } else {
                s.input
            },
            ..s
        },
        Event::Key(Key::Enter) => committed(s, term_of(s.input)),
        _ => s,
    }
}

/// The transition function. Escape forces navigation mode from any mode and
/// touches nothing else. Every other event goes to the handler of the
/// current mode; the terminated mode has none.
pub open spec fn step(s: StateView, event: Event) -> StateView {
    if event.is_escape() {
        StateView { mode: Mode::Normal, ..s }
    } else {
        match s.mode {
            Mode::Normal => normal_step(s, event),
            Mode::Insert => insert_step(s, event),
            Mode::Exit => s,
        }
    }
}

/// Committing text from which the parser reads a term clears the input and
/// puts that term on top of the stack, as one new entry that is a term; the
/// entries below and the mode stay. The parser reads a term from a text
/// where it returns on the text and answers with one.
pub proof fn lemma_commit_on_success(s: StateView, term: Term)
    requires
        well_formed(s.input),
        parsed_term(s.input) == Some(term),
    ensures
        insert_step(s, Event::Key(Key::Enter)).input == Seq::<char>::empty(),
        insert_step(s, Event::Key(Key::Enter)).stack == s.stack.push(StackEntry::Term(term)),
        insert_step(s, Event::Key(Key::Enter)).stack.len() == s.stack.len() + 1,
        insert_step(s, Event::Key(Key::Enter)).mode == s.mode,
        s.mode == Mode::Insert ==> step(s, Event::Key(Key::Enter)) == insert_step(
            s,
            Event::Key(Key::Enter),
        ),
{
}

/// Committing text from which the parser reads no term changes nothing:
/// input and stack stay as they are.
pub proof fn lemma_commit_on_failure(s: StateView)
    requires
        term_of(s.input) is None,
    ensures
        insert_step(s, Event::Key(Key::Enter)) == s,
        s.mode == Mode::Insert ==> step(s, Event::Key(Key::Enter)) == s,
{
}

/// Ends a commit, given what the input was read as.
///
/// With a term, the term goes on top of the stack and the input is cleared.
/// Without one, the state comes back unchanged, so that the text stays in
/// the buffer for correction.
pub fn commit(st: State, parsed: Option<Term>) -> (r: State)
    ensures
        r@ == committed(st@, parsed),
        parsed is None ==> r@ == st@,
        parsed is Some ==> r@.input.len() == 0 && r@.stack == st@.stack.push(
            StackEntry::Term(parsed->0),
        ) && r@.mode == st@.mode,
{
    match parsed {
        Some(term) => {
            let mut stack = st.stack;
            stack_push_back(&mut stack, StackEntry::Term(term));
            State { mode: st.mode, input: String::new(), stack }
        },
        None => st,
    }
}

/// Handles one event in insertion mode.
///
/// On enter the input is parsed. Where the parser answers with a term, the
/// term is pushed and the input cleared; where it answers with none, or
/// would not return, input and stack stay as they are.
pub fn insert_update(st: State, event: Event) -> (r: State)
    ensures
        r@ == insert_step(st@, event),
        event == Event::Key(Key::Enter) && well_formed(st@.input) ==> r@ == committed(
            st@,
            parsed_term(st@.input),
        ),
        event == Event::Key(Key::Enter) && term_of(st@.input) is Some ==> r@.input.len() == 0
            && r@.stack == st@.stack.push(StackEntry::Term(term_of(st@.input)->0)) && r@.mode
            == st@.mode,
        event == Event::Key(Key::Enter) && term_of(st@.input) is None ==> r@ == st@,
{
    match event {
        Event::Key(Key::Char(c)) => {
            let mut input = st.input;
            input.push(c);
            State { mode: st.mode, input, stack: st.stack }
        },
        Event::Key(Key::Backspace) => {
            let mut input = st.input;
            input.pop();
            State { mode: st.mode, input, stack: st.stack }
        },
        Event::Key(Key::Enter) => {
            let parsed = parse(st.input.as_str());
            commit(st, parsed)
        },
        _ => st,
    }
}

/// Handles one event: the whole transition function.
///
/// Escape wins over the mode: whatever the mode was, it is navigation
/// afterwards, and input and stack are untouched.
pub fn update(st: State, event: Event) -> (r: State)
    ensures
        r@ == step(st@, event),
        event.is_escape() ==> r@.mode == Mode::Normal && r@.input == st@.input && r@.stack
            == st@.stack,
{
    match event {
        Event::Key(Key::Esc) => State { mode: Mode::Normal, input: st.input, stack: st.stack },
        _ => match st.mode {
            Mode::Normal => normal_update(st, event),
            Mode::Insert => insert_update(st, event),
            Mode::Exit => st,
        },
    }
}

} // verus!
