//! One turn of the event loop, and what holds of a run of events.
//!
//! The loop itself waits for input and paints, which is the caller's work.
//! What it decides after each poll is decided here.

use vstd::prelude::*;
use crate::event::{Event, Key};
use crate::mode::Mode;
use crate::render::{line_texts, render, render_lines};
use crate::state::{State, StateView};
use crate::update::{step, update};

verus! {

/// The text of each line of a frame, where there is a frame.
pub open spec fn frame_texts(frame: Option<Vec<String>>) -> Option<Seq<Seq<char>>> {
    match frame {
        None => None,
        Some(lines) => Some(line_texts(lines@)),
    }
}

/// What the event loop holds after one poll.
pub struct Tick {
    /// The state to go on with.
    pub state: State,
    /// The lines to paint, where the display is to be painted anew.
    pub frame: Option<Vec<String>>,
    /// Whether the loop goes on.
    pub running: bool,
}

/// The state after a poll: the state as it was where the poll brought no
/// event within its timeout, and the state that the transition function
/// gives where it brought one.
pub open spec fn after_poll(s: StateView, polled: Option<Event>) -> StateView {
    match polled {
        None => s,
        Some(event) => step(s, event),
    }
}

/// The lines that are painted after a poll: none where the poll brought no
/// event, and the lines of the new state where it brought one.
pub open spec fn frame_after_poll(s: StateView, polled: Option<Event>) -> Option<Seq<Seq<char>>> {
    match polled {
        None => None,
        Some(event) => Some(render_lines(step(s, event))),
    }
}

/// Whether the loop goes on after a poll: always after a poll without an
/// event, and after an event unless the new state is terminated.
pub open spec fn runs_after_poll(s: StateView, polled: Option<Event>) -> bool {
    match polled {
        None => true,
        Some(event) => step(s, event).mode != Mode::Exit,
    }
}

/// A poll that brings no event within its timeout changes nothing: mode,
/// input and stack are as before, nothing is painted, and the loop goes on.
pub proof fn lemma_idle_poll_changes_nothing(s: StateView)
    ensures
        after_poll(s, None) == s,
        after_poll(s, None).mode == s.mode,
        after_poll(s, None).input == s.input,
        after_poll(s, None).stack == s.stack,
        frame_after_poll(s, None) is None,
        runs_after_poll(s, None),
{
}

/// The loop stops exactly when an event has led to the terminated mode; in
/// navigation mode the key `q` does so.
pub proof fn lemma_quit_stops_the_loop(s: StateView)
    requires
        s.mode == Mode::Normal,
    ensures
        after_poll(s, Some(Event::Key(Key::Char('q')))).mode == Mode::Exit,
        !runs_after_poll(s, Some(Event::Key(Key::Char('q')))),
{
}

/// Takes one turn of the event loop with what the poll brought.
///
/// Without an event nothing happens: the state stays, nothing is painted and
/// the loop goes on. With an event the state moves by the transition
/// function, the new state is painted, and the loop goes on unless the new
/// state is terminated.
pub fn tick(st: State, polled: Option<Event>) -> (t: Tick)
    ensures
        t.state@ == after_poll(st@, polled),
        frame_texts(t.frame) == frame_after_poll(st@, polled),
        t.running == runs_after_poll(st@, polled),
        polled is None ==> t.state@ == st@ && t.frame is None && t.running,
        polled matches Some(event) ==> {
            &&& t.state@ == step(st@, event)
            &&& t.frame matches Some(lines) && line_texts(lines@) == render_lines(t.state@)
            &&& t.running == (t.state@.mode != Mode::Exit)
        },
{
    match polled {
        None => Tick { state: st, frame: None, running: true },
        Some(event) => {
            let state = update(st, event);
            let frame = render(&state);
            let running = match state.mode {
                Mode::Exit => false,
                _ => true,
            };
            Tick { state, frame: Some(frame), running }
        },
    }
}

/// The state after a run of events, taken one after the other.
pub open spec fn replay(s: StateView, events: Seq<Event>) -> StateView
    decreases events.len(),
{
    if events.len() == 0 {
        s
    } else {
        step(replay(s, events.drop_last()), events.last())
    }
}

/// Whether every event of a run is the press of a character key: none is
/// backspace, enter, escape or anything else.
pub open spec fn all_char_keys(events: Seq<Event>) -> bool {
    forall|i: int| 0 <= i < events.len() ==> (#[trigger] events[i]) matches Event::Key(Key::Char(_))
}

/// The characters that a run of events types, in order.
pub open spec fn chars_typed(events: Seq<Event>) -> Seq<char>
    decreases events.len(),
{
    if events.len() == 0 {
        Seq::<char>::empty()
    } else {
        match events.last() {
            Event::Key(Key::Char(c)) => chars_typed(events.drop_last()).push(c),
            _ => chars_typed(events.drop_last()),
        }
    }
}

/// The events of pressing backspace `n` times.
pub open spec fn backspaces(n: nat) -> Seq<Event> {
    Seq::new(n, |i: int| Event::Key(Key::Backspace))
}

/// A run of character keys types one character for each key, in the order
/// of the keys.
pub proof fn lemma_chars_typed(keys: Seq<Event>)
    requires
        all_char_keys(keys),
    ensures
        chars_typed(keys).len() == keys.len(),
        forall|i: int|
            0 <= i < keys.len() ==> #[trigger] keys[i] == Event::Key(
                Key::Char(chars_typed(keys)[i]),
            ),
    decreases keys.len(),
{
    if keys.len() > 0 {
        let front = keys.drop_last();
        lemma_chars_typed(front);
        assert(keys.last() == keys[keys.len() - 1]);
        assert forall|i: int| 0 <= i < keys.len() implies #[trigger] keys[i] == Event::Key(
            Key::Char(chars_typed(keys)[i]),
        ) by {
            if i < front.len() {
                assert(keys[i] == front[i]);
            }
        }
    }
}

/// Typing in insertion mode appends what is typed to the input, one
/// character for each key and in the order of the keys, and changes nothing
/// else.
pub proof fn lemma_typing_appends(s: StateView, keys: Seq<Event>)
    requires
        s.mode == Mode::Insert,
        all_char_keys(keys),
    ensures
        replay(s, keys) == (StateView { input: s.input + chars_typed(keys), ..s }),
    decreases keys.len(),
{
    if keys.len() == 0 {
        assert(s.input + chars_typed(keys) =~= s.input);
    } else {
        let front = keys.drop_last();
        lemma_typing_appends(s, front);
        assert(keys.last() == keys[keys.len() - 1]);
        assert(s.input + chars_typed(keys) =~= (s.input + chars_typed(front)).push(
            chars_typed(keys).last(),
        ));
    }
}

/// Backspace in insertion mode, pressed `n` times, removes the last `n`
/// characters of the input, and changes nothing else.
pub proof fn lemma_backspaces_remove(s: StateView, n: nat)
    requires
        s.mode == Mode::Insert,
        n <= s.input.len(),
    ensures
        replay(s, backspaces(n)) == (StateView { input: s.input.take(s.input.len() - n), ..s }),
    decreases n,
{
    if n == 0 {
        assert(s.input.take(s.input.len() - n) =~= s.input);
    } else {
        let m = (n - 1) as nat;
        lemma_backspaces_remove(s, m);
        assert(backspaces(n).drop_last() =~= backspaces(m));
        assert(s.input.take(s.input.len() - m).drop_last() =~= s.input.take(s.input.len() - n));
    }
}

/// The round trip of typing and deleting. In insertion mode, a run of
/// character keys adds its characters to the input; as many backspaces as
/// keys were pressed then give the state from before. From an empty input,
/// typing yields exactly the characters typed, and the backspaces yield the
/// empty input again.
pub proof fn lemma_typing_round_trip(s: StateView, keys: Seq<Event>)
    requires
        s.mode == Mode::Insert,
        all_char_keys(keys),
    ensures
        replay(s, keys).input == s.input + chars_typed(keys),
        replay(replay(s, keys), backspaces(keys.len())) == s,
        s.input.len() == 0 ==> replay(s, keys).input == chars_typed(keys) && replay(
            replay(s, keys),
            backspaces(keys.len()),
        ).input.len() == 0,
{
    lemma_chars_typed(keys);
    lemma_typing_appends(s, keys);
    let t = StateView { input: s.input + chars_typed(keys), ..s };
    lemma_backspaces_remove(t, keys.len());
    assert(t.input.take(t.input.len() - keys.len()) =~= s.input);
    if s.input.len() == 0 {
        assert(s.input + chars_typed(keys) =~= chars_typed(keys));
    }
}

} // verus!
