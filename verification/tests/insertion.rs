use hvm::language::Term;
use im::Vector;
use stack_editor::event::{Event, Key};
use stack_editor::mode::Mode;
use stack_editor::stack::StackEntry;
use stack_editor::state::State;
use stack_editor::term::parse;
use stack_editor::update::{commit, insert_update, update};

fn typing(text: &str) -> State {
    let mut st = State::new();
    for c in text.chars() {
        st = update(st, Event::Key(Key::Char(c)));
    }
    st
}

fn texts(st: &State) -> Vec<String> {
    st.stack.iter().map(|entry| entry.to_text()).collect()
}

#[test]
fn typed_characters_arrive_in_order() {
    let st = typing("(Foo x)");
    assert_eq!(st.mode, Mode::Insert);
    assert_eq!(st.input, "(Foo x)");
    assert_eq!(st.stack.len(), 0);
}

#[test]
fn as_many_backspaces_as_characters_empty_the_input() {
    let text = "λx (f x)";
    let mut st = typing(text);
    assert_eq!(st.input, text);
    for _ in 0..text.chars().count() {
        st = update(st, Event::Key(Key::Backspace));
    }
    assert_eq!(st.input, "");
    assert_eq!(st.mode, Mode::Insert);
}

#[test]
fn backspace_removes_one_whole_character() {
    let st = typing("aλ");
    let st = insert_update(st, Event::Key(Key::Backspace));
    assert_eq!(st.input, "a");
}

#[test]
fn backspace_on_empty_input_does_nothing() {
    let st = insert_update(State::new(), Event::Key(Key::Backspace));
    assert_eq!(st.input, "");
    assert_eq!(st.mode, Mode::Insert);
    assert_eq!(st.stack.len(), 0);
}

#[test]
fn other_events_do_nothing_in_insertion() {
    for event in [Event::Key(Key::Other), Event::Other] {
        let st = insert_update(typing("ab"), event);
        assert_eq!(st.input, "ab");
        assert_eq!(st.mode, Mode::Insert);
        assert_eq!(st.stack.len(), 0);
    }
}

#[test]
fn enter_pushes_the_parsed_term_and_clears_the_input() {
    let st = typing("(Foo x)");
    let st = update(st, Event::Key(Key::Enter));
    assert_eq!(st.input, "");
    assert_eq!(st.mode, Mode::Insert);
    assert_eq!(st.stack.len(), 1);
    match st.stack.get(0) {
        Some(StackEntry::Term(Term::Ctr { name, args })) => {
            assert_eq!(name, "Foo");
            assert_eq!(args.len(), 1);
        },
        _ => panic!("expected the constructor that was typed"),
    }
}

#[test]
fn enter_pushes_on_top_of_what_is_there() {
    let mut st = typing("x");
    st = update(st, Event::Key(Key::Enter));
    for c in "(+ 1 2)".chars() {
        st = update(st, Event::Key(Key::Char(c)));
    }
    st = update(st, Event::Key(Key::Enter));
    assert_eq!(st.input, "");
    assert_eq!(texts(&st), vec!["x".to_string(), "(+ 1 2)".to_string()]);
}

#[test]
fn enter_on_rejected_text_changes_nothing() {
    let mut st = typing("x");
    st = update(st, Event::Key(Key::Enter));
    for c in "(Foo x".chars() {
        st = update(st, Event::Key(Key::Char(c)));
    }
    let st = update(st, Event::Key(Key::Enter));
    assert_eq!(st.input, "(Foo x");
    assert_eq!(st.mode, Mode::Insert);
    assert_eq!(texts(&st), vec!["x".to_string()]);
}

#[test]
fn enter_on_empty_input_changes_nothing() {
    let st = update(State::new(), Event::Key(Key::Enter));
    assert_eq!(st.input, "");
    assert_eq!(st.stack.len(), 0);
}

#[test]
fn enter_on_an_open_string_keeps_the_text() {
    let st = typing("\"abc");
    let st = update(st, Event::Key(Key::Enter));
    assert_eq!(st.input, "\"abc");
    assert_eq!(st.stack.len(), 0);
}

#[test]
fn enter_on_a_number_with_letters_keeps_the_text() {
    let st = typing("(f 12ab)");
    let st = update(st, Event::Key(Key::Enter));
    assert_eq!(st.input, "(f 12ab)");
    assert_eq!(st.stack.len(), 0);
}

#[test]
fn enter_on_a_number_beyond_64_bits_keeps_the_text() {
    let st = typing("18446744073709551616");
    let st = update(st, Event::Key(Key::Enter));
    assert_eq!(st.input, "18446744073709551616");
    assert_eq!(st.stack.len(), 0);
}

#[test]
fn enter_takes_the_largest_64_bit_number() {
    let st = typing("18446744073709551615");
    let st = update(st, Event::Key(Key::Enter));
    assert_eq!(st.input, "");
    match st.stack.get(0) {
        Some(StackEntry::Term(Term::Num { numb })) => assert_eq!(*numb, u64::MAX),
        _ => panic!("expected a number"),
    }
}

#[test]
fn enter_takes_a_closed_string() {
    let st = typing("\"hi\"");
    let st = update(st, Event::Key(Key::Enter));
    assert_eq!(st.input, "");
    assert_eq!(texts(&st), vec!["\"hi\"".to_string()]);
}

#[test]
fn parse_agrees_with_the_parser() {
    let samples = [
        "x",
        "(Foo x y)",
        "λx (f x)",
        "@x x",
        "(+ 1 2)",
        "let a = 1; a",
        "dup a b = x; (a b)",
        "[1, 2, 3]",
        "'c'",
        "\"text\"",
        "`tick`",
        "%name",
        "// note\n(f x)",
        "ask x = (F); x",
        "",
        ")",
        "(Foo x",
        "let",
        "(= 1 2)",
        "'a",
        "'a '",
        "x \"",
        "\"a\" \"b",
        "λ1a 0",
        "let 1a = 2; 3",
        "x 1a",
        ") 1a",
    ];
    for text in samples {
        let ours = parse(text).map(|term| term.to_string());
        let theirs = hvm::language::read_term(text).ok().map(|term| term.to_string());
        assert_eq!(ours, theirs, "on {:?}", text);
    }
}

#[test]
fn parse_builds_the_tree_that_was_written() {
    match parse("(f x)") {
        Some(Term::App { func, argm }) => {
            assert!(matches!(&*func, Term::Var { name } if name == "f"));
            assert!(matches!(&*argm, Term::Var { name } if name == "x"));
        },
        _ => panic!("expected an application"),
    }
}

#[test]
fn parse_refuses_only_what_the_parser_does_not_return_from() {
    for text in ["\"abc", "`abc", "1x", "(f 99999999999999999999)", "(f \"", "@1a 1a"] {
        assert!(parse(text).is_none(), "on {:?}", text);
    }
    assert!(matches!(parse("'a"), Some(Term::Num { numb: 97 })));
    assert!(matches!(parse("x \""), Some(Term::Var { .. })));
    assert!(matches!(parse("λ1a 0"), Some(Term::Lam { .. })));
}

#[test]
fn enter_commits_whatever_the_parser_reads() {
    for (text, shown) in [("'a", "97"), ("x \"", "x"), ("λ1a 0", "λ1a 0"), ("'a '", "97")] {
        let st = update(typing(text), Event::Key(Key::Enter));
        assert_eq!(st.input, "", "on {:?}", text);
        assert_eq!(texts(&st), vec![shown.to_string()], "on {:?}", text);
    }
}

#[test]
fn commit_with_a_term_pushes_and_clears() {
    let mut stack = Vector::new();
    stack.push_back(StackEntry::Term(Term::Var { name: "x".to_string() }));
    let st = State { mode: Mode::Insert, input: "whatever".to_string(), stack };
    let st = commit(st, Some(Term::Num { numb: 7 }));
    assert_eq!(st.input, "");
    assert_eq!(st.mode, Mode::Insert);
    assert_eq!(texts(&st), vec!["x".to_string(), "7".to_string()]);
}

#[test]
fn commit_without_a_term_is_a_no_op() {
    let mut stack = Vector::new();
    stack.push_back(StackEntry::Term(Term::Var { name: "x".to_string() }));
    let st = State { mode: Mode::Insert, input: "whatever".to_string(), stack };
    let st = commit(st, None);
    assert_eq!(st.input, "whatever");
    assert_eq!(st.mode, Mode::Insert);
    assert_eq!(texts(&st), vec!["x".to_string()]);
}
