use stack_editor::literals::{is_blank, is_well_formed, scan, Scan};

#[test]
fn blanks_are_the_characters_that_std_calls_whitespace() {
    let mut blanks = 0;
    for code in 0..=0x10FFFFu32 {
        if let Some(c) = char::from_u32(code) {
            assert_eq!(is_blank(c), c.is_whitespace(), "on U+{:04X}", code);
            if is_blank(c) {
                blanks += 1;
            }
        }
    }
    assert_eq!(blanks, 25);
}

#[test]
fn plain_text_is_well_formed() {
    for text in ["", "x", "(Foo x y)", "λx (f x)", "(+ 1 2)", "a/b", "x1 y_2 $z.w", "(<< 1 2)"] {
        assert!(is_well_formed(text), "on {:?}", text);
    }
}

#[test]
fn a_string_that_the_parser_enters_must_be_closed() {
    assert!(is_well_formed("\"\""));
    assert!(is_well_formed("\"abc\""));
    assert!(is_well_formed("`abc`"));
    assert!(is_well_formed("(f \"a`b\" `c\"d`)"));
    assert!(is_well_formed("\"abc\0"));
    assert!(!is_well_formed("\""));
    assert!(!is_well_formed("\"abc"));
    assert!(!is_well_formed("`abc\""));
    assert!(!is_well_formed("(f \"a\" \"b"));
    assert!(!is_well_formed("(f \"x\" `y)"));
    assert!(!is_well_formed("let s = \"open; s"));
    assert!(!is_well_formed("[1, \"a]"));
}

#[test]
fn what_stands_in_a_string_is_not_looked_at() {
    assert!(is_well_formed("\"1a ' // \""));
    assert!(is_well_formed("`99999999999999999999999`"));
}

#[test]
fn what_follows_the_term_is_not_looked_at() {
    assert_eq!(scan("x \""), Scan::Done(1));
    assert_eq!(scan("\"a\" \"b"), Scan::Done(3));
    assert_eq!(scan("x 1a"), Scan::Done(1));
    assert_eq!(scan("(f x) 99999999999999999999"), Scan::Done(6));
    assert_eq!(scan("(F x) 99999999999999999999"), Scan::Done(5));
    assert_eq!(scan("Foo \"open"), Scan::Done(3));
}

#[test]
fn what_follows_a_failure_is_not_looked_at() {
    assert_eq!(scan(") \"open"), Scan::Fail);
    assert_eq!(scan("(f = 1a"), Scan::Fail);
    assert_eq!(scan("let = \"open"), Scan::Fail);
    assert_eq!(scan("(! \"open"), Scan::Fail);
}

#[test]
fn character_literals_take_one_character_and_an_optional_apostrophe() {
    assert_eq!(scan("'a'"), Scan::Done(3));
    assert_eq!(scan("'a"), Scan::Done(2));
    assert_eq!(scan("'a '"), Scan::Done(4));
    assert_eq!(scan("'\"'"), Scan::Done(3));
    assert_eq!(scan("'''"), Scan::Done(3));
    assert_eq!(scan("''"), Scan::Done(2));
    assert_eq!(scan("'"), Scan::Fail);
    assert_eq!(scan("('a'\"open"), Scan::Stuck);
    assert_eq!(scan("('\"' x)"), Scan::Done(7));
}

#[test]
fn comments_are_skipped_where_the_parser_skips() {
    assert_eq!(scan("// \" 1a '"), Scan::Fail);
    assert_eq!(scan("// note\nx"), Scan::Done(9));
    assert_eq!(scan("x // \"open\n\"closed\""), Scan::Done(1));
    assert_eq!(scan("(f // \"open\n x)"), Scan::Done(15));
    assert_eq!(scan("(f // note\n\"open"), Scan::Stuck);
    assert_eq!(scan("(// +\n f x)"), Scan::Done(11));
    assert_eq!(scan("(/ 4 2)"), Scan::Done(7));
}

#[test]
fn a_number_that_the_parser_reads_must_be_one() {
    assert_eq!(scan("0"), Scan::Done(1));
    assert_eq!(scan("007"), Scan::Done(3));
    assert_eq!(scan("(+ 12 34)"), Scan::Done(9));
    assert_eq!(scan("x1a"), Scan::Done(3));
    assert_eq!(scan("1a"), Scan::Stuck);
    assert_eq!(scan("12_3"), Scan::Stuck);
    assert_eq!(scan("1.5"), Scan::Stuck);
    assert_eq!(scan("(f x 3$)"), Scan::Stuck);
    assert_eq!(scan("[1, 2a]"), Scan::Stuck);
}

#[test]
fn a_name_may_start_with_a_digit() {
    assert_eq!(scan("λ1a 0"), Scan::Done(5));
    assert_eq!(scan("@1a 1a"), Scan::Stuck);
    assert_eq!(scan("let 1a = 2; 3"), Scan::Done(13));
    assert_eq!(scan("dup 1a 2b = x; y"), Scan::Done(16));
    assert_eq!(scan("%1a"), Scan::Done(3));
    assert_eq!(scan("ask 1a = (F); 1"), Scan::Done(15));
}

#[test]
fn numbers_must_fit_in_64_bits() {
    assert!(is_well_formed("18446744073709551615"));
    assert!(is_well_formed("000000000000000000000000000018446744073709551615"));
    assert!(!is_well_formed("18446744073709551616"));
    assert!(!is_well_formed("18446744073709551620"));
    assert!(!is_well_formed("99999999999999999999"));
    assert!(!is_well_formed("100000000000000000000000000000000000000000"));
}

#[test]
fn each_alternative_ends_where_the_parser_ends() {
    assert_eq!(scan("  x"), Scan::Done(3));
    assert_eq!(scan("Foo"), Scan::Done(3));
    assert_eq!(scan("(Foo)"), Scan::Done(5));
    assert_eq!(scan("( Foo x y ) z"), Scan::Done(11));
    assert_eq!(scan("(f x) "), Scan::Done(6));
    assert_eq!(scan("(f x"), Scan::Fail);
    assert_eq!(scan("(Foo x"), Scan::Fail);
    assert_eq!(scan("()"), Scan::Done(2));
    assert_eq!(scan("(+ 1 2"), Scan::Done(6));
    assert_eq!(scan("(<= 1 2) x"), Scan::Done(8));
    assert_eq!(scan("(= 1 2)"), Scan::Fail);
    assert_eq!(scan("(== 1 2)"), Scan::Done(8));
    assert_eq!(scan("(!= 1 2)"), Scan::Done(8));
    assert_eq!(scan("(>> 1 2)"), Scan::Done(8));
    assert_eq!(scan("[]"), Scan::Done(2));
    assert_eq!(scan("[1, 2 3,]"), Scan::Done(9));
    assert_eq!(scan("[1"), Scan::Fail);
    assert_eq!(scan("λ x x"), Scan::Done(5));
    assert_eq!(scan("λ x"), Scan::Fail);
    assert_eq!(scan("λx"), Scan::Fail);
    assert_eq!(scan("let x = 1 x"), Scan::Done(11));
    assert_eq!(scan("let x 1; x"), Scan::Fail);
    assert_eq!(scan("letx"), Scan::Done(4));
    assert_eq!(scan("let"), Scan::Done(3));
    assert_eq!(scan("ask (F); x"), Scan::Done(10));
    assert_eq!(scan("ask x = (F); x"), Scan::Done(14));
    assert_eq!(scan("%"), Scan::Done(1));
    assert_eq!(scan("% a"), Scan::Done(3));
    assert_eq!(scan(""), Scan::Fail);
    assert_eq!(scan("   "), Scan::Fail);
    assert_eq!(scan("é"), Scan::Fail);
    assert_eq!(scan("\0"), Scan::Fail);
}
