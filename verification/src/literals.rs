//! Whether the term parser returns on a text, decided before the text goes
//! to it.
//!
//! The parser of `hvm` reads a string literal up to its closing delimiter
//! and does not stop at the end of the text, and it takes for granted that a
//! token which it reads as a number is one of at most 64 bits. Text on which
//! it meets an open string literal, or such a token that is no such number,
//! must therefore not reach it.
//!
//! This module follows the parser's walk over a text: which alternative of
//! the grammar is taken at each place, and where each term ends. The walk
//! builds nothing. It ends in one of three ways: a term was read, the
//! parser reports that there is none, or the parser meets one of the two
//! literals on which it does not return. A text is well formed unless its
//! walk ends in the third way.

use vstd::prelude::*;

verus! {

/// An ASCII decimal digit.
pub open spec fn is_digit(c: char) -> bool {
    '0' <= c && c <= '9'
}

/// A character that may stand in a name or a number: an ASCII letter or
/// digit, `_`, `.` or `$`.
pub open spec fn is_name_char(c: char) -> bool {
    is_digit(c) || ('a' <= c && c <= 'z') || ('A' <= c && c <= 'Z') || c == '_' || c == '.' || c
        == '$'
}

/// A character that opens a string literal, and closes the one it opened.
pub open spec fn is_quote(c: char) -> bool {
    c == '"' || c == '`'
}

/// The first index at or after `i` that holds `delim` or the NUL character,
/// either of which closes a string literal; the length of `s` where there is
/// none.
pub open spec fn string_close(s: Seq<char>, i: int, delim: char) -> int
    decreases s.len() - i,
{
    if 0 <= i < s.len() && s[i] != delim && s[i] != '\0' {
        string_close(s, i + 1, delim)
    } else {
        i
    }
}

/// The first index at or after `i` that holds a line feed; the length of `s`
/// where there is none.
pub open spec fn line_end(s: Seq<char>, i: int) -> int
    decreases s.len() - i,
{
    if 0 <= i < s.len() && s[i] != '\n' {
        line_end(s, i + 1)
    } else {
        i
    }
}

/// The first index at or after `i` that holds no name character; the length
/// of `s` where there is none.
pub open spec fn run_end(s: Seq<char>, i: int) -> int
    decreases s.len() - i,
{
    if 0 <= i < s.len() && is_name_char(s[i]) {
        run_end(s, i + 1)
    } else {
        i
    }
}

/// The value of a decimal digit.
pub open spec fn digit_value(c: char) -> nat {
    (c as int - '0' as int) as nat
}

/// The number that a sequence of decimal digits writes.
pub open spec fn decimal(digits: Seq<char>) -> nat
    decreases digits.len(),
{
    if digits.len() == 0 {
        0
    } else {
        decimal(digits.drop_last()) * 10 + digit_value(digits.last())
    }
}

/// Whether `run` consists of decimal digits and writes a number that fits in
/// 64 bits.
pub open spec fn is_number(run: Seq<char>) -> bool {
    &&& forall|k: int| 0 <= k < run.len() ==> is_digit(#[trigger] run[k])
    &&& decimal(run) <= u64::MAX
}

/// A blank, as the parser skips it: a character with the Unicode property
/// `White_Space`.
pub open spec fn is_space(c: char) -> bool {
    ||| ('\u{9}' <= c && c <= '\u{d}')
    ||| c == ' '
    ||| c == '\u{85}'
    ||| c == '\u{a0}'
    ||| c == '\u{1680}'
    ||| ('\u{2000}' <= c && c <= '\u{200a}')
    ||| c == '\u{2028}'
    ||| c == '\u{2029}'
    ||| c == '\u{202f}'
    ||| c == '\u{205f}'
    ||| c == '\u{3000}'
}

/// A character with which an operator starts.
pub open spec fn is_op_char(c: char) -> bool {
    c == '+' || c == '-' || c == '*' || c == '/' || c == '%' || c == '&' || c == '|' || c == '^'
        || c == '<' || c == '>' || c == '=' || c == '!'
}

/// Whether a comment starts at index `i`.
pub open spec fn at_comment(s: Seq<char>, i: int) -> bool {
    0 <= i && i + 1 < s.len() && s[i] == '/' && s[i + 1] == '/'
}

/// Whether the three letters `a`, `b`, `c` and a blank stand at index `i`:
/// the form of the keywords `let`, `dup` and `ask`.
pub open spec fn at_word(s: Seq<char>, i: int, a: char, b: char, c: char) -> bool {
    0 <= i && i + 4 <= s.len() && s[i] == a && s[i + 1] == b && s[i + 2] == c && s[i + 3] == ' '
}

/// The first index at or after `i` that starts neither a comment nor a
/// blank. A comment runs from `//` to the end of its line.
pub open spec fn skip(s: Seq<char>, i: int) -> int
    decreases s.len() - i,
{
    if at_comment(s, i) {
        proof {
            lemma_line_end_bounds(s, i + 2);
        }
        skip(s, line_end(s, i + 2))
    } else if 0 <= i < s.len() && is_space(s[i]) {
        skip(s, i + 1)
    } else {
        i
    }
}

/// Where a name that must not be empty ends, read after blanks and comments
/// from index `i`; `None` where no name character stands there.
pub open spec fn name1_end(s: Seq<char>, i: int) -> Option<int> {
    let start = skip(s, i);
    let end = run_end(s, start);
    if end > start {
        Some(end)
    } else {
        None
    }
}

/// Where the operator at index `i` ends; `None` where there is none. The
/// two-character operators win over their one-character beginnings, and `=`
/// and `!` alone are no operators.
pub open spec fn oper_end(s: Seq<char>, i: int) -> Option<int> {
    let c = s[i];
    let then_eq = i + 1 < s.len() && s[i + 1] == '=';
    let doubled = i + 1 < s.len() && s[i + 1] == c;
    if !(0 <= i < s.len()) {
        None
    } else if c == '+' || c == '-' || c == '*' || c == '/' || c == '%' || c == '&' || c == '|'
        || c == '^' {
        Some(i + 1)
    } else if c == '<' || c == '>' {
        if doubled || then_eq {
            Some(i + 2)
        } else {
            Some(i + 1)
        }
    } else if (c == '=' || c == '!') && then_eq {
        Some(i + 2)
    } else {
        None
    }
}

/// The index after an optional `mark`, looked for after blanks and comments
/// from index `i`. Without the mark it is the index that the skipping
/// reached.
pub open spec fn after_optional(s: Seq<char>, i: int, mark: char) -> int {
    let at = skip(s, i);
    if 0 <= at < s.len() && s[at] == mark {
        at + 1
    } else {
        at
    }
}

/// How the parser's walk over a piece of text ends.
pub enum Walk {
    /// A term was read; the walk stands at the given index.
    Done(int),
    /// The parser reports that the text is no term.
    Fail,
    /// The parser meets an open string literal, on which it does not stop,
    /// or a number token that is no 64-bit number, on which it panics.
    Stuck,
}

/// A walk that started at `start`, held to have moved on and to have stayed
/// in the text. Every walk that reads a term does both
/// (`lemma_walk_moves_on`); the test is there so that the definitions below
/// are well founded.
pub open spec fn forward(s: Seq<char>, start: int, w: Walk) -> Walk {
    match w {
        Walk::Done(end) => if start < end <= s.len() {
            w
        } else {
            Walk::Stuck
        },
        _ => w,
    }
}

/// The three kinds of term lists in the grammar.
#[derive(Clone, Copy, Debug, PartialEq, Eq, Structural)]
pub enum Items {
    /// The arguments of a constructor: terms up to `)`.
    Args,
    /// The parts of an application: terms up to `)`, after which blanks and
    /// comments are skipped as well.
    Apps,
    /// The elements of a list: terms up to `]`, each with an optional comma
    /// behind it.
    List,
}

/// The walk over one term from index `pos`.
///
/// After blanks and comments the alternatives are tried in the parser's
/// order, and the first whose head matches is taken for good:
/// `let`, `dup`, a lambda (`λ` or `@`), a constructor (an upper-case letter,
/// with or without `(` before it), an operation (`(` and an operator), an
/// application (`(`), a number (a digit), a symbol (`%`), a character
/// literal, a string literal, a list (`[`), `ask` with and without a name,
/// and a variable (a lower-case letter, `_` or `$`). Where none matches the
/// parser fails.
pub open spec fn walk_term(s: Seq<char>, pos: int) -> Walk
    decreases s.len() - pos, 0nat,
{
    let p = skip(s, pos);
    if pos < 0 || p < pos || p >= s.len() {
        Walk::Fail
    } else {
        proof {
            lemma_skip_bounds_all(s);
            lemma_run_end_bounds_all(s);
        }
        let c = s[p];
        let open = c == '(';
        let h = if open {
            skip(s, p + 1)
        } else {
            p
        };
        let head = if h < s.len() {
            s[h]
        } else {
            '\0'
        };
        if at_word(s, p, 'l', 'e', 't') {
            match name1_end(s, p + 4) {
                Some(n) => walk_bound(s, n),
                None => Walk::Fail,
            }
        } else if at_word(s, p, 'd', 'u', 'p') {
            match name1_end(s, p + 4) {
                Some(n) => match name1_end(s, n) {
                    Some(m) => walk_bound(s, m),
                    None => Walk::Fail,
                },
                None => Walk::Fail,
            }
        } else if c == '\u{3bb}' || c == '@' {
            walk_term(s, run_end(s, skip(s, p + 1)))
        } else if 'A' <= head && head <= 'Z' {
            let n = run_end(s, h + 1);
            if open {
                walk_items(s, n, Items::Args)
            } else {
                Walk::Done(n)
            }
        } else if open && is_op_char(head) {
            match oper_end(s, h) {
                Some(o) => walk_operands(s, o),
                None => Walk::Fail,
            }
        } else if open {
            walk_items(s, p + 1, Items::Apps)
        } else if is_digit(c) {
            let n = run_end(s, p + 1);
            if is_number(s.subrange(p, n)) {
                Walk::Done(n)
            } else {
                Walk::Stuck
            }
        } else if c == '%' {
            Walk::Done(run_end(s, skip(s, p + 1)))
        } else if c == '\'' {
            if p + 1 < s.len() {
                Walk::Done(after_optional(s, p + 2, '\''))
            } else {
                Walk::Fail
            }
        } else if is_quote(c) {
            let j = string_close(s, p + 1, c);
            if j < s.len() {
                Walk::Done(j + 1)
            } else {
                Walk::Stuck
            }
        } else if c == '[' {
            walk_items(s, p + 1, Items::List)
        } else if at_word(s, p, 'a', 's', 'k') {
            let n0 = skip(s, p + 4);
            let n1 = run_end(s, n0);
            let e = skip(s, n1);
            if n1 > n0 && e < s.len() && s[e] == '=' {
                walk_pair(s, e + 1)
            } else {
                walk_pair(s, p + 4)
            }
        } else if ('a' <= c && c <= 'z') || c == '_' || c == '$' {
            Walk::Done(run_end(s, p + 1))
        } else {
            Walk::Fail
        }
    }
}

/// The walk over `= term ; term` from index `pos`, where the `=` must stand
/// and the `;` may be missing: what follows the names of a `let` or `dup`.
pub open spec fn walk_bound(s: Seq<char>, pos: int) -> Walk
    decreases s.len() - pos, 1nat,
{
    let e = skip(s, pos);
    if 0 <= pos <= e < s.len() && s[e] == '=' {
        walk_pair(s, e + 1)
    } else {
        Walk::Fail
    }
}

/// The walk over `term ; term` from index `pos`, where the `;` may be
/// missing.
pub open spec fn walk_pair(s: Seq<char>, pos: int) -> Walk
    decreases s.len() - pos, 1nat,
{
    if pos < 0 || pos > s.len() {
        Walk::Fail
    } else {
        match forward(s, pos, walk_term(s, pos)) {
            Walk::Done(r) => {
                proof {
                    lemma_skip_bounds_all(s);
                }
                walk_term(s, after_optional(s, r, ';'))
            },
            w => w,
        }
    }
}

/// The walk over the two operands of an operation and its optional `)`.
pub open spec fn walk_operands(s: Seq<char>, pos: int) -> Walk
    decreases s.len() - pos, 1nat,
{
    if pos < 0 || pos > s.len() {
        Walk::Fail
    } else {
        match forward(s, pos, walk_term(s, pos)) {
            Walk::Done(r) => match forward(s, r, walk_term(s, r)) {
                Walk::Done(r2) => Walk::Done(after_optional(s, r2, ')')),
                w => w,
            },
            w => w,
        }
    }
}

/// The walk over a list of terms from index `pos` up to the closing
/// bracket of its kind.
pub open spec fn walk_items(s: Seq<char>, pos: int, kind: Items) -> Walk
    decreases s.len() - pos, 1nat,
{
    let p = skip(s, pos);
    let close = if kind is List {
        ']'
    } else {
        ')'
    };
    if pos < 0 || p < pos || p > s.len() {
        Walk::Fail
    } else if p < s.len() && s[p] == close {
        if kind is Apps {
            Walk::Done(skip(s, p + 1))
        } else {
            Walk::Done(p + 1)
        }
    } else {
        match forward(s, p, walk_term(s, p)) {
            Walk::Done(r) => {
                proof {
                    lemma_skip_bounds_all(s);
                }
                if kind is List {
                    walk_items(s, after_optional(s, r, ','), kind)
                } else {
                    walk_items(s, r, kind)
                }
            },
            w => w,
        }
    }
}

/// Whether the parser returns on `s`: its walk from the start of the text
/// meets neither an open string literal nor a number token that is no
/// 64-bit number.
pub open spec fn well_formed(s: Seq<char>) -> bool {
    !(walk_term(s, 0) is Stuck)
}

/// `string_close` stays between its start and the end of the text.
pub proof fn lemma_string_close_bounds(s: Seq<char>, i: int, delim: char)
    requires
        0 <= i <= s.len(),
    ensures
        i <= string_close(s, i, delim) <= s.len(),
    decreases s.len() - i,
{
    if i < s.len() && s[i] != delim && s[i] != '\0' {
        lemma_string_close_bounds(s, i + 1, delim);
    }
}

/// `line_end` stays between its start and the end of the text.
pub proof fn lemma_line_end_bounds(s: Seq<char>, i: int)
    requires
        0 <= i <= s.len(),
    ensures
        i <= line_end(s, i) <= s.len(),
    decreases s.len() - i,
{
    if i < s.len() && s[i] != '\n' {
        lemma_line_end_bounds(s, i + 1);
    }
}

/// `run_end` stays between its start and the end of the text.
pub proof fn lemma_run_end_bounds(s: Seq<char>, i: int)
    requires
        0 <= i <= s.len(),
    ensures
        i <= run_end(s, i) <= s.len(),
    decreases s.len() - i,
{
    if i < s.len() && is_name_char(s[i]) {
        lemma_run_end_bounds(s, i + 1);
    }
}

/// `skip` stays between its start and the end of the text.
pub proof fn lemma_skip_bounds(s: Seq<char>, i: int)
    requires
        0 <= i <= s.len(),
    ensures
        i <= skip(s, i) <= s.len(),
    decreases s.len() - i,
{
    if at_comment(s, i) {
        lemma_line_end_bounds(s, i + 2);
        lemma_skip_bounds(s, line_end(s, i + 2));
    } else if i < s.len() && is_space(s[i]) {
        lemma_skip_bounds(s, i + 1);
    }
}

/// `skip` stays between its start and the end of the text, from every
/// start.
pub proof fn lemma_skip_bounds_all(s: Seq<char>)
    ensures
        forall|i: int| 0 <= i <= s.len() ==> i <= #[trigger] skip(s, i) <= s.len(),
{
    assert forall|i: int| 0 <= i <= s.len() implies i <= #[trigger] skip(s, i) <= s.len() by {
        lemma_skip_bounds(s, i);
    }
}

/// `run_end` stays between its start and the end of the text, from every
/// start.
pub proof fn lemma_run_end_bounds_all(s: Seq<char>)
    ensures
        forall|i: int| 0 <= i <= s.len() ==> i <= #[trigger] run_end(s, i) <= s.len(),
{
    assert forall|i: int| 0 <= i <= s.len() implies i <= #[trigger] run_end(s, i) <= s.len() by {
        lemma_run_end_bounds(s, i);
    }
}

/// A walk over a term that reads one moves on and stays in the text, so
/// that `forward` changes nothing of it.
pub proof fn lemma_walk_moves_on(s: Seq<char>, pos: int)
    requires
        0 <= pos <= s.len(),
    ensures
        walk_term(s, pos) matches Walk::Done(end) ==> pos < end <= s.len(),
        forward(s, pos, walk_term(s, pos)) == walk_term(s, pos),
    decreases s.len() - pos, 0nat,
{
    lemma_skip_bounds_all(s);
    lemma_run_end_bounds_all(s);
    let p = skip(s, pos);
    if p < s.len() {
        let h = if s[p] == '(' {
            skip(s, p + 1)
        } else {
            p
        };
        lemma_string_close_bounds(s, p + 1, s[p]);
        if p + 4 <= s.len() {
            match name1_end(s, p + 4) {
                Some(n) => {
                    lemma_bound_moves_on(s, n);
                    match name1_end(s, n) {
                        Some(m) => {
                            lemma_bound_moves_on(s, m);
                        },
                        None => {},
                    }
                },
                None => {},
            }
            lemma_pair_moves_on(s, p + 4);
            let e = skip(s, run_end(s, skip(s, p + 4)));
            if e < s.len() {
                lemma_pair_moves_on(s, e + 1);
            }
        }
        lemma_walk_moves_on(s, run_end(s, skip(s, p + 1)));
        if h < s.len() {
            lemma_items_move_on(s, run_end(s, h + 1), Items::Args);
            match oper_end(s, h) {
                Some(o) => {
                    lemma_operands_move_on(s, o);
                },
                None => {},
            }
        }
        lemma_items_move_on(s, p + 1, Items::Apps);
        lemma_items_move_on(s, p + 1, Items::List);
    }
}

/// As `lemma_walk_moves_on`, for what follows the names of a binding.
pub proof fn lemma_bound_moves_on(s: Seq<char>, pos: int)
    requires
        0 <= pos <= s.len(),
    ensures
        walk_bound(s, pos) matches Walk::Done(end) ==> pos < end <= s.len(),
    decreases s.len() - pos, 1nat,
{
    lemma_skip_bounds_all(s);
    let e = skip(s, pos);
    if e < s.len() {
        lemma_pair_moves_on(s, e + 1);
    }
}

/// As `lemma_walk_moves_on`, for two terms with an optional `;` between
/// them.
pub proof fn lemma_pair_moves_on(s: Seq<char>, pos: int)
    requires
        0 <= pos <= s.len(),
    ensures
        walk_pair(s, pos) matches Walk::Done(end) ==> pos < end <= s.len(),
    decreases s.len() - pos, 1nat,
{
    lemma_skip_bounds_all(s);
    lemma_walk_moves_on(s, pos);
    match walk_term(s, pos) {
        Walk::Done(r) => {
            lemma_walk_moves_on(s, after_optional(s, r, ';'));
        },
        _ => {},
    }
}

/// As `lemma_walk_moves_on`, for the operands of an operation.
pub proof fn lemma_operands_move_on(s: Seq<char>, pos: int)
    requires
        0 <= pos <= s.len(),
    ensures
        walk_operands(s, pos) matches Walk::Done(end) ==> pos < end <= s.len(),
    decreases s.len() - pos, 1nat,
{
    lemma_skip_bounds_all(s);
    lemma_walk_moves_on(s, pos);
    match walk_term(s, pos) {
        Walk::Done(r) => {
            lemma_walk_moves_on(s, r);
        },
        _ => {},
    }
}

/// As `lemma_walk_moves_on`, for a list of terms.
pub proof fn lemma_items_move_on(s: Seq<char>, pos: int, kind: Items)
    requires
        0 <= pos <= s.len(),
    ensures
        walk_items(s, pos, kind) matches Walk::Done(end) ==> pos < end <= s.len(),
    decreases s.len() - pos, 1nat,
{
    lemma_skip_bounds_all(s);
    let p = skip(s, pos);
    lemma_walk_moves_on(s, p);
    match walk_term(s, p) {
        Walk::Done(r) => {
            if kind is List {
                lemma_items_move_on(s, after_optional(s, r, ','), kind);
            } else {
                lemma_items_move_on(s, r, kind);
            }
        },
        _ => {},
    }
}

/// A number is at least the number that any of its prefixes writes.
pub proof fn lemma_decimal_prefix(digits: Seq<char>, k: int)
    requires
        0 <= k <= digits.len(),
    ensures
        decimal(digits.take(k)) <= decimal(digits),
    decreases digits.len(),
{
    if k < digits.len() {
        lemma_decimal_prefix(digits.drop_last(), k);
        assert(digits.drop_last().take(k) =~= digits.take(k));
    } else {
        assert(digits.take(k) =~= digits);
    }
}

fn digit(c: char) -> (b: bool)
    ensures
        b == is_digit(c),
{
    '0' <= c && c <= '9'
}

fn name_char(c: char) -> (b: bool)
    ensures
        b == is_name_char(c),
{
    digit(c) || ('a' <= c && c <= 'z') || ('A' <= c && c <= 'Z') || c == '_' || c == '.' || c
        == '$'
}

fn find_string_close(v: &Vec<char>, start: usize, delim: char) -> (j: usize)
    requires
        start <= v.len(),
    ensures
        j == string_close(v@, start as int, delim),
{
    let mut j: usize = start;
    while j < v.len() && v[j] != delim && v[j] != '\0'
        invariant
            start <= j <= v.len(),
            string_close(v@, j as int, delim) == string_close(v@, start as int, delim),
        decreases v.len() - j,
    {
        j += 1;
    }
    j
}

fn find_line_end(v: &Vec<char>, start: usize) -> (j: usize)
    requires
        start <= v.len(),
    ensures
        j == line_end(v@, start as int),
{
    let mut j: usize = start;
    while j < v.len() && v[j] != '\n'
        invariant
            start <= j <= v.len(),
            line_end(v@, j as int) == line_end(v@, start as int),
        decreases v.len() - j,
    {
        j += 1;
    }
    j
}

fn find_run_end(v: &Vec<char>, start: usize) -> (j: usize)
    requires
        start <= v.len(),
    ensures
        j == run_end(v@, start as int),
{
    let mut j: usize = start;
    while j < v.len() && name_char(v[j])
        invariant
            start <= j <= v.len(),
            run_end(v@, j as int) == run_end(v@, start as int),
        decreases v.len() - j,
    {
        j += 1;
    }
    j
}

/// The end of the run of name characters that starts at `start`, where the
/// run is a number that fits in 64 bits.
fn find_number_end(v: &Vec<char>, start: usize) -> (r: Option<usize>)
    requires
        start < v.len(),
    ensures
        is_number(v@.subrange(start as int, run_end(v@, start as int))) ==> r == Some(
            run_end(v@, start as int) as usize,
        ),
        !is_number(v@.subrange(start as int, run_end(v@, start as int))) ==> r is None,
{
    let ghost s = v@;
    let ghost end = run_end(s, start as int);
    proof {
        lemma_run_end_bounds(s, start as int);
    }
    let mut k: usize = start;
    let mut value: u64 = 0;
    while k < v.len() && name_char(v[k])
        invariant
            s == v@,
            end == run_end(s, start as int),
            start <= k <= end <= v.len(),
            run_end(s, k as int) == end,
            forall|m: int| start <= m < k ==> is_digit(#[trigger] s[m]),
            value == decimal(s.subrange(start as int, k as int)),
        decreases v.len() - k,
    {
        let c = v[k];
        proof {
            lemma_run_end_bounds(s, k + 1);
            assert(s.subrange(start as int, end)[k - start] == s[k as int]);
            assert(s.subrange(start as int, k + 1).drop_last() =~= s.subrange(
                start as int,
                k as int,
            ));
            assert(s.subrange(start as int, end).take(k + 1 - start) =~= s.subrange(
                start as int,
                k + 1,
            ));
            lemma_decimal_prefix(s.subrange(start as int, end), k + 1 - start);
        }
        if !digit(c) {
            return None;
        }
        let d: u64 = (c as u32 - '0' as u32) as u64;
        if value > (u64::MAX - d) / 10 {
            return None;
        }
        value = value * 10 + d;
        k += 1;
    }
    proof {
        assert forall|m: int| 0 <= m < s.subrange(start as int, end).len() implies is_digit(
            #[trigger] s.subrange(start as int, end)[m],
        ) by {
            assert(s.subrange(start as int, end)[m] == s[start + m]);
        }
    }
    Some(k)
}



/// Whether `c` is a blank, as the parser skips it.
pub fn is_blank(c: char) -> (b: bool)
    ensures
        b == is_space(c),
{
    ('\u{9}' <= c && c <= '\u{d}') || c == ' ' || c == '\u{85}' || c == '\u{a0}' || c
        == '\u{1680}' || ('\u{2000}' <= c && c <= '\u{200a}') || c == '\u{2028}' || c
        == '\u{2029}' || c == '\u{202f}' || c == '\u{205f}' || c == '\u{3000}'
}

fn op_char(c: char) -> (b: bool)
    ensures
        b == is_op_char(c),
{
    c == '+' || c == '-' || c == '*' || c == '/' || c == '%' || c == '&' || c == '|' || c == '^'
        || c == '<' || c == '>' || c == '=' || c == '!'
}

fn word_at(v: &Vec<char>, i: usize, a: char, b: char, c: char) -> (r: bool)
    requires
        i <= v.len(),
    ensures
        r == at_word(v@, i as int, a, b, c),
{
    v.len() - i >= 4 && v[i] == a && v[i + 1] == b && v[i + 2] == c && v[i + 3] == ' '
}

fn skip_at(v: &Vec<char>, start: usize) -> (j: usize)
    requires
        start <= v.len(),
    ensures
        j == skip(v@, start as int),
        start <= j <= v.len(),
{
    let mut i: usize = start;
    while i < v.len()
        invariant
            start <= i <= v.len(),
            skip(v@, i as int) == skip(v@, start as int),
        decreases v.len() - i,
    {
        if v.len() - i >= 2 && v[i] == '/' && v[i + 1] == '/' {
            proof {
                lemma_line_end_bounds(v@, i + 2);
            }
            i = find_line_end(v, i + 2);
        } else if is_blank(v[i]) {
            i += 1;
        } else {
            return i;
        }
    }
    i
}

fn name1_at(v: &Vec<char>, i: usize) -> (r: Option<usize>)
    requires
        i <= v.len(),
    ensures
        match name1_end(v@, i as int) {
            Some(n) => r == Some(n as usize) && i < n <= v.len(),
            None => r is None,
        },
{
    let start = skip_at(v, i);
    let end = find_run_end(v, start);
    proof {
        lemma_run_end_bounds(v@, start as int);
    }
    if end > start {
        Some(end)
    } else {
        None
    }
}

fn oper_at(v: &Vec<char>, i: usize) -> (r: Option<usize>)
    requires
        i < v.len(),
    ensures
        match oper_end(v@, i as int) {
            Some(o) => r == Some(o as usize) && i < o <= v.len(),
            None => r is None,
        },
{
    let c = v[i];
    let then_eq = v.len() - i > 1 && v[i + 1] == '=';
    let doubled = v.len() - i > 1 && v[i + 1] == c;
    if c == '+' || c == '-' || c == '*' || c == '/' || c == '%' || c == '&' || c == '|' || c
        == '^' {
        Some(i + 1)
    } else if c == '<' || c == '>' {
        if doubled || then_eq {
            Some(i + 2)
        } else {
            Some(i + 1)
        }
    } else if (c == '=' || c == '!') && then_eq {
        Some(i + 2)
    } else {
        None
    }
}

fn optional_at(v: &Vec<char>, i: usize, mark: char) -> (j: usize)
    requires
        i <= v.len(),
    ensures
        j == after_optional(v@, i as int, mark),
        i <= j <= v.len(),
{
    let at = skip_at(v, i);
    if at < v.len() && v[at] == mark {
        at + 1
    } else {
        at
    }
}

/// How a walk ends, with an index that a machine can hold.
#[derive(Clone, Copy, Debug, PartialEq, Eq, Structural)]
pub enum Scan {
    /// A term was read; the walk stands at the given index.
    Done(usize),
    /// The parser reports that the text is no term.
    Fail,
    /// The parser does not return.
    Stuck,
}

impl Scan {
    /// The same ending as a `Walk`.
    pub open spec fn walk(self) -> Walk {
        match self {
            Scan::Done(end) => Walk::Done(end as int),
            Scan::Fail => Walk::Fail,
            Scan::Stuck => Walk::Stuck,
        }
    }
}

fn scan_term(v: &Vec<char>, pos: usize) -> (r: Scan)
    requires
        pos <= v.len(),
    ensures
        r.walk() == walk_term(v@, pos as int),
        r matches Scan::Done(end) ==> pos < end <= v.len(),
    decreases v.len() - pos, 0nat,
{
    let n = v.len();
    let p = skip_at(v, pos);
    if p >= n {
        return Scan::Fail;
    }
    proof {
        lemma_skip_bounds_all(v@);
        lemma_run_end_bounds_all(v@);
        lemma_string_close_bounds(v@, p + 1, v@[p as int]);
    }
    let c = v[p];
    let open = c == '(';
    let h = if open {
        skip_at(v, p + 1)
    } else {
        p
    };
    let head = if h < n {
        v[h]
    } else {
        '\0'
    };
    if word_at(v, p, 'l', 'e', 't') {
        match name1_at(v, p + 4) {
            Some(m) => scan_bound(v, m),
            None => Scan::Fail,
        }
    } else if word_at(v, p, 'd', 'u', 'p') {
        match name1_at(v, p + 4) {
            Some(m) => match name1_at(v, m) {
                Some(k) => scan_bound(v, k),
                None => Scan::Fail,
            },
            None => Scan::Fail,
        }
    } else if c == '\u{3bb}' || c == '@' {
        let name_start = skip_at(v, p + 1);
        scan_term(v, find_run_end(v, name_start))
    } else if 'A' <= head && head <= 'Z' {
        let name_end = find_run_end(v, h + 1);
        if open {
            scan_items(v, name_end, Items::Args)
        } else {
            Scan::Done(name_end)
        }
    } else if open && op_char(head) {
        match oper_at(v, h) {
            Some(o) => scan_operands(v, o),
            None => Scan::Fail,
        }
    } else if open {
        scan_items(v, p + 1, Items::Apps)
    } else if digit(c) {
        match find_number_end(v, p) {
            Some(end) => Scan::Done(end),
            None => Scan::Stuck,
        }
    } else if c == '%' {
        let name_start = skip_at(v, p + 1);
        Scan::Done(find_run_end(v, name_start))
    } else if c == '\'' {
        if n - p > 1 {
            Scan::Done(optional_at(v, p + 2, '\''))
        } else {
            Scan::Fail
        }
    } else if c == '"' || c == '`' {
        let j = find_string_close(v, p + 1, c);
        if j < n {
            Scan::Done(j + 1)
        } else {
            Scan::Stuck
        }
    } else if c == '[' {
        scan_items(v, p + 1, Items::List)
    } else if word_at(v, p, 'a', 's', 'k') {
        let n0 = skip_at(v, p + 4);
        let n1 = find_run_end(v, n0);
        let e = skip_at(v, n1);
        if n1 > n0 && e < n && v[e] == '=' {
            scan_pair(v, e + 1)
        } else {
            scan_pair(v, p + 4)
        }
    } else if ('a' <= c && c <= 'z') || c == '_' || c == '$' {
        Scan::Done(find_run_end(v, p + 1))
    } else {
        Scan::Fail
    }
}

fn scan_bound(v: &Vec<char>, pos: usize) -> (r: Scan)
    requires
        pos <= v.len(),
    ensures
        r.walk() == walk_bound(v@, pos as int),
        r matches Scan::Done(end) ==> pos < end <= v.len(),
    decreases v.len() - pos, 1nat,
{
    let e = skip_at(v, pos);
    if e < v.len() && v[e] == '=' {
        scan_pair(v, e + 1)
    } else {
        Scan::Fail
    }
}

fn scan_pair(v: &Vec<char>, pos: usize) -> (r: Scan)
    requires
        pos <= v.len(),
    ensures
        r.walk() == walk_pair(v@, pos as int),
        r matches Scan::Done(end) ==> pos < end <= v.len(),
    decreases v.len() - pos, 1nat,
{
    match scan_term(v, pos) {
        Scan::Done(first) => scan_term(v, optional_at(v, first, ';')),
        other => other,
    }
}

fn scan_operands(v: &Vec<char>, pos: usize) -> (r: Scan)
    requires
        pos <= v.len(),
    ensures
        r.walk() == walk_operands(v@, pos as int),
        r matches Scan::Done(end) ==> pos < end <= v.len(),
    decreases v.len() - pos, 1nat,
{
    match scan_term(v, pos) {
        Scan::Done(first) => match scan_term(v, first) {
            Scan::Done(second) => Scan::Done(optional_at(v, second, ')')),
            other => other,
        },
        other => other,
    }
}

fn scan_items(v: &Vec<char>, pos: usize, kind: Items) -> (r: Scan)
    requires
        pos <= v.len(),
    ensures
        r.walk() == walk_items(v@, pos as int, kind),
        r matches Scan::Done(end) ==> pos < end <= v.len(),
    decreases v.len() - pos, 1nat,
{
    let p = skip_at(v, pos);
    let close = match kind {
        Items::List => ']',
        _ => ')',
    };
    if p < v.len() && v[p] == close {
        match kind {
            Items::Apps => Scan::Done(skip_at(v, p + 1)),
            _ => Scan::Done(p + 1),
        }
    } else {
        match scan_term(v, p) {
            Scan::Done(end) => match kind {
                Items::List => scan_items(v, optional_at(v, end, ','), kind),
                _ => scan_items(v, end, kind),
            },
            other => other,
        }
    }
}

/// Follows the parser's walk over `text` from its start, and says how it
/// ends.
pub fn scan(text: &str) -> (r: Scan)
    ensures
        r.walk() == walk_term(text@, 0),
{
    let v = chars_of(text);
    scan_term(&v, 0)
}

/// Decides whether the parser returns on `text`.
pub fn is_well_formed(text: &str) -> (ok: bool)
    ensures
        ok == well_formed(text@),
{
    match scan(text) {
        Scan::Stuck => false,
        _ => true,
    }
}

/// The characters of `text`, in order.
fn chars_of(text: &str) -> (v: Vec<char>)
    ensures
        v@ == text@,
{
    let mut v: Vec<char> = Vec::new();
    for c in it: text.chars()
        invariant
            it.seq() == text@,
            v@ == it.seq().take(it.index()),
    {
        v.push(c);
    }
    v
}

} // verus!
