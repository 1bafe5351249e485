//! Terms and rules of the rewriting language, and the three things the editor
//! asks of them: building an application, showing a value as text, and
//! reading a term from text.

use vstd::prelude::*;
use hvm::language::{Rule, Term};
use crate::literals::{is_well_formed, well_formed};

verus! {

/// `hvm::language::Term`, carried through the editor without looking inside.
#[verifier::external_type_specification]
#[verifier::external_body]
pub struct ExTerm(hvm::language::Term);

/// `hvm::language::Rule`, carried through the editor without looking inside.
#[verifier::external_type_specification]
#[verifier::external_body]
pub struct ExRule(hvm::language::Rule);

/// `clone` on a `hvm::language::Term`, which the crate derives: the copy is
/// the same term.
pub assume_specification[ <hvm::language::Term as Clone>::clone ](
    t: &hvm::language::Term,
) -> (r: hvm::language::Term)
    ensures
        r == *t,
;

/// `clone` on a `hvm::language::Rule`, which the crate derives: the copy is
/// the same rule.
pub assume_specification[ <hvm::language::Rule as Clone>::clone ](
    rule: &hvm::language::Rule,
) -> (r: hvm::language::Rule)
    ensures
        r == *rule,
;

/// The application node whose function part is `func` and whose argument
/// part is `argm`.
pub uninterp spec fn app_term(func: Term, argm: Term) -> Term;

/// The text that `hvm` prints for a term.
pub uninterp spec fn term_text(t: Term) -> Seq<char>;

/// The text that `hvm` prints for a rule.
pub uninterp spec fn rule_text(r: Rule) -> Seq<char>;

/// What the parser of `hvm` answers to a text: the term it reads from the
/// start of the text, or `None` where it reports that there is none.
pub uninterp spec fn parsed_term(text: Seq<char>) -> Option<Term>;

/// The term that a text stands for: what the parser answers where it
/// returns, and none on the text on which it does not.
pub open spec fn term_of(text: Seq<char>) -> Option<Term> {
    if well_formed(text) {
        parsed_term(text)
    } else {
        None
    }
}

/// Builds `hvm::language::Term::App` from its two parts. The contract only
/// gives the node a name; nothing is claimed of it beyond that equal parts
/// give equal nodes.
#[verifier::external_body]
pub(crate) fn make_app(func: Term, argm: Term) -> (t: Term)
    ensures
        t == app_term(func, argm),
{
    Term::App { func: Box::new(func), argm: Box::new(argm) }
}

/// Calls `to_string` on a `hvm::language::Term`, which runs the crate's
/// `Display` impl for terms. The text depends on the term alone. The impl
/// recurses over the term and needs stack in proportion to its depth.
#[verifier::external_body]
pub(crate) fn show_term(t: &Term) -> (s: String)
    ensures
        s@ == term_text(*t),
{
    t.to_string()
}

/// Calls `to_string` on a `hvm::language::Rule`, which runs the crate's
/// `Display` impl for rules. The text depends on the rule alone.
#[verifier::external_body]
pub(crate) fn show_rule(r: &Rule) -> (s: String)
    ensures
        s@ == rule_text(*r),
{
    r.to_string()
}

/// Calls `hvm::language::read_term` and drops the message of a failure.
///
/// The parser reads one term from the start of the text, and what it reads
/// depends on the text alone. It is only called on well-formed text, which
/// is the text on which its walk meets neither of the two places where it
/// does not return: the loop that reads a string literal and finds no
/// closing delimiter, and the conversion of a number token that is no
/// 64-bit number. Like any recursive-descent parser it needs stack in
/// proportion to the nesting of the text.
#[verifier::external_body]
pub(crate) fn read_term(text: &str) -> (r: Option<Term>)
    requires
        well_formed(text@),
    ensures
        r == parsed_term(text@),
{
    match hvm::language::read_term(text) {
        Ok(term) => Some(*term),
        Err(_) => None,
    }
}

/// Reads a term from `text`.
///
/// The text goes to the parser wherever the parser returns on it, and the
/// parser's answer is the result. Text on which the parser would not return
/// is refused without being parsed.
pub fn parse(text: &str) -> (r: Option<Term>)
    ensures
        r == term_of(text@),
        well_formed(text@) ==> r == parsed_term(text@),
        !well_formed(text@) ==> r is None,
{
    if is_well_formed(text) {
        read_term(text)
    } else {
        None
    }
}

} // verus!
