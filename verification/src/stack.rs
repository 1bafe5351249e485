//! The value stack: its entries, the persistent vector that holds them, and
//! the combination of its two topmost entries.

use vstd::prelude::*;
use hvm::language::{Rule, Term};
use im::Vector;
use crate::term::{app_term, make_app, rule_text, show_rule, show_term, term_text};

verus! {

/// `im::Vector`, the persistent vector in which the stack is kept.
#[verifier::external_type_specification]
#[verifier::external_body]
#[verifier::reject_recursive_types(A)]
pub struct ExVector<A>(Vector<A>);

/// One entry of the stack: a rewrite rule or a term. An entry is never
/// changed once it is made; combining makes a new one.
pub enum StackEntry {
    Rule(Rule),
    Term(Term),
}

impl Clone for StackEntry {
    /// A copy that holds the same rule or term.
    fn clone(&self) -> (r: StackEntry)
        ensures
            r == *self,
    {
        match self {
            StackEntry::Rule(rule) => StackEntry::Rule(rule.clone()),
            StackEntry::Term(term) => StackEntry::Term(term.clone()),
        }
    }
}

/// The text under which an entry is shown.
pub open spec fn entry_text(e: StackEntry) -> Seq<char> {
    match e {
        StackEntry::Rule(r) => rule_text(r),
        StackEntry::Term(t) => term_text(t),
    }
}

impl StackEntry {
    /// The entry's display text.
    pub fn to_text(&self) -> (s: String)
        ensures
            s@ == entry_text(*self),
    {
        match self {
            StackEntry::Rule(r) => show_rule(r),
            StackEntry::Term(t) => show_term(t),
        }
    }
}

/// The entries of a stack, oldest first; the last one is the top.
pub uninterp spec fn stack_entries(v: Vector<StackEntry>) -> Seq<StackEntry>;

/// Calls `im::Vector::new`, which constructs an empty vector.
#[verifier::external_body]
pub(crate) fn stack_new() -> (v: Vector<StackEntry>)
    ensures
        stack_entries(v) == Seq::<StackEntry>::empty(),
{
    Vector::new()
}

/// Calls `clone` on an `im::Vector`. The clone holds the same entries in the
/// same order.
#[verifier::external_body]
pub(crate) fn stack_clone(v: &Vector<StackEntry>) -> (r: Vector<StackEntry>)
    ensures
        stack_entries(r) == stack_entries(*v),
{
    v.clone()
}

/// Calls `im::Vector::iter` and collects what it yields: a reference to each
/// entry, from the oldest to the top.
#[verifier::external_body]
pub(crate) fn stack_iter(v: &Vector<StackEntry>) -> (r: Vec<&StackEntry>)
    ensures
        r@.len() == stack_entries(*v).len(),
        forall|i: int| 0 <= i < r@.len() ==> *(#[trigger] r@[i]) == stack_entries(*v)[i],
{
    v.iter().collect()
}

/// Calls `im::Vector::push_back`, which appends one entry at the back.
#[verifier::external_body]
pub(crate) fn stack_push_back(v: &mut Vector<StackEntry>, entry: StackEntry)
    ensures
        stack_entries(*final(v)) == stack_entries(*old(v)).push(entry),
{
    v.push_back(entry)
}

/// Calls `im::Vector::pop_back`, which removes the last entry and returns
/// it, and returns `None` and leaves the vector as it is when it is empty.
#[verifier::external_body]
pub(crate) fn stack_pop_back(v: &mut Vector<StackEntry>) -> (r: Option<StackEntry>)
    ensures
        stack_entries(*old(v)).len() == 0 ==> r is None && stack_entries(*final(v))
            == stack_entries(*old(v)),
        stack_entries(*old(v)).len() > 0 ==> r == Some(stack_entries(*old(v)).last())
            && stack_entries(*final(v)) == stack_entries(*old(v)).drop_last(),
{
    v.pop_back()
}

/// Whether the two topmost entries of `s` exist and are both terms.
pub open spec fn can_combine(s: Seq<StackEntry>) -> bool {
    &&& s.len() >= 2
    &&& s[s.len() - 1] is Term
    &&& s[s.len() - 2] is Term
}

/// The stack after combining. Where the two topmost entries are terms, they
/// give way to one application whose function is the top entry and whose
/// argument is the entry below it. Otherwise the stack is as before.
pub open spec fn combined(s: Seq<StackEntry>) -> Seq<StackEntry> {
    if can_combine(s) {
        s.take(s.len() - 2).push(
            StackEntry::Term(app_term(s[s.len() - 1]->Term_0, s[s.len() - 2]->Term_0)),
        )
    } else {
        s
    }
}

/// Combines the two topmost entries of the stack, all or nothing.
///
/// On a stack that ends in two terms the result is one entry shorter and
/// ends in their application. On any other stack (fewer than two entries, or
/// a rule among the top two) the result holds exactly the entries of
/// `stack`.
pub fn combine(stack: Vector<StackEntry>) -> (r: Vector<StackEntry>)
    ensures
        stack_entries(r) == combined(stack_entries(stack)),
        !can_combine(stack_entries(stack)) ==> stack_entries(r) == stack_entries(stack),
        can_combine(stack_entries(stack)) ==> ({
            let s = stack_entries(stack);
            let top = s[s.len() - 1]->Term_0;
            let below = s[s.len() - 2]->Term_0;
            &&& stack_entries(r).len() == s.len() - 1
            &&& stack_entries(r).last() == StackEntry::Term(app_term(top, below))
            &&& stack_entries(r).drop_last() == s.take(s.len() - 2)
        }),
{
    let mut work = stack_clone(&stack);
    let fst = stack_pop_back(&mut work);
    let snd = stack_pop_back(&mut work);
    match (fst, snd) {
        (Some(StackEntry::Term(func)), Some(StackEntry::Term(argm))) => {
            stack_push_back(&mut work, StackEntry::Term(make_app(func, argm)));
            proof {
                let s = stack_entries(stack);
                assert(s.drop_last().drop_last() =~= s.take(s.len() - 2));
                assert(combined(s).drop_last() =~= s.take(s.len() - 2));
            }
            work
        },
        _ => stack,
    }
}

} // verus!
