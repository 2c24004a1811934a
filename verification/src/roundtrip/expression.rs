//! From a concatenation to an expression: a concatenation that ends where
//! an expression ends is an expression by itself.

use vstd::prelude::*;

use crate::ast::Tree;
use crate::grammar;
use crate::lexer::{in_class, name, skip, CharClass, Failure};
use crate::roundtrip::literal::{closing, lemma_closing, lemma_span_none};

verus! {

/// A text that starts with a primary expression, goes on with operands
/// behind `|` and ends where an expression ends, parses as that
/// concatenation, provided that it does not start like an assignment.
pub proof fn lemma_operands(s: Seq<char>, first: Tree, r: Seq<char>, t: Tree, rest: Seq<char>)
    requires
        s.len() > 0,
        !in_class(s[0], CharClass::Space),
        !in_class(s[0], CharClass::Name),
        grammar::primary(s) == Ok::<(Tree, Seq<char>), Failure>((first, r)),
        r.len() <= s.len(),
        grammar::concat_tail(first, r) == (t, rest),
        rest.len() <= r.len(),
        closing(rest),
    ensures
        grammar::expr(s) == Ok::<(Tree, Seq<char>), Failure>((t, rest)),
{
    reveal(grammar::expr);
    reveal(grammar::var_assign);
    reveal(grammar::var_ref_assign);
    reveal(grammar::equality);
    reveal(grammar::additive);
    reveal(grammar::multiplicative);
    reveal(grammar::product_tail);
    reveal(grammar::concat);
    lemma_span_none(s, CharClass::Space);
    lemma_span_none(s, CharClass::Name);
    assert(skip(s) =~= s);
    lemma_closing(rest);
    assert(name(s) is Err);
    assert(grammar::concat(s) == Ok::<(Tree, Seq<char>), Failure>((t, rest)));
    assert(grammar::multiplicative(s) == Ok::<(Tree, Seq<char>), Failure>((t, rest)));
    assert(grammar::additive(s) == Ok::<(Tree, Seq<char>), Failure>((t, rest)));
    assert(grammar::equality(s) == Ok::<(Tree, Seq<char>), Failure>((t, rest)));
}

/// The empty text starts with no expression.
pub proof fn lemma_no_expression()
    requires
        grammar::primary(Seq::empty()) is Err,
    ensures
        grammar::expr(Seq::empty()) is Err,
{
    reveal(grammar::expr);
    reveal(grammar::var_assign);
    reveal(grammar::var_ref_assign);
    reveal(grammar::equality);
    reveal(grammar::additive);
    reveal(grammar::multiplicative);
    reveal(grammar::concat);
    let s = Seq::<char>::empty();
    lemma_span_none(s, CharClass::Space);
    lemma_span_none(s, CharClass::Name);
    assert(skip(s) =~= s);
    assert(name(s) is Err);
    assert(grammar::concat(s) is Err);
    assert(grammar::multiplicative(s) is Err);
    assert(grammar::additive(s) is Err);
    assert(grammar::equality(s) is Err);
}

} // verus!
