//! Operands behind `|`: how the text of the elements of a value extends
//! a concatenation.

use vstd::prelude::*;

use crate::ast::Tree;
use crate::grammar;
use crate::lexer::{skip, CharClass, Failure};
use crate::roundtrip::literal::{
    lemma_closing, lemma_decimal, lemma_primary_number, lemma_span_all,
};
use crate::roundtrip::{extended, tail_text};
use crate::text::decimal;

verus! {

/// The elements from position `i` on, each behind ` | `, extend the
/// concatenation on their left, up to the closing parenthesis.
pub proof fn lemma_concat_tail(left: Tree, items: Seq<u32>, i: nat, close: Seq<char>)
    requires
        i <= items.len(),
        close.len() > 0,
        close[0] == ')',
    ensures
        grammar::concat_tail(left, tail_text(items, i) + close) == (
            extended(left, items, i),
            close,
        ),
    decreases items.len() - i,
{
    reveal(grammar::concat_tail);
    if i >= items.len() {
        assert(tail_text(items, i) + close =~= close);
        lemma_closing(close);
    } else {
        let n = items[i as int];
        let after = tail_text(items, i + 1) + close;
        let operand = decimal(n as nat) + after;
        let text = tail_text(items, i) + close;
        assert(text =~= seq![' ', '|', ' '] + operand);
        lemma_decimal(n as nat);
        // the separator
        lemma_span_all(seq![' '], seq!['|', ' '] + operand, CharClass::Space);
        assert(seq![' '] + (seq!['|', ' '] + operand) =~= text);
        assert(skip(text) =~= seq!['|', ' '] + operand);
        assert(seq!['|'].is_prefix_of(skip(text)));
        assert(skip(text).skip(1) =~= seq![' '] + operand);
        assert(operand[0] == decimal(n as nat)[0]);
        lemma_span_all(seq![' '], operand, CharClass::Space);
        assert(skip(seq![' '] + operand) =~= operand);
        assert(grammar::separator(text, '|') == Ok::<Seq<char>, Failure>(operand));
        // the operand
        assert(after[0] == ' ' || after[0] == ')') by {
            if i + 1 >= items.len() {
                assert(after =~= close);
                assert(after[0] == close[0]);
            } else {
                assert(after[0] == tail_text(items, i + 1)[0]);
            }
        }
        lemma_primary_number(n, after);
        lemma_concat_tail(
            Tree::Concat(Box::new(left), Box::new(Tree::Literal(seq![n]))),
            items,
            i + 1,
            close,
        );
    }
}

/// Where an expression ends, a concatenation ends.
pub proof fn lemma_concat_tail_ends(t: Tree, rest: Seq<char>)
    requires
        crate::roundtrip::literal::closing(rest),
    ensures
        grammar::concat_tail(t, rest) == (t, rest),
{
    reveal(grammar::concat_tail);
    lemma_closing(rest);
}

} // verus!
