//! Numbers and parentheses: how the text of a number and a text in
//! parentheses parse as primary expressions.

use vstd::prelude::*;

use crate::ast::Tree;
use crate::grammar;
use crate::lexer::{
    digit_value, digits_value, in_class, number, skip, span, token, CharClass, Failure,
};
use crate::text::{decimal, digit};

verus! {

/// A text at which an expression ends: the end of the text, a closing
/// parenthesis, or the semicolon that ends a statement.
pub open spec fn closing(s: Seq<char>) -> bool {
    s.len() == 0 || s[0] == ')' || s[0] == ';'
}

/// A digit's character is a digit and stands for the digit.
pub proof fn lemma_digit(d: nat)
    requires
        d < 10,
    ensures
        in_class(digit(d), CharClass::Digit),
        digit_value(digit(d)) == d,
{
}

/// A number's decimal notation is made of digits, is not empty, and
/// stands for the number.
pub proof fn lemma_decimal(n: nat)
    ensures
        decimal(n).len() >= 1,
        forall|i: int| 0 <= i < decimal(n).len() ==> in_class(#[trigger] decimal(n)[i], CharClass::Digit),
        digits_value(decimal(n)) == n,
    decreases n,
{
    if n < 10 {
        lemma_digit(n);
        assert(decimal(n).drop_last() =~= Seq::<char>::empty());
        assert(digits_value(decimal(n).drop_last()) == 0);
    } else {
        lemma_decimal(n / 10);
        lemma_digit(n % 10);
        assert(decimal(n).drop_last() =~= decimal(n / 10));
    }
}

/// A text that does not start with a character of a class has no prefix of
/// that class.
pub proof fn lemma_span_none(s: Seq<char>, k: CharClass)
    requires
        s.len() == 0 || !in_class(s[0], k),
    ensures
        span(s, k) == 0,
{
    reveal(span);
}

/// Characters of a class, followed by a text that does not start with one,
/// are the longest prefix of that class.
pub proof fn lemma_span_all(s: Seq<char>, rest: Seq<char>, k: CharClass)
    requires
        forall|i: int| 0 <= i < s.len() ==> in_class(#[trigger] s[i], k),
        rest.len() == 0 || !in_class(rest[0], k),
    ensures
        span(s + rest, k) == s.len(),
    decreases s.len(),
{
    reveal(span);
    if s.len() == 0 {
        assert(s + rest =~= rest);
    } else {
        assert((s + rest).drop_first() =~= s.drop_first() + rest);
        assert forall|i: int| 0 <= i < s.drop_first().len() implies in_class(
            #[trigger] s.drop_first()[i],
            k,
        ) by {
            assert(s.drop_first()[i] == s[i + 1]);
        }
        lemma_span_all(s.drop_first(), rest, k);
        assert((s + rest)[0] == s[0]);
    }
}

/// The decimal notation of a number, followed by anything but a digit,
/// reads as that number.
pub proof fn lemma_number(n: u32, rest: Seq<char>)
    requires
        rest.len() == 0 || !in_class(rest[0], CharClass::Digit),
    ensures
        number(decimal(n as nat) + rest) == Ok::<(u32, Seq<char>), Failure>((n, rest)),
{
    let d = decimal(n as nat);
    lemma_decimal(n as nat);
    lemma_span_all(d, rest, CharClass::Digit);
    assert((d + rest).take(d.len() as int) =~= d);
    assert((d + rest).skip(d.len() as int) =~= rest);
}

/// The decimal notation of a number, followed by a text at which an
/// operand ends, parses as a literal.
pub proof fn lemma_primary_number(n: u32, rest: Seq<char>)
    requires
        rest.len() == 0 || rest[0] == ' ' || rest[0] == ')',
    ensures
        grammar::primary(decimal(n as nat) + rest) == Ok::<(Tree, Seq<char>), Failure>(
            (Tree::Literal(seq![n]), rest),
        ),
{
    reveal(grammar::primary);
    reveal(grammar::call);
    let s = decimal(n as nat) + rest;
    lemma_decimal(n as nat);
    assert(s[0] == decimal(n as nat)[0]);
    lemma_span_none(s, CharClass::Space);
    lemma_span_none(s, CharClass::Name);
    assert(skip(s) =~= s);
    lemma_number(n, rest);
}

/// At the end of an expression no operator follows.
pub proof fn lemma_closing(rest: Seq<char>)
    requires
        closing(rest),
    ensures
        skip(rest) == rest,
        grammar::separator(rest, '|') is Err,
        grammar::separator(rest, '*') is Err,
        grammar::additive_sign(rest) is None,
        grammar::comparison_sign(rest) is None,
{
    lemma_span_none(rest, CharClass::Space);
    assert(skip(rest) =~= rest);
}

/// A text in parentheses parses as the expression between them.
pub proof fn lemma_primary_group(inner: Seq<char>, t: Tree, rest: Seq<char>)
    requires
        grammar::expr(inner) == Ok::<(Tree, Seq<char>), Failure>((t, seq![')'] + rest)),
    ensures
        grammar::primary(seq!['('] + inner) == Ok::<(Tree, Seq<char>), Failure>((t, rest)),
{
    reveal(grammar::primary);
    let text = seq!['('] + inner;
    let close = seq![')'] + rest;
    lemma_span_none(text, CharClass::Space);
    assert(skip(text) =~= text);
    assert(seq!['('].is_prefix_of(text));
    assert(text.skip(1) =~= inner);
    lemma_closing(close);
    assert(seq![')'].is_prefix_of(close));
    assert(close.skip(1) =~= rest);
    assert(token(close, seq![')']) == Ok::<Seq<char>, Failure>(rest));
}

/// The empty text starts with no primary expression.
pub proof fn lemma_no_primary()
    ensures
        grammar::primary(Seq::empty()) is Err,
{
    reveal(grammar::primary);
    reveal(grammar::call);
    reveal(grammar::index);
    let s = Seq::<char>::empty();
    lemma_span_none(s, CharClass::Space);
    lemma_span_none(s, CharClass::Name);
    lemma_span_none(s, CharClass::Digit);
    assert(skip(s) =~= s);
}

} // verus!
