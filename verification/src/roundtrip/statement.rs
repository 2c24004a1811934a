//! From an expression to a program: an expression in parentheses, followed
//! by a semicolon, is a program of one statement.

use vstd::prelude::*;

use crate::ast::Tree;
use crate::grammar;
use crate::lexer::{skip, token, CharClass, Failure};
use crate::roundtrip::literal::lemma_span_none;

verus! {

/// The empty text starts with no statement.
pub proof fn lemma_no_statement()
    requires
        grammar::expr(Seq::empty()) is Err,
    ensures
        grammar::statement(Seq::empty()) is Err,
{
    reveal(grammar::statement);
    reveal(grammar::statement_body);
    reveal(grammar::func_def);
    reveal(grammar::if_cond);
    reveal(grammar::for_in);
    let s = Seq::<char>::empty();
    lemma_span_none(s, CharClass::Space);
    assert(skip(s) =~= s);
}

/// A text in parentheses that parses as an expression up to a semicolon
/// is a block of one statement.
pub proof fn lemma_statement_alone(s: Seq<char>, t: Tree)
    requires
        s.len() > 0,
        s[0] == '(',
        grammar::expr(s) == Ok::<(Tree, Seq<char>), Failure>((t, seq![';'])),
        grammar::statement(Seq::empty()) is Err,
    ensures
        grammar::block(s) == Ok::<(Tree, Seq<char>), Failure>(
            (Tree::Block(seq![Tree::Statement(Box::new(t))]), Seq::empty()),
        ),
{
    reveal(grammar::block);
    reveal_with_fuel(grammar::statements, 2);
    reveal(grammar::statement);
    reveal(grammar::statement_body);
    let end = seq![';'];
    lemma_span_none(s, CharClass::Space);
    assert(skip(s) =~= s);
    assert(grammar::var_def(s) is Err);
    lemma_span_none(end, CharClass::Space);
    assert(skip(end) =~= end);
    assert(end.skip(1) =~= Seq::<char>::empty());
    assert(token(end, end) == Ok::<Seq<char>, Failure>(Seq::empty()));
    let statement = Tree::Statement(Box::new(t));
    assert(grammar::statement(s) == Ok::<(Tree, Seq<char>), Failure>((statement, Seq::empty())));
    assert(Seq::<Tree>::empty().push(statement) =~= seq![statement]);
}

} // verus!
