//! The round trip of a value through its text: the text of a value that is
//! not empty parses as an expression, and the expression evaluates to the
//! value.

use vstd::prelude::*;

use crate::ast::Tree;
use crate::env::{Event, Func, Scope};
use crate::error::Fault;
use crate::grammar;
use crate::lexer::Failure;
use crate::program;
use crate::semantics::{run, run_list, Listed, Outcome};
use crate::text::{decimal, joined, rendered, trimmed};

pub mod expression;
pub mod literal;
pub mod operands;
pub mod statement;

use expression::{lemma_no_expression, lemma_operands};
use statement::{lemma_no_statement, lemma_statement_alone};
use literal::{
    closing, lemma_decimal, lemma_no_primary, lemma_primary_group, lemma_primary_number,
};
use operands::{lemma_concat_tail, lemma_concat_tail_ends};

verus! {

/// The tree of `e1 | e2 | ... | en`: concatenations of literals, nested to
/// the left.
pub open spec fn chain(items: Seq<u32>) -> Tree
    decreases items.len(),
{
    if items.len() <= 1 {
        Tree::Literal(seq![items[0]])
    } else {
        Tree::Concat(
            Box::new(chain(items.drop_last())),
            Box::new(Tree::Literal(seq![items.last()])),
        )
    }
}

/// `left`, with the literals of `items` from position `i` on concatenated
/// to it one by one.
pub open spec fn extended(left: Tree, items: Seq<u32>, i: nat) -> Tree
    decreases items.len() - i,
{
    if i >= items.len() {
        left
    } else {
        extended(
            Tree::Concat(Box::new(left), Box::new(Tree::Literal(seq![items[i as int]]))),
            items,
            i + 1,
        )
    }
}

/// The text of the elements from position `i` on, each behind ` | `.
pub open spec fn tail_text(items: Seq<u32>, i: nat) -> Seq<char>
    decreases items.len() - i,
{
    if i >= items.len() {
        Seq::empty()
    } else {
        seq![' ', '|', ' '] + decimal(items[i as int] as nat) + tail_text(items, i + 1)
    }
}

/// The chain of a sequence is the chain of its first `i` elements,
/// extended by the others.
proof fn lemma_extended(items: Seq<u32>, i: nat)
    requires
        1 <= i <= items.len(),
    ensures
        extended(chain(items.take(i as int)), items, i) == chain(items),
    decreases items.len() - i,
{
    if i == items.len() {
        assert(items.take(i as int) == items);
    } else {
        let next = items.take((i + 1) as int);
        assert(next.drop_last() == items.take(i as int));
        assert(next.last() == items[i as int]);
        lemma_extended(items, i + 1);
    }
}

/// The text of a list is the text of its first `i` elements, followed by
/// the others, each behind ` | `.
proof fn lemma_joined(items: Seq<u32>, i: nat)
    requires
        1 <= i <= items.len(),
    ensures
        joined(items, " | "@) == joined(items.take(i as int), " | "@) + tail_text(items, i),
    decreases items.len() - i,
{
    reveal_strlit(" | ");
    assert(" | "@ =~= seq![' ', '|', ' ']);
    if i == items.len() {
        assert(items.take(i as int) == items);
        assert(joined(items, " | "@) + tail_text(items, i) =~= joined(items, " | "@));
    } else {
        let next = items.take((i + 1) as int);
        assert(next.drop_last() == items.take(i as int));
        assert(next.last() == items[i as int]);
        lemma_joined(items, i + 1);
        assert(joined(next, " | "@) + tail_text(items, i + 1) =~= joined(
            items.take(i as int),
            " | "@,
        ) + tail_text(items, i));
    }
}

/// The text of a value that is not empty, followed by a text at which an
/// expression ends, parses as the chain of its elements up to that text.
pub proof fn lemma_text_parses(items: Seq<u32>, rest: Seq<char>)
    requires
        items.len() > 0,
        closing(rest),
    ensures
        grammar::expr(rendered(items) + rest) == Ok::<(Tree, Seq<char>), Failure>(
            (chain(items), rest),
        ),
{
    reveal_strlit("(");
    reveal_strlit(")");
    assert("("@ =~= seq!['(']);
    assert(")"@ =~= seq![')']);
    let close = seq![')'] + rest;
    let first = Tree::Literal(seq![items[0]]);
    let after = tail_text(items, 1) + close;
    let inner = decimal(items[0] as nat) + after;
    let text = rendered(items) + rest;
    let t = chain(items);

    // the text between the parentheses
    lemma_joined(items, 1);
    assert(items.take(1).len() == 1);
    assert(items.take(1)[0] == items[0]);
    assert(joined(items.take(1), " | "@) == decimal(items[0] as nat));
    assert(text =~= seq!['('] + inner);
    lemma_decimal(items[0] as nat);
    assert(inner[0] == decimal(items[0] as nat)[0]);
    assert(close[0] == ')');
    assert(after[0] == ' ' || after[0] == ')') by {
        if items.len() <= 1 {
            assert(after =~= close);
        } else {
            assert(after[0] == tail_text(items, 1)[0]);
        }
    }
    lemma_primary_number(items[0], after);
    lemma_concat_tail(first, items, 1, close);
    assert(chain(items.take(1)) == first);
    lemma_extended(items, 1);
    lemma_operands(inner, first, after, t, close);

    // the parentheses
    lemma_primary_group(inner, t, rest);
    lemma_concat_tail_ends(t, rest);
    lemma_operands(text, t, rest, t, rest);
}

/// A literal evaluates to its value, and leaves the environment as it is.
proof fn lemma_literal_evaluates<F: Func>(
    v: Seq<u32>,
    env: Seq<Scope<F>>,
    fuel: nat,
    log: Seq<Event<F>>,
    at: nat,
)
    ensures
        run(Tree::Literal(v), env, fuel, log, at) == Some(
            Outcome { env, result: Ok::<Seq<u32>, Fault>(v), at },
        ),
{
}

/// The chain of the elements of a value evaluates to the value, and leaves
/// the environment as it is.
pub proof fn lemma_chain_evaluates<F: Func>(
    items: Seq<u32>,
    env: Seq<Scope<F>>,
    fuel: nat,
    log: Seq<Event<F>>,
    at: nat,
)
    requires
        items.len() > 0,
    ensures
        run(chain(items), env, fuel, log, at) == Some(
            Outcome { env, result: Ok::<Seq<u32>, Fault>(items), at },
        ),
    decreases items.len(),
{
    if items.len() <= 1 {
        assert(seq![items[0]] =~= items);
    } else {
        lemma_chain_evaluates(items.drop_last(), env, fuel, log, at);
        lemma_literal_evaluates(seq![items.last()], env, fuel, log, at);
        assert(items.drop_last() + seq![items.last()] =~= items);
    }
}

/// The round trip: the text of a value that is not empty, parsed as an
/// expression and evaluated in any environment, gives the value back.
pub proof fn lemma_round_trip<F: Func>(
    items: Seq<u32>,
    env: Seq<Scope<F>>,
    fuel: nat,
    log: Seq<Event<F>>,
    at: nat,
)
    requires
        items.len() > 0,
    ensures
        grammar::expr(rendered(items)) matches Ok((tree, rest)) && rest.len() == 0 && run(
            tree,
            env,
            fuel, log, at,
        ) == Some(Outcome { env, result: Ok::<Seq<u32>, Fault>(items), at }),
{
    lemma_text_parses(items, Seq::empty());
    assert(rendered(items) + Seq::<char>::empty() =~= rendered(items));
    lemma_chain_evaluates(items, env, fuel, log, at);
}

/// The program of one statement that holds the tree `t`.
pub open spec fn single(t: Tree) -> Tree {
    Tree::Block(seq![Tree::Statement(Box::new(t))])
}

/// A program of one statement has the outcome of that statement.
pub proof fn lemma_single_evaluates<F: Func>(
    t: Tree,
    env: Seq<Scope<F>>,
    fuel: nat,
    log: Seq<Event<F>>,
    at: nat,
)
    ensures
        match run(t, env, fuel, log, at) {
            Some(o) => run(single(t), env, fuel, log, at) == Some(o),
            None => run(single(t), env, fuel, log, at) is None,
        },
{
    let statement = Tree::Statement(Box::new(t));
    let items = seq![statement];
    assert(items[0] == statement);
    assert(run(statement, env, fuel, log, at) == run(t, env, fuel, log, at));
    assert(run_list(items, 0, env, fuel, log, at) == Some(
        Listed { env, result: Ok::<Seq<Seq<u32>>, Fault>(Seq::empty()), at },
    ));
    match run(t, env, fuel, log, at) {
        Some(o) => {
            match o.result {
                Ok(v) => {
                    assert(run_list(items, 1, env, fuel, log, at) == Some(
                        Listed {
                            env: o.env,
                            result: Ok::<Seq<Seq<u32>>, Fault>(Seq::<Seq<u32>>::empty().push(v)),
                            at: o.at,
                        },
                    ));
                    assert(Seq::<Seq<u32>>::empty().push(v).last() == v);
                },
                Err(e) => {
                    assert(run_list(items, 1, env, fuel, log, at) == Some(
                        Listed { env: o.env, result: Err::<Seq<Seq<u32>>, Fault>(e), at: o.at },
                    ));
                },
            }
        },
        None => {
            assert(run_list(items, 1, env, fuel, log, at) is None);
        },
    }
}

/// The round trip through a whole program: the text of a value that is not
/// empty, followed by a semicolon, is a program, and evaluating it in any
/// environment gives the value back and leaves the environment as it is.
pub proof fn lemma_round_trip_program<F: Func>(
    items: Seq<u32>,
    env: Seq<Scope<F>>,
    fuel: nat,
    log: Seq<Event<F>>,
    at: nat,
)
    requires
        items.len() > 0,
    ensures
        program(rendered(items) + ";"@) == Ok::<Tree, Fault>(single(chain(items))),
        run(single(chain(items)), env, fuel, log, at) == Some(
            Outcome { env, result: Ok::<Seq<u32>, Fault>(items), at },
        ),
{
    reveal_strlit("(");
    reveal_strlit(";");
    assert(";"@ =~= seq![';']);
    let text = rendered(items) + ";"@;
    lemma_text_parses(items, seq![';']);
    assert(text[0] == '(') by {
        assert("("@ =~= seq!['(']);
        assert(text[0] == "("@[0]);
    }
    lemma_no_primary();
    lemma_no_expression();
    lemma_no_statement();
    lemma_statement_alone(text, chain(items));
    assert(trimmed(Seq::<char>::empty()).len() == 0);
    lemma_chain_evaluates(items, env, fuel, log, at);
    lemma_single_evaluates(chain(items), env, fuel, log, at);
}

} // verus!
