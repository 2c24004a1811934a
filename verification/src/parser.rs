//! The parser: from source text to syntax tree, by recursive descent.
//!
//! Every parser returns what the grammar defines for its construct. The
//! grammar's recursive definitions are opaque; a parser reveals the one
//! that it follows, and those by which the parsers that it calls in its own
//! module state their results.

use vstd::prelude::*;

use crate::ast::{Node, Tree, ValueAST, VarAST};
use crate::grammar;
use crate::grammar::Parsed;
use crate::lexer::{name, take_name, take_number, Expected, Failure, ParseError};
use crate::value::Value;

pub mod assign;
pub mod operators;
pub mod primary;
pub mod statement;

pub use assign::{expr_ast, var_assign_ast, var_ref_assign_ast};
pub use operators::equality_expr_ast;
pub use primary::value_expr_ast;
pub use statement::{block_ast, for_in_ast, if_eq_ast, statement_ast};

verus! {

/// The model of a parser's result.
pub open spec fn parsed<'a>(r: Result<(&'a str, Node), ParseError<'a>>) -> Parsed {
    match r {
        Ok((rest, node)) => Ok((node.model(), rest@)),
        Err(e) => Err(e@),
    }
}

/// A successful parser returns no more text than it was given.
pub open spec fn within<'a, T>(r: Result<(&'a str, T), ParseError<'a>>, input: &str) -> bool {
    r matches Ok((rest, _)) ==> rest@.len() <= input@.len()
}

/// A successful parser returns less text than it was given.
pub open spec fn advanced<'a, T>(r: Result<(&'a str, T), ParseError<'a>>, input: &str) -> bool {
    r matches Ok((rest, _)) ==> rest@.len() < input@.len()
}

/// A number, as a value of one element.
pub fn value<'a>(input: &'a str) -> (r: Result<(&'a str, Value), ParseError<'a>>)
    ensures
        match r {
            Ok((rest, v)) => grammar::literal(input@) == Ok::<(Tree, Seq<char>), Failure>(
                (Tree::Literal(v@), rest@),
            ),
            Err(e) => grammar::literal(input@) == Err::<(Tree, Seq<char>), Failure>(e@),
        },
        advanced(r, input),
{
    match take_number(input) {
        Some((rest, n)) => {
            let mut items: Vec<u32> = Vec::new();
            items.push(n);
            let v = Value::new(items);
            assert(v@ =~= seq![n]);
            Ok((rest, v))
        },
        None => Err(ParseError { rest: input, expected: Expected::Digit }),
    }
}

/// A name: letters of the ASCII alphabet and underscores.
pub fn identifier<'a>(input: &'a str) -> (r: Result<(&'a str, String), ParseError<'a>>)
    ensures
        match r {
            Ok((rest, word)) => name(input@) == Ok::<(Seq<char>, Seq<char>), Failure>(
                (word@, rest@),
            ),
            Err(e) => name(input@) == Err::<(Seq<char>, Seq<char>), Failure>(e@),
        },
        advanced(r, input),
{
    match take_name(input) {
        Some((rest, word)) => Ok((rest, word)),
        None => Err(ParseError { rest: input, expected: Expected::Name }),
    }
}

pub(crate) fn value_ast<'a>(input: &'a str) -> (r: Result<(&'a str, Node), ParseError<'a>>)
    ensures
        parsed(r) == grammar::literal(input@),
        advanced(r, input),
{
    match value(input) {
        Ok((rest, v)) => Ok((rest, Node::Value(ValueAST::new(v)))),
        Err(e) => Err(e),
    }
}

pub(crate) fn var_ast<'a>(input: &'a str) -> (r: Result<(&'a str, Node), ParseError<'a>>)
    ensures
        parsed(r) == grammar::variable(input@),
        advanced(r, input),
{
    match identifier(input) {
        Ok((rest, v)) => Ok((rest, Node::Var(VarAST::new(v)))),
        Err(e) => Err(e),
    }
}

} // verus!
