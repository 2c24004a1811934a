//! Primary expressions: groupings, calls, numbers, indexed reads and
//! variables.

use vstd::prelude::*;

use crate::ast::{models, ExprAST, FuncCallAST, Node, Tree, VarRefAST};
use crate::grammar;
use crate::lexer::{is_punct, punct, skip_space, symbol, take_tag, Failure, ParseError};
use crate::parser::assign::expr_ast;
use crate::parser::{advanced, identifier, parsed, value_ast, var_ast};

verus! {

pub(crate) fn var_ref_ast<'a>(input: &'a str) -> (r: Result<(&'a str, Node), ParseError<'a>>)
    ensures
        parsed(r) == grammar::index(input@),
        advanced(r, input),
    decreases input@.len(), 15nat,
{
    proof {
        reveal(grammar::index);
    }
    let (input1, var_name) = match identifier(input) {
        Ok(x) => x,
        Err(e) => return Err(e),
    };
    let input2 = match symbol('[', input1) {
        Ok(x) => x,
        Err(e) => return Err(e),
    };
    let (input3, index) = match expr_ast(input2) {
        Ok(x) => x,
        Err(e) => return Err(e),
    };
    let input4 = match symbol(']', input3) {
        Ok(x) => x,
        Err(e) => return Err(e),
    };
    Ok((input4, Node::VarRef(VarRefAST::new(var_name, Box::new(index)))))
}

pub(crate) fn func_call_ast<'a>(input: &'a str) -> (r: Result<(&'a str, Node), ParseError<'a>>)
    ensures
        parsed(r) == grammar::call(input@),
        advanced(r, input),
    decreases input@.len(), 15nat,
{
    proof {
        reveal(grammar::call);
        reveal(grammar::arguments);
    }
    let (input1, func_name) = match identifier(input) {
        Ok(x) => x,
        Err(e) => return Err(e),
    };
    let input2 = match symbol('(', input1) {
        Ok(x) => x,
        Err(e) => return Err(e),
    };
    let (input3, args) = arguments(input2);
    let input4 = match symbol(')', input3) {
        Ok(x) => x,
        Err(e) => return Err(e),
    };
    Ok((input4, Node::FuncCall(FuncCallAST::new(func_name, args))))
}

/// The separator of a list: the character between optional white space.
pub(crate) fn separator<'a>(c: char, input: &'a str) -> (r: Option<&'a str>)
    requires
        is_punct(c),
    ensures
        match r {
            Some(rest) => grammar::separator(input@, c) == Ok::<Seq<char>, Failure>(rest@)
                && rest@.len() < input@.len(),
            None => grammar::separator(input@, c) is Err,
        },
{
    match symbol(c, input) {
        Ok(rest) => Some(skip_space(rest)),
        Err(_) => None,
    }
}

/// The arguments of a call: expressions with commas between them.
pub(crate) fn arguments<'a>(input: &'a str) -> (r: (&'a str, Vec<Node>))
    ensures
        grammar::arguments(input@) == (models(r.1@), r.0@),
        r.0@.len() <= input@.len(),
    decreases input@.len(), 25nat,
{
    proof {
        reveal(grammar::arguments);
        reveal(grammar::arguments_tail);
    }
    let mut args: Vec<Node> = Vec::new();
    let (mut rest, first) = match expr_ast(input) {
        Ok(x) => x,
        Err(_) => {
            assert(models(args@) =~= Seq::<Tree>::empty());
            return (input, args);
        },
    };
    args.push(first);
    assert(models(args@) =~= seq![first.model()]);
    loop
        invariant
            rest@.len() <= input@.len(),
            grammar::arguments(input@) == grammar::arguments_tail(models(args@), rest@),
        ensures
            grammar::arguments(input@) == (models(args@), rest@),
            rest@.len() <= input@.len(),
        decreases rest@.len(),
    {
        proof {
            reveal(grammar::arguments_tail);
        }
        let input1 = match separator(',', rest) {
            Some(x) => x,
            None => break,
        };
        match expr_ast(input1) {
            Ok((input2, arg)) => {
                let ghost before = models(args@);
                args.push(arg);
                assert(models(args@) =~= before.push(arg.model()));
                rest = input2;
            },
            Err(_) => break,
        }
    }
    (rest, args)
}

/// An expression in parentheses, a call, a number, an indexed read or a
/// variable.
pub fn value_expr_ast<'a>(input: &'a str) -> (r: Result<(&'a str, Node), ParseError<'a>>)
    ensures
        parsed(r) == grammar::primary(input@),
        advanced(r, input),
    decreases input@.len(), 16nat,
{
    proof {
        reveal(grammar::primary);
        reveal(grammar::index);
        reveal(grammar::call);
    }
    let input = skip_space(input);

    match take_tag(punct('('), input) {
        Some(input1) => {
            let (input2, expr) = match expr_ast(input1) {
                Ok(x) => x,
                Err(e) => return Err(e),
            };
            let input3 = match symbol(')', input2) {
                Ok(x) => x,
                Err(e) => return Err(e),
            };
            Ok((input3, expr))
        },
        None => {
            let (rest, ast) = match func_call_ast(input) {
                Ok(x) => x,
                Err(_) => match value_ast(input) {
                    Ok(x) => x,
                    Err(_) => match var_ref_ast(input) {
                        Ok(x) => x,
                        Err(_) => match var_ast(input) {
                            Ok(x) => x,
                            Err(e) => return Err(e),
                        },
                    },
                },
            };
            Ok((rest, Node::Expr(ExprAST::new(Box::new(ast)))))
        },
    }
}

} // verus!
