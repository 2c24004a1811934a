//! Expressions in full: assignment, indexed assignment, and what binds
//! tighter.

use vstd::prelude::*;

use crate::ast::{Node, VarAssignAST, VarRefAssignAST};
use crate::grammar;
use crate::lexer::{skip_space, symbol, ParseError};
use crate::parser::operators::equality_expr_ast;
use crate::parser::{advanced, identifier, parsed};

verus! {

/// An assignment, an indexed assignment or a comparison: the first that
/// fits.
pub fn expr_ast<'a>(input: &'a str) -> (r: Result<(&'a str, Node), ParseError<'a>>)
    ensures
        parsed(r) == grammar::expr(input@),
        advanced(r, input),
    decreases input@.len(), 24nat,
{
    proof {
        reveal(grammar::expr);
        reveal(grammar::var_assign);
        reveal(grammar::var_ref_assign);
    }
    match var_assign_ast(input) {
        Ok(x) => Ok(x),
        Err(_) => match var_ref_assign_ast(input) {
            Ok(x) => Ok(x),
            Err(_) => equality_expr_ast(input),
        },
    }
}

/// `name = expression`.
pub fn var_assign_ast<'a>(input: &'a str) -> (r: Result<(&'a str, Node), ParseError<'a>>)
    ensures
        parsed(r) == grammar::var_assign(input@),
        advanced(r, input),
    decreases input@.len(), 23nat,
{
    proof {
        reveal(grammar::var_assign);
        reveal(grammar::expr);
    }
    let input0 = skip_space(input);

    let (input1, var_name) = match identifier(input0) {
        Ok(x) => x,
        Err(e) => return Err(e),
    };
    let input2 = match symbol('=', input1) {
        Ok(x) => x,
        Err(e) => return Err(e),
    };

    let (input3, value) = match expr_ast(input2) {
        Ok(x) => x,
        Err(e) => return Err(e),
    };
    Ok((input3, Node::VarAssign(VarAssignAST::new(var_name, Box::new(value)))))
}

/// `name[indices] = expression`.
pub fn var_ref_assign_ast<'a>(input: &'a str) -> (r: Result<(&'a str, Node), ParseError<'a>>)
    ensures
        parsed(r) == grammar::var_ref_assign(input@),
        advanced(r, input),
    decreases input@.len(), 23nat,
{
    proof {
        reveal(grammar::var_ref_assign);
        reveal(grammar::expr);
    }
    let input0 = skip_space(input);

    let (input1, var_name) = match identifier(input0) {
        Ok(x) => x,
        Err(e) => return Err(e),
    };
    let input2 = match symbol('[', input1) {
        Ok(x) => x,
        Err(e) => return Err(e),
    };
    let (input3, index) = match expr_ast(input2) {
        Ok(x) => x,
        Err(e) => return Err(e),
    };
    let input4 = match symbol(']', input3) {
        Ok(x) => x,
        Err(e) => return Err(e),
    };
    let input5 = match symbol('=', input4) {
        Ok(x) => x,
        Err(e) => return Err(e),
    };

    let (input6, value) = match expr_ast(input5) {
        Ok(x) => x,
        Err(e) => return Err(e),
    };
    Ok(
        (
            input6,
            Node::VarRefAssign(VarRefAssignAST::new(var_name, Box::new(index), Box::new(value))),
        ),
    )
}

} // verus!
