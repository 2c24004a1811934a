//! Expressions with operators: concatenation, product, sum and
//! difference, comparison.

use vstd::prelude::*;

use crate::ast::{
    ArithmeticExprAST, ArithmeticExprType, EqualityExprAST, EqualityExprType, Node, OrExprAST,
    Tree,
};
use crate::grammar;
use crate::lexer::{punct, skip_space, take_tag, Failure, ParseError};
use crate::parser::primary::{separator, value_expr_ast};
use crate::parser::{advanced, parsed};

verus! {

pub(crate) fn or_expr_ast<'a>(input: &'a str) -> (r: Result<(&'a str, Node), ParseError<'a>>)
    ensures
        parsed(r) == grammar::concat(input@),
        advanced(r, input),
    decreases input@.len(), 18nat,
{
    proof {
        reveal(grammar::concat);
        reveal(grammar::concat_tail);
    }
    let start = skip_space(input);

    let (mut rest, mut ast) = match value_expr_ast(start) {
        Ok(x) => x,
        Err(e) => return Err(e),
    };
    loop
        invariant
            rest@.len() < input@.len(),
            grammar::concat(input@) == Ok::<(Tree, Seq<char>), Failure>(
                grammar::concat_tail(ast.model(), rest@),
            ),
        ensures
            grammar::concat(input@) == Ok::<(Tree, Seq<char>), Failure>((ast.model(), rest@)),
            rest@.len() < input@.len(),
        decreases rest@.len(),
    {
        proof {
            reveal(grammar::concat_tail);
        }
        let input1 = match separator('|', rest) {
            Some(x) => x,
            None => break,
        };
        match value_expr_ast(input1) {
            Ok((input2, right)) => {
                ast = Node::OrExpr(OrExprAST::new(Box::new(ast), Box::new(right)));
                rest = input2;
            },
            Err(_) => break,
        }
    }
    Ok((rest, ast))
}

pub(crate) fn mul_expr_ast<'a>(input: &'a str) -> (r: Result<(&'a str, Node), ParseError<'a>>)
    ensures
        parsed(r) == grammar::multiplicative(input@),
        advanced(r, input),
    decreases input@.len(), 20nat,
{
    proof {
        reveal(grammar::multiplicative);
        reveal(grammar::product_tail);
        reveal(grammar::concat);
    }
    let start = skip_space(input);

    let (mut rest, mut ast) = match or_expr_ast(start) {
        Ok(x) => x,
        Err(e) => return Err(e),
    };
    loop
        invariant
            rest@.len() < input@.len(),
            grammar::multiplicative(input@) == Ok::<(Tree, Seq<char>), Failure>(
                grammar::product_tail(ast.model(), rest@),
            ),
        ensures
            grammar::multiplicative(input@) == Ok::<(Tree, Seq<char>), Failure>(
                (ast.model(), rest@),
            ),
            rest@.len() < input@.len(),
        decreases rest@.len(),
    {
        proof {
            reveal(grammar::product_tail);
            reveal(grammar::concat);
        }
        let input1 = match separator('*', rest) {
            Some(x) => x,
            None => break,
        };
        match or_expr_ast(input1) {
            Ok((input2, right)) => {
                ast = Node::ArithmeticExpr(
                    ArithmeticExprAST::new(
                        Box::new(ast),
                        Box::new(right),
                        ArithmeticExprType::Mul,
                    ),
                );
                rest = input2;
            },
            Err(_) => break,
        }
    }
    Ok((rest, ast))
}

/// The sign `+` or `-` behind optional white space.
pub(crate) fn additive_sign<'a>(input: &'a str) -> (r: Option<(&'a str, ArithmeticExprType)>)
    ensures
        match r {
            Some((rest, op)) => grammar::additive_sign(input@) == Some((op, rest@)) && rest@.len()
                < input@.len(),
            None => grammar::additive_sign(input@) is None,
        },
{
    let input = skip_space(input);
    match take_tag(punct('+'), input) {
        Some(rest) => Some((rest, ArithmeticExprType::Add)),
        None => match take_tag(punct('-'), input) {
            Some(rest) => Some((rest, ArithmeticExprType::Sub)),
            None => None,
        },
    }
}

pub(crate) fn plus_minus_expr_ast<'a>(input: &'a str) -> (r: Result<(&'a str, Node), ParseError<'a>>)
    ensures
        parsed(r) == grammar::additive(input@),
        advanced(r, input),
    decreases input@.len(), 21nat,
{
    proof {
        reveal(grammar::additive);
        reveal(grammar::multiplicative);
    }
    let (input1, left) = match mul_expr_ast(input) {
        Ok(x) => x,
        Err(e) => return Err(e),
    };

    let (input2, expr_type) = match additive_sign(input1) {
        Some(x) => x,
        None => return Ok((input1, left)),
    };

    let (input3, right) = match mul_expr_ast(input2) {
        Ok(x) => x,
        Err(e) => return Err(e),
    };

    Ok(
        (
            input3,
            Node::ArithmeticExpr(
                ArithmeticExprAST::new(Box::new(left), Box::new(right), expr_type),
            ),
        ),
    )
}

/// The comparison operator behind optional white space.
pub(crate) fn comparison_sign<'a>(input: &'a str) -> (r: Option<(&'a str, EqualityExprType)>)
    ensures
        match r {
            Some((rest, op)) => grammar::comparison_sign(input@) == Some((op, rest@))
                && rest@.len() < input@.len(),
            None => grammar::comparison_sign(input@) is None,
        },
{
    proof {
        reveal_strlit("==");
        reveal_strlit("!=");
        reveal_strlit("<=");
        reveal_strlit(">=");
        assert("=="@ =~= seq!['=', '=']);
        assert("!="@ =~= seq!['!', '=']);
        assert("<="@ =~= seq!['<', '=']);
        assert(">="@ =~= seq!['>', '=']);
    }
    let input = skip_space(input);
    match take_tag("==", input) {
        Some(rest) => Some((rest, EqualityExprType::Eq)),
        None => match take_tag("!=", input) {
            Some(rest) => Some((rest, EqualityExprType::Ne)),
            None => match take_tag("<=", input) {
                Some(rest) => Some((rest, EqualityExprType::Le)),
                None => match take_tag(">=", input) {
                    Some(rest) => Some((rest, EqualityExprType::Ge)),
                    None => match take_tag(punct('<'), input) {
                        Some(rest) => Some((rest, EqualityExprType::Lt)),
                        None => match take_tag(punct('>'), input) {
                            Some(rest) => Some((rest, EqualityExprType::Gt)),
                            None => None,
                        },
                    },
                },
            },
        },
    }
}

/// A sum or difference, or two of them with a comparison operator between.
pub fn equality_expr_ast<'a>(input: &'a str) -> (r: Result<(&'a str, Node), ParseError<'a>>)
    ensures
        parsed(r) == grammar::equality(input@),
        advanced(r, input),
    decreases input@.len(), 22nat,
{
    proof {
        reveal(grammar::equality);
        reveal(grammar::additive);
    }
    let (input1, left) = match plus_minus_expr_ast(input) {
        Ok(x) => x,
        Err(e) => return Err(e),
    };

    let (input2, expr_type) = match comparison_sign(input1) {
        Some(x) => x,
        None => return Ok((input1, left)),
    };

    let (input3, right) = match plus_minus_expr_ast(input2) {
        Ok(x) => x,
        Err(e) => return Err(e),
    };

    Ok((input3, Node::EqualityExpr(EqualityExprAST::new(Box::new(left), Box::new(right), expr_type))))
}

} // verus!
