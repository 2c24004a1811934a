//! Statements and blocks.

use vstd::prelude::*;

use crate::ast::{
    models, names, BlockAST, ForInAST, FuncDefAST, IfAST, Node, StatementAST, Tree, VarDefAST,
};
use crate::grammar;
use crate::lexer::{expect_space, expect_tag, punct, skip_space, symbol, ParseError};
use crate::parser::assign::expr_ast;
use crate::parser::primary::separator;
use crate::parser::{advanced, identifier, parsed, within};

verus! {

pub(crate) fn var_def_ast<'a>(input: &'a str) -> (r: Result<(&'a str, Node), ParseError<'a>>)
    ensures
        parsed(r) == grammar::var_def(input@),
        advanced(r, input),
{
    proof {
        reveal_strlit("def");
        assert("def"@ =~= seq!['d', 'e', 'f']);
    }
    let input0 = skip_space(input);

    let input1 = match expect_tag("def", input0) {
        Ok(x) => x,
        Err(e) => return Err(e),
    };
    let input2 = match expect_space(input1) {
        Ok(x) => x,
        Err(e) => return Err(e),
    };

    let (input3, var_name) = match identifier(input2) {
        Ok(x) => x,
        Err(e) => return Err(e),
    };
    Ok((input3, Node::VarDef(VarDefAST::new(var_name))))
}

/// The parameter names of a function definition, with commas between them.
pub(crate) fn parameters<'a>(input: &'a str) -> (r: (&'a str, Vec<String>))
    ensures
        grammar::parameters(input@) == (names(r.1@), r.0@),
        r.0@.len() <= input@.len(),
{
    let mut params: Vec<String> = Vec::new();
    let (mut rest, first) = match identifier(input) {
        Ok(x) => x,
        Err(_) => {
            assert(names(params@) =~= Seq::<Seq<char>>::empty());
            return (input, params);
        },
    };
    params.push(first);
    assert(names(params@) =~= seq![first@]);
    loop
        invariant
            rest@.len() <= input@.len(),
            grammar::parameters(input@) == grammar::parameters_tail(names(params@), rest@),
        ensures
            grammar::parameters(input@) == (names(params@), rest@),
            rest@.len() <= input@.len(),
        decreases rest@.len(),
    {
        let input1 = match separator(',', rest) {
            Some(x) => x,
            None => break,
        };
        match identifier(input1) {
            Ok((input2, param)) => {
                let ghost before = names(params@);
                params.push(param);
                assert(names(params@) =~= before.push(param@));
                rest = input2;
            },
            Err(_) => break,
        }
    }
    (rest, params)
}

pub(crate) fn func_def_ast<'a>(input: &'a str) -> (r: Result<(&'a str, Node), ParseError<'a>>)
    ensures
        parsed(r) == grammar::func_def(input@),
        advanced(r, input),
    decreases input@.len(), 26nat,
{
    proof {
        reveal(grammar::func_def);
        reveal(grammar::block);
    }
    let input1 = match expect_tag(punct('$'), input) {
        Ok(x) => x,
        Err(e) => return Err(e),
    };

    let (input2, func_name) = match identifier(input1) {
        Ok(x) => x,
        Err(e) => return Err(e),
    };

    let input3 = match symbol('(', input2) {
        Ok(x) => x,
        Err(e) => return Err(e),
    };
    let (input4, args) = parameters(skip_space(input3));
    let input5 = match symbol(')', input4) {
        Ok(x) => x,
        Err(e) => return Err(e),
    };

    let input6 = match symbol('{', input5) {
        Ok(x) => x,
        Err(e) => return Err(e),
    };
    let (input7, body) = match block_ast(input6) {
        Ok(x) => x,
        Err(e) => return Err(e),
    };
    let input8 = match symbol('}', input7) {
        Ok(x) => x,
        Err(e) => return Err(e),
    };
    Ok((input8, Node::FuncDef(FuncDefAST::new(func_name, args, Box::new(body)))))
}

/// `@(name: sequence) { block }`.
pub fn for_in_ast<'a>(input: &'a str) -> (r: Result<(&'a str, Node), ParseError<'a>>)
    ensures
        parsed(r) == grammar::for_in(input@),
        advanced(r, input),
    decreases input@.len(), 26nat,
{
    proof {
        reveal(grammar::for_in);
        reveal(grammar::block);
    }
    let input1 = match symbol('@', input) {
        Ok(x) => x,
        Err(e) => return Err(e),
    };

    let input2 = match symbol('(', input1) {
        Ok(x) => x,
        Err(e) => return Err(e),
    };
    let (input3, var_name) = match identifier(input2) {
        Ok(x) => x,
        Err(e) => return Err(e),
    };
    let input4 = match symbol(':', input3) {
        Ok(x) => x,
        Err(e) => return Err(e),
    };
    let (input5, value) = match expr_ast(input4) {
        Ok(x) => x,
        Err(e) => return Err(e),
    };
    let input6 = match symbol(')', input5) {
        Ok(x) => x,
        Err(e) => return Err(e),
    };

    let input7 = match symbol('{', input6) {
        Ok(x) => x,
        Err(e) => return Err(e),
    };
    let (input8, body) = match block_ast(input7) {
        Ok(x) => x,
        Err(e) => return Err(e),
    };
    let input9 = match symbol('}', input8) {
        Ok(x) => x,
        Err(e) => return Err(e),
    };
    Ok((input9, Node::ForIn(ForInAST::new(var_name, Box::new(value), Box::new(body)))))
}

/// `?(condition) { block }`.
pub fn if_eq_ast<'a>(input: &'a str) -> (r: Result<(&'a str, Node), ParseError<'a>>)
    ensures
        parsed(r) == grammar::if_cond(input@),
        advanced(r, input),
    decreases input@.len(), 26nat,
{
    proof {
        reveal(grammar::if_cond);
        reveal(grammar::block);
    }
    let input1 = match symbol('?', input) {
        Ok(x) => x,
        Err(e) => return Err(e),
    };

    let input2 = match symbol('(', input1) {
        Ok(x) => x,
        Err(e) => return Err(e),
    };
    let (input3, value) = match expr_ast(input2) {
        Ok(x) => x,
        Err(e) => return Err(e),
    };
    let input4 = match symbol(')', input3) {
        Ok(x) => x,
        Err(e) => return Err(e),
    };

    let input5 = match symbol('{', input4) {
        Ok(x) => x,
        Err(e) => return Err(e),
    };
    let (input6, body) = match block_ast(input5) {
        Ok(x) => x,
        Err(e) => return Err(e),
    };
    let input7 = match symbol('}', input6) {
        Ok(x) => x,
        Err(e) => return Err(e),
    };
    Ok((input7, Node::If(IfAST::new(Box::new(value), Box::new(body)))))
}

/// One statement and the `;` that ends it.
pub fn statement_ast<'a>(input: &'a str) -> (r: Result<(&'a str, Node), ParseError<'a>>)
    ensures
        parsed(r) == grammar::statement(input@),
        advanced(r, input),
    decreases input@.len(), 28nat,
{
    proof {
        reveal(grammar::statement);
        reveal(grammar::statement_body);
        reveal(grammar::func_def);
        reveal(grammar::if_cond);
        reveal(grammar::for_in);
    }
    let input0 = skip_space(input);

    let (input1, statement) = match var_def_ast(input0) {
        Ok(x) => x,
        Err(_) => match expr_ast(input0) {
            Ok(x) => x,
            Err(_) => match func_def_ast(input0) {
                Ok(x) => x,
                Err(_) => match if_eq_ast(input0) {
                    Ok(x) => x,
                    Err(_) => match for_in_ast(input0) {
                        Ok(x) => x,
                        Err(e) => return Err(e),
                    },
                },
            },
        },
    };
    let statement = Node::Statement(StatementAST::new(Box::new(statement)));
    let input2 = match symbol(';', input1) {
        Ok(x) => x,
        Err(e) => return Err(e),
    };
    Ok((input2, statement))
}

/// A block: statements as far as they go. It never fails: what does not
/// parse as a statement is returned as the rest.
pub fn block_ast<'a>(input: &'a str) -> (r: Result<(&'a str, Node), ParseError<'a>>)
    ensures
        parsed(r) == grammar::block(input@),
        within(r, input),
        r is Ok,
    decreases input@.len(), 30nat,
{
    proof {
        reveal(grammar::block);
        reveal(grammar::statements);
        reveal(grammar::statement);
    }
    let start = skip_space(input);
    let mut rest = start;
    let mut statements: Vec<Node> = Vec::new();
    assert(models(statements@) =~= Seq::<Tree>::empty());
    loop
        invariant
            rest@.len() <= input@.len(),
            grammar::statements(Seq::empty(), start@) == grammar::statements(
                models(statements@),
                rest@,
            ),
        ensures
            grammar::statements(Seq::empty(), start@) == (models(statements@), rest@),
            rest@.len() <= input@.len(),
        decreases rest@.len(),
    {
        proof {
            reveal(grammar::statements);
            reveal(grammar::statement);
        }
        match statement_ast(rest) {
            Ok((input1, statement)) => {
                let ghost before = models(statements@);
                statements.push(statement);
                assert(models(statements@) =~= before.push(statement.model()));
                rest = input1;
            },
            Err(_) => break,
        }
    }
    Ok((rest, Node::Block(BlockAST::new(statements))))
}

} // verus!
