//! The grammar: for each construct, the tree that a text starts with and
//! the text that follows it.
//!
//! White space may stand before every token. Where several constructs are
//! tried in turn, the first that fits is taken, and the failure is that of
//! the last one tried. From lowest to highest precedence: assignment,
//! comparison, `+` and `-`, `*`, `|`, primary expressions.

use vstd::prelude::*;

use crate::ast::{ArithmeticExprType, EqualityExprType, Tree};
use crate::lexer::{name, number, skip, space, tag, token, Expected, Failure};

verus! {

/// A tree and the text that follows it, or a failure.
pub type Parsed = Result<(Tree, Seq<char>), Failure>;

/// The failure of a parser that did not advance. The definitions below
/// test for it wherever one parser goes on behind another: the test is what
/// makes them well founded. The parsers of the module `parser` show, each in
/// its contract, that on no text a parser returns more than it was given.
pub open spec fn stalled(s: Seq<char>) -> Failure {
    Failure { rest: s, expected: Expected::Tag }
}

/// `def name`.
pub open spec fn var_def(s: Seq<char>) -> Parsed {
    match tag(skip(s), seq!['d', 'e', 'f']) {
        Err(e) => Err(e),
        Ok(r1) => match space(r1) {
            Err(e) => Err(e),
            Ok(r2) => match name(r2) {
                Err(e) => Err(e),
                Ok((n, r3)) => Ok((Tree::Declare(n), r3)),
            },
        },
    }
}

/// A number, as a literal of one element.
pub open spec fn literal(s: Seq<char>) -> Parsed {
    match number(s) {
        Err(e) => Err(e),
        Ok((n, r)) => Ok((Tree::Literal(seq![n]), r)),
    }
}

/// A name, as a variable.
pub open spec fn variable(s: Seq<char>) -> Parsed {
    match name(s) {
        Err(e) => Err(e),
        Ok((n, r)) => Ok((Tree::Var(n), r)),
    }
}

/// A separator of a list: the character `c` between optional white space.
pub open spec fn separator(s: Seq<char>, c: char) -> Result<Seq<char>, Failure> {
    match token(s, seq![c]) {
        Err(e) => Err(e),
        Ok(r) => Ok(skip(r)),
    }
}

/// The comparison operator that follows optional white space.
pub open spec fn comparison_sign(s: Seq<char>) -> Option<(EqualityExprType, Seq<char>)> {
    let s1 = skip(s);
    if seq!['=', '='].is_prefix_of(s1) {
        Some((EqualityExprType::Eq, s1.skip(2)))
    } else if seq!['!', '='].is_prefix_of(s1) {
        Some((EqualityExprType::Ne, s1.skip(2)))
    } else if seq!['<', '='].is_prefix_of(s1) {
        Some((EqualityExprType::Le, s1.skip(2)))
    } else if seq!['>', '='].is_prefix_of(s1) {
        Some((EqualityExprType::Ge, s1.skip(2)))
    } else if seq!['<'].is_prefix_of(s1) {
        Some((EqualityExprType::Lt, s1.skip(1)))
    } else if seq!['>'].is_prefix_of(s1) {
        Some((EqualityExprType::Gt, s1.skip(1)))
    } else {
        None
    }
}

/// The sign `+` or `-` that follows optional white space.
pub open spec fn additive_sign(s: Seq<char>) -> Option<(ArithmeticExprType, Seq<char>)> {
    let s1 = skip(s);
    if seq!['+'].is_prefix_of(s1) {
        Some((ArithmeticExprType::Add, s1.skip(1)))
    } else if seq!['-'].is_prefix_of(s1) {
        Some((ArithmeticExprType::Sub, s1.skip(1)))
    } else {
        None
    }
}

/// More parameter names, each behind a comma, as far as they go.
pub open spec fn parameters_tail(acc: Seq<Seq<char>>, s: Seq<char>) -> (Seq<Seq<char>>, Seq<char>)
    decreases s.len(),
{
    match separator(s, ',') {
        Err(_) => (acc, s),
        Ok(r1) => match name(r1) {
            Err(_) => (acc, s),
            Ok((n, r2)) => parameters_tail(acc.push(n), r2),
        },
    }
}

/// Parameter names with commas between them; there may be none.
pub open spec fn parameters(s: Seq<char>) -> (Seq<Seq<char>>, Seq<char>) {
    match name(s) {
        Err(_) => (Seq::empty(), s),
        Ok((n, r)) => parameters_tail(seq![n], r),
    }
}

/// A block: statements as far as they go. A block never fails.
#[verifier::opaque]
pub open spec fn block(s: Seq<char>) -> Parsed
    decreases s.len(), 30nat,
{
    let (statements, rest) = statements(Seq::empty(), skip(s));
    Ok((Tree::Block(statements), rest))
}

/// The statements that follow those of `acc`, as far as they go.
#[verifier::opaque]
pub open spec fn statements(acc: Seq<Tree>, s: Seq<char>) -> (Seq<Tree>, Seq<char>)
    decreases s.len(), 29nat,
{
    match statement(s) {
        Err(_) => (acc, s),
        Ok((t, r)) => if r.len() < s.len() {
            statements(acc.push(t), r)
        } else {
            (acc, s)
        },
    }
}

/// One statement and the `;` that ends it.
#[verifier::opaque]
pub open spec fn statement(s: Seq<char>) -> Parsed
    decreases s.len(), 28nat,
{
    match statement_body(skip(s)) {
        Err(e) => Err(e),
        Ok((t, r)) => match token(r, seq![';']) {
            Err(e) => Err(e),
            Ok(r2) => Ok((Tree::Statement(Box::new(t)), r2)),
        },
    }
}

/// A declaration, an expression, a function definition, a conditional or
/// a loop: the first that fits.
#[verifier::opaque]
pub open spec fn statement_body(s: Seq<char>) -> Parsed
    decreases s.len(), 27nat,
{
    match var_def(s) {
        Ok(x) => Ok(x),
        Err(_) => match expr(s) {
            Ok(x) => Ok(x),
            Err(_) => match func_def(s) {
                Ok(x) => Ok(x),
                Err(_) => match if_cond(s) {
                    Ok(x) => Ok(x),
                    Err(_) => for_in(s),
                },
            },
        },
    }
}

/// `$name(parameters) { block }`.
#[verifier::opaque]
pub open spec fn func_def(s: Seq<char>) -> Parsed
    decreases s.len(), 26nat,
{
    match tag(s, seq!['$']) {
        Err(e) => Err(e),
        Ok(r1) => match name(r1) {
            Err(e) => Err(e),
            Ok((n, r2)) => match token(r2, seq!['(']) {
                Err(e) => Err(e),
                Ok(r3) => {
                    let (params, r4) = parameters(skip(r3));
                    if r4.len() > r3.len() {
                        Err(stalled(s))
                    } else {
                        match token(r4, seq![')']) {
                            Err(e) => Err(e),
                            Ok(r5) => match token(r5, seq!['{']) {
                                Err(e) => Err(e),
                                Ok(r6) => match block(r6) {
                                    Err(e) => Err(e),
                                    Ok((b, r7)) => match token(r7, seq!['}']) {
                                        Err(e) => Err(e),
                                        Ok(r8) => Ok((Tree::Define(n, params, Box::new(b)), r8)),
                                    },
                                },
                            },
                        }
                    }
                },
            },
        },
    }
}

/// `?(condition) { block }`.
#[verifier::opaque]
pub open spec fn if_cond(s: Seq<char>) -> Parsed
    decreases s.len(), 26nat,
{
    match token(s, seq!['?']) {
        Err(e) => Err(e),
        Ok(r1) => match token(r1, seq!['(']) {
            Err(e) => Err(e),
            Ok(r2) => match expr(r2) {
                Err(e) => Err(e),
                Ok((c, r3)) => if r3.len() > r2.len() {
                    Err(stalled(s))
                } else {
                    match token(r3, seq![')']) {
                        Err(e) => Err(e),
                        Ok(r4) => match token(r4, seq!['{']) {
                            Err(e) => Err(e),
                            Ok(r5) => match block(r5) {
                                Err(e) => Err(e),
                                Ok((b, r6)) => match token(r6, seq!['}']) {
                                    Err(e) => Err(e),
                                    Ok(r7) => Ok((Tree::If(Box::new(c), Box::new(b)), r7)),
                                },
                            },
                        },
                    }
                },
            },
        },
    }
}

/// `@(name: sequence) { block }`.
#[verifier::opaque]
pub open spec fn for_in(s: Seq<char>) -> Parsed
    decreases s.len(), 26nat,
{
    match token(s, seq!['@']) {
        Err(e) => Err(e),
        Ok(r1) => match token(r1, seq!['(']) {
            Err(e) => Err(e),
            Ok(r2) => match name(r2) {
                Err(e) => Err(e),
                Ok((n, r3)) => match token(r3, seq![':']) {
                    Err(e) => Err(e),
                    Ok(r4) => match expr(r4) {
                        Err(e) => Err(e),
                        Ok((v, r5)) => if r5.len() > r4.len() {
                            Err(stalled(s))
                        } else {
                            match token(r5, seq![')']) {
                                Err(e) => Err(e),
                                Ok(r6) => match token(r6, seq!['{']) {
                                    Err(e) => Err(e),
                                    Ok(r7) => match block(r7) {
                                        Err(e) => Err(e),
                                        Ok((b, r8)) => match token(r8, seq!['}']) {
                                            Err(e) => Err(e),
                                            Ok(r9) => Ok(
                                                (Tree::ForIn(n, Box::new(v), Box::new(b)), r9),
                                            ),
                                        },
                                    },
                                },
                            }
                        },
                    },
                },
            },
        },
    }
}

/// An assignment, an indexed assignment or a comparison: the first that
/// fits.
#[verifier::opaque]
pub open spec fn expr(s: Seq<char>) -> Parsed
    decreases s.len(), 24nat,
{
    match var_assign(s) {
        Ok(x) => Ok(x),
        Err(_) => match var_ref_assign(s) {
            Ok(x) => Ok(x),
            Err(_) => equality(s),
        },
    }
}

/// `name = expression`.
#[verifier::opaque]
pub open spec fn var_assign(s: Seq<char>) -> Parsed
    decreases s.len(), 23nat,
{
    match name(skip(s)) {
        Err(e) => Err(e),
        Ok((n, r1)) => match token(r1, seq!['=']) {
            Err(e) => Err(e),
            Ok(r2) => match expr(r2) {
                Err(e) => Err(e),
                Ok((v, r3)) => Ok((Tree::Assign(n, Box::new(v)), r3)),
            },
        },
    }
}

/// `name[indices] = expression`.
#[verifier::opaque]
pub open spec fn var_ref_assign(s: Seq<char>) -> Parsed
    decreases s.len(), 23nat,
{
    match name(skip(s)) {
        Err(e) => Err(e),
        Ok((n, r1)) => match token(r1, seq!['[']) {
            Err(e) => Err(e),
            Ok(r2) => match expr(r2) {
                Err(e) => Err(e),
                Ok((i, r3)) => if r3.len() > r2.len() {
                    Err(stalled(s))
                } else {
                    match token(r3, seq![']']) {
                        Err(e) => Err(e),
                        Ok(r4) => match token(r4, seq!['=']) {
                            Err(e) => Err(e),
                            Ok(r5) => match expr(r5) {
                                Err(e) => Err(e),
                                Ok((v, r6)) => Ok(
                                    (Tree::IndexAssign(n, Box::new(i), Box::new(v)), r6),
                                ),
                            },
                        },
                    }
                },
            },
        },
    }
}

/// A sum or difference, or two of them with a comparison operator between.
#[verifier::opaque]
pub open spec fn equality(s: Seq<char>) -> Parsed
    decreases s.len(), 22nat,
{
    match additive(s) {
        Err(e) => Err(e),
        Ok((left, r1)) => if r1.len() > s.len() {
            Err(stalled(s))
        } else {
            match comparison_sign(r1) {
                None => Ok((left, r1)),
                Some((op, r2)) => match additive(r2) {
                    Err(e) => Err(e),
                    Ok((right, r3)) => Ok(
                        (Tree::Compare(op, Box::new(left), Box::new(right)), r3),
                    ),
                },
            }
        },
    }
}

/// A product, or two of them with `+` or `-` between.
#[verifier::opaque]
pub open spec fn additive(s: Seq<char>) -> Parsed
    decreases s.len(), 21nat,
{
    match multiplicative(s) {
        Err(e) => Err(e),
        Ok((left, r1)) => if r1.len() > s.len() {
            Err(stalled(s))
        } else {
            match additive_sign(r1) {
                None => Ok((left, r1)),
                Some((op, r2)) => match multiplicative(r2) {
                    Err(e) => Err(e),
                    Ok((right, r3)) => Ok(
                        (Tree::Arithmetic(op, Box::new(left), Box::new(right)), r3),
                    ),
                },
            }
        },
    }
}

/// One or more concatenations with `*` between, taken from the left.
#[verifier::opaque]
pub open spec fn multiplicative(s: Seq<char>) -> Parsed
    decreases s.len(), 20nat,
{
    match concat(skip(s)) {
        Err(e) => Err(e),
        Ok((first, r1)) => if r1.len() > s.len() {
            Err(stalled(s))
        } else {
            Ok(product_tail(first, r1))
        },
    }
}

/// More factors behind `left`, each behind a `*`, as far as they go.
#[verifier::opaque]
pub open spec fn product_tail(left: Tree, s: Seq<char>) -> (Tree, Seq<char>)
    decreases s.len(), 19nat,
{
    match separator(s, '*') {
        Err(_) => (left, s),
        Ok(r1) => match concat(r1) {
            Err(_) => (left, s),
            Ok((t, r2)) => if r2.len() > r1.len() {
                (left, s)
            } else {
                product_tail(
                    Tree::Arithmetic(ArithmeticExprType::Mul, Box::new(left), Box::new(t)),
                    r2,
                )
            },
        },
    }
}

/// One or more primary expressions with `|` between, taken from the left.
#[verifier::opaque]
pub open spec fn concat(s: Seq<char>) -> Parsed
    decreases s.len(), 18nat,
{
    match primary(skip(s)) {
        Err(e) => Err(e),
        Ok((first, r1)) => if r1.len() > s.len() {
            Err(stalled(s))
        } else {
            Ok(concat_tail(first, r1))
        },
    }
}

/// More operands behind `left`, each behind a `|`, as far as they go.
#[verifier::opaque]
pub open spec fn concat_tail(left: Tree, s: Seq<char>) -> (Tree, Seq<char>)
    decreases s.len(), 17nat,
{
    match separator(s, '|') {
        Err(_) => (left, s),
        Ok(r1) => match primary(r1) {
            Err(_) => (left, s),
            Ok((t, r2)) => if r2.len() > r1.len() {
                (left, s)
            } else {
                concat_tail(Tree::Concat(Box::new(left), Box::new(t)), r2)
            },
        },
    }
}

/// An expression in parentheses, a call, a number, an indexed read or a
/// variable.
#[verifier::opaque]
pub open spec fn primary(s: Seq<char>) -> Parsed
    decreases s.len(), 16nat,
{
    let s1 = skip(s);
    if seq!['('].is_prefix_of(s1) {
        match expr(s1.skip(1)) {
            Err(e) => Err(e),
            Ok((t, r2)) => match token(r2, seq![')']) {
                Err(e) => Err(e),
                Ok(r3) => Ok((t, r3)),
            },
        }
    } else {
        match call(s1) {
            Ok(x) => Ok(x),
            Err(_) => match literal(s1) {
                Ok(x) => Ok(x),
                Err(_) => match index(s1) {
                    Ok(x) => Ok(x),
                    Err(_) => variable(s1),
                },
            },
        }
    }
}

/// `name(arguments)`.
#[verifier::opaque]
pub open spec fn call(s: Seq<char>) -> Parsed
    decreases s.len(), 15nat,
{
    match name(s) {
        Err(e) => Err(e),
        Ok((n, r1)) => match token(r1, seq!['(']) {
            Err(e) => Err(e),
            Ok(r2) => {
                let (args, r3) = arguments(r2);
                match token(r3, seq![')']) {
                    Err(e) => Err(e),
                    Ok(r4) => Ok((Tree::Call(n, args), r4)),
                }
            },
        },
    }
}

/// Expressions with commas between them; there may be none.
#[verifier::opaque]
pub open spec fn arguments(s: Seq<char>) -> (Seq<Tree>, Seq<char>)
    decreases s.len(), 25nat,
{
    match expr(s) {
        Err(_) => (Seq::empty(), s),
        Ok((t, r)) => if r.len() > s.len() {
            (Seq::empty(), s)
        } else {
            arguments_tail(seq![t], r)
        },
    }
}

/// More arguments behind those of `acc`, each behind a comma, as far as
/// they go.
#[verifier::opaque]
pub open spec fn arguments_tail(acc: Seq<Tree>, s: Seq<char>) -> (Seq<Tree>, Seq<char>)
    decreases s.len(), 14nat,
{
    match separator(s, ',') {
        Err(_) => (acc, s),
        Ok(r1) => match expr(r1) {
            Err(_) => (acc, s),
            Ok((t, r2)) => if r2.len() > r1.len() {
                (acc, s)
            } else {
                arguments_tail(acc.push(t), r2)
            },
        },
    }
}

/// `name[indices]`.
#[verifier::opaque]
pub open spec fn index(s: Seq<char>) -> Parsed
    decreases s.len(), 15nat,
{
    match name(s) {
        Err(e) => Err(e),
        Ok((n, r1)) => match token(r1, seq!['[']) {
            Err(e) => Err(e),
            Ok(r2) => match expr(r2) {
                Err(e) => Err(e),
                Ok((i, r3)) => match token(r3, seq![']']) {
                    Err(e) => Err(e),
                    Ok(r4) => Ok((Tree::Index(n, Box::new(i)), r4)),
                },
            },
        },
    }
}

} // verus!
