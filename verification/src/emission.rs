//! What emission means: the source text that a tree is rendered to, and the
//! names that the environment holds afterwards.

use vstd::prelude::*;

use crate::ast::{ArithmeticExprType, EqualityExprType, Tree};
use crate::cpp_code::{line, lower, raise, var_def, Page};
use crate::env::{
    assign, declare, define, defined_here, empty_scope, lookup_func, lookup_var, Callee, Scope,
};
use crate::error::{Fault, HeError};
use crate::text::joined;

verus! {

/// Where an emission ends: the environment, the page, and success or the
/// error that stopped it. On an error the page holds what was written up
/// to there.
pub struct Emitted<F> {
    pub env: Seq<Scope<F>>,
    pub page: Page,
    pub result: Result<(), Fault>,
}

/// The model of an emission's result.
pub open spec fn unit_outcome(r: Result<(), HeError>) -> Result<(), Fault> {
    match r {
        Ok(_) => Ok(()),
        Err(e) => Err(e@),
    }
}

/// A literal value in the target language.
pub open spec fn literal_text(v: Seq<u32>) -> Seq<char> {
    "u8({"@ + joined(v, ", "@) + "})"@
}

/// The sign of an arithmetic operator.
pub open spec fn arithmetic_sign(op: ArithmeticExprType) -> Seq<char> {
    match op {
        ArithmeticExprType::Add => "+"@,
        ArithmeticExprType::Sub => "-"@,
        ArithmeticExprType::Mul => "*"@,
        ArithmeticExprType::Div => "/"@,
    }
}

/// The sign of a comparison operator.
pub open spec fn equality_sign(op: EqualityExprType) -> Seq<char> {
    match op {
        EqualityExprType::Eq => "=="@,
        EqualityExprType::Ne => "!="@,
        EqualityExprType::Lt => "<"@,
        EqualityExprType::Gt => ">"@,
        EqualityExprType::Le => "<="@,
        EqualityExprType::Ge => ">="@,
    }
}

/// The line that opens an assignment.
pub open spec fn assign_open(name: Seq<char>) -> Seq<char> {
    "("@ + name + " = "@
}

/// The line that opens an indexed assignment.
pub open spec fn set_open(name: Seq<char>) -> Seq<char> {
    "("@ + name + ".set("@
}

/// The line that opens an indexed read.
pub open spec fn index_open(name: Seq<char>) -> Seq<char> {
    name + "["@
}

/// The line that opens a call.
pub open spec fn call_open(name: Seq<char>) -> Seq<char> {
    name + "("@
}

/// The parameter types of a function of `n` parameters.
pub open spec fn param_types(n: nat) -> Seq<char>
    decreases n,
{
    if n == 0 {
        Seq::empty()
    } else if n == 1 {
        "u8"@
    } else {
        param_types((n - 1) as nat) + ", "@ + "u8"@
    }
}

/// The line that opens the definition of a function of `n` parameters.
pub open spec fn func_open(name: Seq<char>, n: nat) -> Seq<char> {
    "std::function<u8("@ + param_types(n) + ")>"@ + " "@ + name + " = [&]("@
}

/// The declaration of one parameter.
pub open spec fn param_text(name: Seq<char>) -> Seq<char> {
    "u8 "@ + name
}

/// The line that opens a loop.
pub open spec fn for_open(name: Seq<char>) -> Seq<char> {
    "for (Int _for_val_"@ + name + " :"@
}

/// The line that binds the loop variable.
pub open spec fn for_bind(name: Seq<char>) -> Seq<char> {
    "u8 "@ + name + " = {_for_val_"@ + name + "};"@
}

/// The page and the environment after the first `n` parameters of a
/// function definition: one line each, a comma line between two, and each
/// name bound in the innermost layer.
pub open spec fn emit_params<F>(params: Seq<Seq<char>>, n: nat, env: Seq<Scope<F>>, page: Page) -> (
    Seq<Scope<F>>,
    Page,
)
    decreases n,
{
    if n == 0 {
        (env, page)
    } else {
        let (e, p) = emit_params(params, (n - 1) as nat, env, page);
        let q = if n > 1 {
            line(p, ","@)
        } else {
            p
        };
        (declare(e, params[n - 1], Seq::empty()), line(q, param_text(params[n - 1])))
    }
}

/// The emission of `t` into `page`, with the names of `env` in scope. A
/// name is bound only behind the text that gives it its value: the right
/// side of an assignment and the sequence of a loop are emitted while the
/// assigned name and the loop variable are not yet in scope. The right side
/// of an assignment is emitted apart and joined in behind the line that
/// opens the assignment; where it fails, nothing of it reaches the page.
pub open spec fn emit<F>(t: Tree, env: Seq<Scope<F>>, page: Page) -> Emitted<F>
    decreases t, 0nat,
{
    match t {
        Tree::Literal(v) => Emitted { env, page: line(page, literal_text(v)), result: Ok(()) },
        Tree::Var(name) => if lookup_var(env, name) is None {
            Emitted { env, page, result: Err(Fault::UndefinedVariable(name)) }
        } else {
            Emitted { env, page: line(page, name), result: Ok(()) }
        },
        Tree::Index(name, indices) => if lookup_var(env, name) is None {
            Emitted { env, page, result: Err(Fault::UndefinedVariable(name)) }
        } else {
            let a = emit(*indices, env, raise(line(page, index_open(name))));
            if a.result is Err {
                a
            } else {
                Emitted { env: a.env, page: line(lower(a.page), "]"@), result: Ok(()) }
            }
        },
        Tree::Concat(left, right) => {
            let a = emit(*left, env, raise(line(page, "("@)));
            if a.result is Err {
                a
            } else {
                let b = emit(*right, a.env, raise(line(lower(a.page), " | "@)));
                if b.result is Err {
                    b
                } else {
                    Emitted { env: b.env, page: line(lower(b.page), ")"@), result: Ok(()) }
                }
            }
        },
        Tree::Arithmetic(op, left, right) => {
            let a = emit(*left, env, raise(line(page, "("@)));
            if a.result is Err {
                a
            } else {
                let b = emit(*right, a.env, raise(line(lower(a.page), arithmetic_sign(op))));
                if b.result is Err {
                    b
                } else {
                    Emitted { env: b.env, page: line(lower(b.page), ")"@), result: Ok(()) }
                }
            }
        },
        Tree::Compare(op, left, right) => {
            let a = emit(*left, env, raise(line(page, "("@)));
            if a.result is Err {
                a
            } else {
                let b = emit(*right, a.env, raise(line(lower(a.page), equality_sign(op))));
                if b.result is Err {
                    b
                } else {
                    Emitted { env: b.env, page: line(lower(b.page), ")"@), result: Ok(()) }
                }
            }
        },
        Tree::Declare(name) => Emitted {
            env: declare(env, name, Seq::empty()),
            page: line(page, var_def(name)),
            result: Ok(()),
        },
        Tree::Assign(name, value) => {
            let a = emit(*value, env, Page { code: Seq::empty(), tabs: raise(page).tabs });
            if a.result is Err {
                Emitted { env: a.env, page, result: a.result }
            } else {
                let declared = if lookup_var(a.env, name) is None {
                    line(page, var_def(name))
                } else {
                    page
                };
                let opened = line(declared, assign_open(name));
                Emitted {
                    env: assign(a.env, name, Seq::empty()),
                    page: line(Page { code: opened.code + a.page.code, tabs: page.tabs }, ")"@),
                    result: Ok(()),
                }
            }
        },
        Tree::IndexAssign(name, indices, value) => if lookup_var(env, name) is None {
            Emitted { env, page, result: Err(Fault::UndefinedVariable(name)) }
        } else {
            let a = emit(*indices, env, raise(line(page, set_open(name))));
            if a.result is Err {
                a
            } else {
                let b = emit(*value, a.env, raise(line(lower(a.page), ","@)));
                if b.result is Err {
                    b
                } else {
                    Emitted { env: b.env, page: line(lower(b.page), "))"@), result: Ok(()) }
                }
            }
        },
        Tree::Define(name, params, body) => if defined_here(env, name) {
            Emitted { env, page, result: Err(Fault::DuplicateFunctionDefinition(name)) }
        } else {
            let (e, p) = emit_params(
                params,
                params.len(),
                define(env, name, Callee::User { params, body: *body }).push(empty_scope()),
                raise(line(page, func_open(name, params.len()))),
            );
            let b = emit(*body, e, raise(line(raise(line(lower(p), ") {"@)), "return"@)));
            if b.result is Err {
                Emitted { env: b.env.drop_last(), page: b.page, result: b.result }
            } else {
                Emitted {
                    env: b.env.drop_last(),
                    page: line(lower(lower(b.page)), "};"@),
                    result: Ok(()),
                }
            }
        },
        Tree::Call(name, args) => if lookup_func(env, name) is None {
            Emitted { env, page, result: Err(Fault::UndefinedFunction(name)) }
        } else {
            let a = emit_list(args, args.len(), env, raise(line(page, call_open(name))));
            if a.result is Err {
                a
            } else {
                Emitted { env: a.env, page: line(lower(a.page), ")"@), result: Ok(()) }
            }
        },
        Tree::If(condition, body) => {
            let a = emit(
                *condition,
                env,
                raise(line(raise(line(page, "[&]() {"@)), "if (bool("@)),
            );
            if a.result is Err {
                a
            } else {
                let b = emit(
                    *body,
                    a.env,
                    raise(line(line(lower(a.page), ")) {"@), "return "@)),
                );
                if b.result is Err {
                    b
                } else {
                    Emitted {
                        env: b.env,
                        page: line(
                            lower(line(line(lower(b.page), "}"@), "return u8();"@)),
                            "}();"@,
                        ),
                        result: Ok(()),
                    }
                }
            }
        },
        Tree::IfEq(left, right, body) => {
            let a = emit(*left, env, raise(line(raise(line(page, "[&]() {"@)), "if ("@)));
            if a.result is Err {
                a
            } else {
                let b = emit(*right, a.env, raise(line(lower(a.page), "=="@)));
                if b.result is Err {
                    b
                } else {
                    let c = emit(
                        *body,
                        b.env,
                        raise(line(line(lower(b.page), ") {"@), "return "@)),
                    );
                    if c.result is Err {
                        c
                    } else {
                        Emitted {
                            env: c.env,
                            page: line(
                                lower(line(line(lower(c.page), "}"@), "return u8();"@)),
                                "}();"@,
                            ),
                            result: Ok(()),
                        }
                    }
                }
            }
        },
        Tree::ForIn(name, sequence, body) => {
            let a = emit(
                *sequence,
                env,
                raise(line(raise(line(page, "[&]() {"@)), for_open(name))),
            );
            if a.result is Err {
                a
            } else {
                let b = emit(
                    *body,
                    declare(a.env.push(empty_scope()), name, Seq::empty()),
                    line(raise(line(lower(a.page), ") {"@)), for_bind(name)),
                );
                if b.result is Err {
                    Emitted { env: b.env.drop_last(), page: b.page, result: b.result }
                } else {
                    Emitted {
                        env: b.env.drop_last(),
                        page: line(
                            lower(line(line(lower(b.page), "}"@), "return u8();"@)),
                            "}()"@,
                        ),
                        result: Ok(()),
                    }
                }
            }
        },
        Tree::Block(statements) => {
            let a = emit_block(
                statements,
                statements.len(),
                env,
                raise(line(page, "[&]() {"@)),
            );
            if a.result is Err {
                a
            } else {
                let closed = if statements.len() == 0 {
                    line(a.page, "return u8();"@)
                } else {
                    a.page
                };
                Emitted { env: a.env, page: line(lower(closed), "}()"@), result: Ok(()) }
            }
        },
        Tree::Statement(inner) => {
            let a = emit(*inner, env, page);
            if a.result is Err {
                a
            } else {
                Emitted { env: a.env, page: line(a.page, ";"@), result: Ok(()) }
            }
        },
    }
}

/// The emission of the first `n` arguments of a call: a comma line between
/// two. The first error ends it.
pub open spec fn emit_list<F>(items: Seq<Tree>, n: nat, env: Seq<Scope<F>>, page: Page) -> Emitted<F>
    decreases items, n,
{
    if n == 0 || n > items.len() {
        Emitted { env, page, result: Ok(()) }
    } else {
        let a = emit_list(items, (n - 1) as nat, env, page);
        if a.result is Err {
            a
        } else {
            let p = if n > 1 {
                line(a.page, ","@)
            } else {
                a.page
            };
            emit(items[n - 1], a.env, p)
        }
    }
}

/// The emission of the first `n` statements of a block: the last statement
/// of the block follows a `return` line, one level deeper. The first error
/// ends it.
pub open spec fn emit_block<F>(items: Seq<Tree>, n: nat, env: Seq<Scope<F>>, page: Page) -> Emitted<F>
    decreases items, n,
{
    if n == 0 || n > items.len() {
        Emitted { env, page, result: Ok(()) }
    } else {
        let a = emit_block(items, (n - 1) as nat, env, page);
        if a.result is Err {
            a
        } else if n == items.len() {
            let b = emit(items[n - 1], a.env, raise(line(a.page, "return"@)));
            if b.result is Err {
                b
            } else {
                Emitted { env: b.env, page: lower(b.page), result: Ok(()) }
            }
        } else {
            emit(items[n - 1], a.env, a.page)
        }
    }
}

/// Once the emission of a list has stopped on an error, more trees change
/// nothing.
pub proof fn lemma_emit_list_stops<F>(
    items: Seq<Tree>,
    n: nat,
    m: nat,
    env: Seq<Scope<F>>,
    page: Page,
)
    requires
        1 <= n <= m <= items.len(),
        emit_list(items, n, env, page).result is Err,
    ensures
        emit_list(items, m, env, page) == emit_list(items, n, env, page),
    decreases m,
{
    if n < m {
        lemma_emit_list_stops(items, n, (m - 1) as nat, env, page);
    }
}

/// Once the emission of a block has stopped on an error, more statements
/// change nothing.
pub proof fn lemma_emit_block_stops<F>(
    items: Seq<Tree>,
    n: nat,
    m: nat,
    env: Seq<Scope<F>>,
    page: Page,
)
    requires
        1 <= n <= m <= items.len(),
        emit_block(items, n, env, page).result is Err,
    ensures
        emit_block(items, m, env, page) == emit_block(items, n, env, page),
    decreases m,
{
    if n < m {
        lemma_emit_block_stops(items, n, (m - 1) as nat, env, page);
    }
}

} // verus!
