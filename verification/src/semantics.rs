//! What evaluation means: the value and the environment that a tree leaves
//! behind, as a function of the tree, of the environment before, and of
//! what the user's functions returned.
//!
//! A user's function may read, print or tell the time: its arguments need
//! not tell its result. The calls of such functions are kept in a log, each
//! with what was handed to it and what came back. `run` replays them from
//! the log; on a log without entries it is the evaluation of the programs
//! that call no such function.

use vstd::prelude::*;

use crate::ast::{ArithmeticExprType, EqualityExprType, Tree};
use crate::env::{
    assign, declare, define, defined_here, empty_scope, extends, lookup_func, lookup_var,
    Callee, Event, Func, Scope, MAX_DEPTH,
};
use crate::error::Fault;
use crate::value::{difference, from_bool, lex_less, product, quotient, sum, truthy};

verus! {

/// Where an evaluation ends: the environment it leaves and its result.
pub struct Outcome<F> {
    pub env: Seq<Scope<F>>,
    pub result: Result<Seq<u32>, Fault>,
    /// How many calls of the log have been replayed.
    pub at: nat,
}

/// Where the evaluation of a list of trees ends.
pub struct Listed<F> {
    pub env: Seq<Scope<F>>,
    pub result: Result<Seq<Seq<u32>>, Fault>,
    /// How many calls of the log have been replayed.
    pub at: nat,
}

/// How many more layers the scope stack can take at the given depth before
/// their number no longer fits the machine word.
pub open spec fn budget(depth: nat) -> nat {
    if depth < MAX_DEPTH {
        (MAX_DEPTH - depth) as nat
    } else {
        0
    }
}

/// The layers that are left once one more is pushed.
pub open spec fn deeper(fuel: nat) -> nat {
    if fuel > 0 {
        (fuel - 1) as nat
    } else {
        0
    }
}

/// The value of a variable, or the error of reading one that is not bound.
pub open spec fn read<F>(env: Seq<Scope<F>>, name: Seq<char>) -> Result<Seq<u32>, Fault> {
    match lookup_var(env, name) {
        Some(v) => Ok(v),
        None => Err(Fault::UndefinedVariable(name)),
    }
}

/// The elements of `var` at the positions `indices`, counted from 0.
pub open spec fn gather(name: Seq<char>, var: Seq<u32>, indices: Seq<u32>) -> Result<
    Seq<u32>,
    Fault,
> {
    if exists|i: int| 0 <= i < indices.len() && indices[i] >= var.len() {
        Err(Fault::IndexOutOfRange(name))
    } else {
        Ok(Seq::new(indices.len(), |i: int| var[indices[i] as int]))
    }
}

/// `var` after the first `n` writes of an indexed assignment: write `i`
/// puts the element `i mod len(value)` of `value` at the position that the
/// index `indices[i]` names, counted from 1.
pub open spec fn scatter(var: Seq<u32>, indices: Seq<u32>, value: Seq<u32>, n: nat) -> Seq<u32>
    decreases n,
{
    if n == 0 {
        var
    } else {
        scatter(var, indices, value, (n - 1) as nat).update(
            indices[n - 1] - 1,
            value[(n - 1) % (value.len() as int)],
        )
    }
}

/// The new value of the variable in `name[indices] = value`. An index of 0
/// stands for the whole variable: where one occurs, the assigned value
/// takes the variable's place. Every other index `k` names the element at
/// position `k - 1`, and the assigned value is repeated cyclically over
/// the indices.
pub open spec fn indexed_write(
    name: Seq<char>,
    var: Seq<u32>,
    indices: Seq<u32>,
    value: Seq<u32>,
) -> Result<Seq<u32>, Fault> {
    if value.len() == 0 {
        Err(Fault::EmptyAssignmentValue(name))
    } else if indices.contains(0u32) {
        Ok(value)
    } else if indices.len() < value.len() {
        Err(Fault::BroadcastLengthMismatch(name))
    } else if exists|i: int| 0 <= i < indices.len() && indices[i] > var.len() {
        Err(Fault::IndexOutOfRange(name))
    } else {
        Ok(scatter(var, indices, value, indices.len()))
    }
}

/// Element-wise arithmetic by operator.
pub open spec fn arithmetic(op: ArithmeticExprType, a: Seq<u32>, b: Seq<u32>) -> Result<
    Seq<u32>,
    Fault,
> {
    match op {
        ArithmeticExprType::Add => sum(a, b),
        ArithmeticExprType::Sub => difference(a, b),
        ArithmeticExprType::Mul => product(a, b),
        ArithmeticExprType::Div => quotient(a, b),
    }
}

/// A comparison by operator: equality of the sequences, or the
/// lexicographic order.
pub open spec fn compare(op: EqualityExprType, a: Seq<u32>, b: Seq<u32>) -> bool {
    match op {
        EqualityExprType::Eq => a == b,
        EqualityExprType::Ne => a != b,
        EqualityExprType::Lt => lex_less(a, b),
        EqualityExprType::Gt => lex_less(b, a),
        EqualityExprType::Le => !lex_less(b, a),
        EqualityExprType::Ge => !lex_less(a, b),
    }
}

/// `env` with the first `n` parameters bound to their arguments in the
/// innermost layer.
pub open spec fn bind_params<F>(
    env: Seq<Scope<F>>,
    params: Seq<Seq<char>>,
    args: Seq<Seq<u32>>,
    n: nat,
) -> Seq<Scope<F>>
    decreases n,
{
    if n == 0 {
        env
    } else {
        declare(bind_params(env, params, args, (n - 1) as nat), params[n - 1], args[n - 1])
    }
}

/// The environment in which the body of a called function starts: a new
/// layer that binds each parameter.
pub open spec fn entered<F>(env: Seq<Scope<F>>, params: Seq<Seq<char>>, args: Seq<Seq<u32>>) -> Seq<
    Scope<F>,
> {
    bind_params(env.push(empty_scope()), params, args, params.len())
}

/// The outcome of a call or a loop from the outcome inside it: the layer
/// that was pushed is popped, whatever the result.
pub open spec fn left<F>(inner: Option<Outcome<F>>) -> Option<Outcome<F>> {
    match inner {
        None => None,
        Some(o) => Some(Outcome { env: o.env.drop_last(), result: o.result, at: o.at }),
    }
}

/// The value of a block from the values of its statements.
pub open spec fn last_or_empty(values: Seq<Seq<u32>>) -> Seq<u32> {
    if values.len() == 0 {
        Seq::empty()
    } else {
        values.last()
    }
}

/// The outcome of a call of a user's function. Where the function's
/// arguments tell its result, that result, and the bindings stay. Where they
/// do not, the log tells: its next entry must be a call of this function on
/// these arguments in this environment, and gives the result and the
/// environment that the call left. `None` where the log holds no such entry.
pub open spec fn replied<F: Func>(
    f: F,
    args: Seq<Seq<u32>>,
    env: Seq<Scope<F>>,
    log: Seq<Event<F>>,
    at: nat,
) -> Option<Outcome<F>> {
    match f.outcome(args) {
        Some(r) => Some(Outcome { env, result: r, at }),
        None => if at < log.len() && log[at as int].func == f && log[at as int].args == args
            && log[at as int].before == env && log[at as int].after.len() == env.len() {
            Some(
                Outcome {
                    env: log[at as int].after,
                    result: log[at as int].result,
                    at: at + 1,
                },
            )
        } else {
            None
        },
    }
}

/// The outcome of evaluating `t` in `env`, with room for `fuel` more
/// layers on the scope stack. The calls of user's functions whose arguments
/// do not tell their result are replayed from `log`, starting at entry
/// `at`. `None` where the log does not hold the calls that the evaluation
/// makes.
pub open spec fn run<F: Func>(
    t: Tree,
    env: Seq<Scope<F>>,
    fuel: nat,
    log: Seq<Event<F>>,
    at: nat,
) -> Option<Outcome<F>>
    decreases fuel, t, 0nat,
{
    match t {
        Tree::Literal(v) => Some(Outcome { env, result: Ok(v), at }),
        Tree::Var(name) => Some(Outcome { env, result: read(env, name), at }),
        Tree::Index(name, indices) => match lookup_var(env, name) {
            None => Some(Outcome { env, result: Err(Fault::UndefinedVariable(name)), at }),
            Some(var) => match run(*indices, env, fuel, log, at) {
                None => None,
                Some(i) => match i.result {
                    Err(e) => Some(i),
                    Ok(ix) => Some(Outcome { env: i.env, result: gather(name, var, ix), at: i.at }),
                },
            },
        },
        Tree::Concat(left, right) => match run(*left, env, fuel, log, at) {
            None => None,
            Some(a) => match a.result {
                Err(e) => Some(a),
                Ok(x) => match run(*right, a.env, fuel, log, a.at) {
                    None => None,
                    Some(b) => match b.result {
                        Err(e) => Some(b),
                        Ok(y) => Some(Outcome { env: b.env, result: Ok(x + y), at: b.at }),
                    },
                },
            },
        },
        Tree::Arithmetic(op, left, right) => match run(*left, env, fuel, log, at) {
            None => None,
            Some(a) => match a.result {
                Err(e) => Some(a),
                Ok(x) => match run(*right, a.env, fuel, log, a.at) {
                    None => None,
                    Some(b) => match b.result {
                        Err(e) => Some(b),
                        Ok(y) => Some(Outcome { env: b.env, result: arithmetic(op, x, y), at: b.at }),
                    },
                },
            },
        },
        Tree::Compare(op, left, right) => match run(*left, env, fuel, log, at) {
            None => None,
            Some(a) => match a.result {
                Err(e) => Some(a),
                Ok(x) => match run(*right, a.env, fuel, log, a.at) {
                    None => None,
                    Some(b) => match b.result {
                        Err(e) => Some(b),
                        Ok(y) => Some(
                            Outcome { env: b.env, result: Ok(from_bool(compare(op, x, y))), at: b.at },
                        ),
                    },
                },
            },
        },
        Tree::Declare(name) => Some(
            Outcome { env: declare(env, name, Seq::empty()), result: Ok(Seq::empty()), at },
        ),
        Tree::Assign(name, value) => match run(*value, env, fuel, log, at) {
            None => None,
            Some(a) => match a.result {
                Err(e) => Some(a),
                Ok(v) => Some(Outcome { env: assign(a.env, name, v), result: Ok(v), at: a.at }),
            },
        },
        Tree::IndexAssign(name, indices, value) => match lookup_var(env, name) {
            None => Some(Outcome { env, result: Err(Fault::UndefinedVariable(name)), at }),
            Some(var) => match run(*indices, env, fuel, log, at) {
                None => None,
                Some(a) => match a.result {
                    Err(e) => Some(a),
                    Ok(ix) => match run(*value, a.env, fuel, log, a.at) {
                        None => None,
                        Some(b) => match b.result {
                            Err(e) => Some(b),
                            Ok(v) => match indexed_write(name, var, ix, v) {
                                Err(e) => Some(Outcome { env: b.env, result: Err(e), at: b.at }),
                                Ok(w) => Some(
                                    Outcome { env: assign(b.env, name, w), result: Ok(w), at: b.at },
                                ),
                            },
                        },
                    },
                },
            },
        },
        Tree::Define(name, params, body) => if defined_here(env, name) {
            Some(Outcome { env, result: Err(Fault::DuplicateFunctionDefinition(name)), at })
        } else {
            Some(
                Outcome {
                    env: define(env, name, Callee::User { params, body: *body }),
                    result: Ok(seq![0u32]),
                    at,
                },
            )
        },
        Tree::Call(name, args) => match lookup_func(env, name) {
            None => Some(Outcome { env, result: Err(Fault::UndefinedFunction(name)), at }),
            Some(callee) => match run_list(args, args.len(), env, fuel, log, at) {
                None => None,
                Some(a) => match a.result {
                    Err(e) => Some(Outcome { env: a.env, result: Err(e), at: a.at }),
                    Ok(values) => match callee {
                        Callee::Builtin(b) => Some(Outcome { env: a.env, result: b.result(values), at: a.at }),
                        Callee::Native(f) => replied(f, values, a.env, log, a.at),
                        Callee::User { params, body } => if values.len() != params.len() {
                            Some(
                                Outcome {
                                    env: a.env,
                                    result: Err(
                                        Fault::ArityMismatch {
                                            expected: params.len(),
                                            got: values.len(),
                                        },
                                    ),
                                    at: a.at,
                                },
                            )
                        } else if fuel == 0 {
                            Some(Outcome { env: a.env, result: Err(Fault::DepthExceeded), at: a.at })
                        } else {
                            left(run(body, entered(a.env, params, values), (fuel - 1) as nat, log, a.at))
                        },
                    },
                },
            },
        },
        Tree::If(condition, body) => match run(*condition, env, fuel, log, at) {
            None => None,
            Some(a) => match a.result {
                Err(e) => Some(a),
                Ok(c) => if truthy(c) {
                    run(*body, a.env, fuel, log, a.at)
                } else {
                    Some(Outcome { env: a.env, result: Ok(Seq::empty()), at: a.at })
                },
            },
        },
        Tree::IfEq(left, right, body) => match run(*left, env, fuel, log, at) {
            None => None,
            Some(a) => match a.result {
                Err(e) => Some(a),
                Ok(x) => match run(*right, a.env, fuel, log, a.at) {
                    None => None,
                    Some(b) => match b.result {
                        Err(e) => Some(b),
                        Ok(y) => if x == y {
                            run(*body, b.env, fuel, log, b.at)
                        } else {
                            Some(Outcome { env: b.env, result: Ok(Seq::empty()), at: b.at })
                        },
                    },
                },
            },
        },
        Tree::ForIn(name, sequence, body) => match run(*sequence, env, fuel, log, at) {
            None => None,
            Some(a) => match a.result {
                Err(e) => Some(a),
                Ok(items) => left(
                    run_loop(
                        name,
                        items,
                        items.len(),
                        *body,
                        a.env.push(empty_scope()),
                        deeper(fuel), log, a.at,
                    ),
                ),
            },
        },
        Tree::Block(statements) => match run_list(statements, statements.len(), env, fuel, log, at) {
            None => None,
            Some(a) => match a.result {
                Err(e) => Some(Outcome { env: a.env, result: Err(e), at: a.at }),
                Ok(values) => Some(Outcome { env: a.env, result: Ok(last_or_empty(values)), at: a.at }),
            },
        },
        Tree::Statement(inner) => run(*inner, env, fuel, log, at),
    }
}

/// The outcome of evaluating the first `n` trees of `items` in order. The
/// first error ends the evaluation.
pub open spec fn run_list<F: Func>(
    items: Seq<Tree>,
    n: nat,
    env: Seq<Scope<F>>,
    fuel: nat,
    log: Seq<Event<F>>,
    at: nat,
) -> Option<Listed<F>>
    decreases fuel, items, n,
{
    if n == 0 || n > items.len() {
        Some(Listed { env, result: Ok(Seq::empty()), at })
    } else {
        match run_list(items, (n - 1) as nat, env, fuel, log, at) {
            None => None,
            Some(a) => match a.result {
                Err(e) => Some(a),
                Ok(values) => match run(items[n - 1], a.env, fuel, log, a.at) {
                    None => None,
                    Some(b) => match b.result {
                        Err(e) => Some(Listed { env: b.env, result: Err(e), at: b.at }),
                        Ok(v) => Some(Listed { env: b.env, result: Ok(values.push(v)), at: b.at }),
                    },
                },
            },
        }
    }
}

/// The environment at the start of iteration `i` of a loop over `items`:
/// the first iteration binds the loop variable in the innermost layer, the
/// later ones rebind it where it is found.
pub open spec fn iteration<F>(env: Seq<Scope<F>>, name: Seq<char>, items: Seq<u32>, i: int) -> Seq<
    Scope<F>,
> {
    if i == 0 {
        declare(env, name, seq![items[i]])
    } else {
        assign(env, name, seq![items[i]])
    }
}

/// The outcome of the first `n` iterations of a loop over `items`: each
/// binds the loop variable to one element, in order, and evaluates the
/// body. The first error ends the loop. The result is the empty value.
pub open spec fn run_loop<F: Func>(
    name: Seq<char>,
    items: Seq<u32>,
    n: nat,
    body: Tree,
    env: Seq<Scope<F>>,
    fuel: nat,
    log: Seq<Event<F>>,
    at: nat,
) -> Option<Outcome<F>>
    decreases fuel, body, n + 1,
{
    if n == 0 || n > items.len() {
        Some(Outcome { env, result: Ok(Seq::empty()), at })
    } else {
        match run_loop(name, items, (n - 1) as nat, body, env, fuel, log, at) {
            None => None,
            Some(a) => match a.result {
                Err(e) => Some(a),
                Ok(_) => match run(body, iteration(a.env, name, items, n - 1), fuel, log, a.at) {
                    None => None,
                    Some(b) => match b.result {
                        Err(e) => Some(b),
                        Ok(_) => Some(Outcome { env: b.env, result: Ok(Seq::empty()), at: b.at }),
                    },
                },
            },
        }
    }
}

/// The outcome of calling a function of the language on argument values.
pub open spec fn invoke<F: Func>(
    params: Seq<Seq<char>>,
    body: Tree,
    args: Seq<Seq<u32>>,
    env: Seq<Scope<F>>,
    fuel: nat,
    log: Seq<Event<F>>,
    at: nat,
) -> Option<Outcome<F>> {
    if args.len() != params.len() {
        Some(
            Outcome {
                env,
                result: Err(Fault::ArityMismatch { expected: params.len(), got: args.len() }),
                at,
            },
        )
    } else if fuel == 0 {
        Some(Outcome { env, result: Err(Fault::DepthExceeded), at })
    } else {
        left(run(body, entered(env, params, args), (fuel - 1) as nat, log, at))
    }
}

/// A loop that ends without an error has the empty value as its result,
/// whatever its body did, and leaves the scope stack at its depth.
pub proof fn lemma_loop_result<F: Func>(
    name: Seq<char>,
    items: Seq<u32>,
    n: nat,
    body: Tree,
    env: Seq<Scope<F>>,
    fuel: nat,
    log: Seq<Event<F>>,
    at: nat,
)
    ensures
        run_loop(name, items, n, body, env, fuel, log, at) matches Some(o) ==> (o.result is Ok ==> o.result
            == Ok::<Seq<u32>, Fault>(Seq::empty())),
    decreases n,
{
    if n == 0 || n > items.len() {
    } else {
        lemma_loop_result(name, items, (n - 1) as nat, body, env, fuel, log, at);
    }
}

/// The first `n` iterations of a loop see the first `n` elements only:
/// the elements are visited in order, each once.
pub proof fn lemma_loop_in_order<F: Func>(
    name: Seq<char>,
    items: Seq<u32>,
    n: nat,
    body: Tree,
    env: Seq<Scope<F>>,
    fuel: nat,
    log: Seq<Event<F>>,
    at: nat,
)
    requires
        n <= items.len(),
    ensures
        run_loop(name, items, n, body, env, fuel, log, at) == run_loop(
            name,
            items.take(n as int),
            n,
            body,
            env,
            fuel, log, at,
        ),
    decreases n,
{
    let first = items.take(n as int);
    if n > 0 {
        lemma_loop_in_order(name, items, (n - 1) as nat, body, env, fuel, log, at);
        lemma_loop_in_order(name, first, (n - 1) as nat, body, env, fuel, log, at);
        assert(first.take(n - 1) == items.take(n - 1));
        assert(first[n - 1] == items[n - 1]);
    }
}

/// Iteration `k` of the loop succeeds: the iterations before it are
/// determined, and where they succeed, the body does.
pub open spec fn iteration_succeeds<F: Func>(
    name: Seq<char>,
    items: Seq<u32>,
    k: nat,
    body: Tree,
    env: Seq<Scope<F>>,
    fuel: nat,
    log: Seq<Event<F>>,
    at: nat,
) -> bool {
    match run_loop(name, items, k, body, env, fuel, log, at) {
        Some(a) => a.result is Ok ==> (run(body, iteration(a.env, name, items, k as int), fuel, log, a.at)
            matches Some(b) && b.result is Ok),
        None => false,
    }
}

/// A loop whose body succeeds in every iteration succeeds, with the empty
/// value: the body is evaluated once for each element, in order, and the
/// loop fails only where its body does.
pub proof fn lemma_loop_succeeds<F: Func>(
    name: Seq<char>,
    items: Seq<u32>,
    n: nat,
    body: Tree,
    env: Seq<Scope<F>>,
    fuel: nat,
    log: Seq<Event<F>>,
    at: nat,
)
    requires
        n <= items.len(),
        forall|k: nat| k < n ==> #[trigger] iteration_succeeds(name, items, k, body, env, fuel, log, at),
    ensures
        run_loop(name, items, n, body, env, fuel, log, at) matches Some(o) && o.result == Ok::<
            Seq<u32>,
            Fault,
        >(Seq::empty()),
    decreases n,
{
    if n > 0 {
        lemma_loop_succeeds(name, items, (n - 1) as nat, body, env, fuel, log, at);
        assert(iteration_succeeds(name, items, (n - 1) as nat, body, env, fuel, log, at));
    }
}

/// The value of a loop is the empty value, whatever its body does.
pub proof fn lemma_for_in_is_empty<F: Func>(
    name: Seq<char>,
    sequence: Tree,
    body: Tree,
    env: Seq<Scope<F>>,
    fuel: nat,
    log: Seq<Event<F>>,
    at: nat,
)
    ensures
        run(Tree::ForIn(name, Box::new(sequence), Box::new(body)), env, fuel, log, at) matches Some(o) ==> (
        o.result is Ok ==> o.result == Ok::<Seq<u32>, Fault>(Seq::empty())),
{
    match run(sequence, env, fuel, log, at) {
        Some(a) => match a.result {
            Ok(items) => {
                lemma_loop_result(
                    name,
                    items,
                    items.len(),
                    body,
                    a.env.push(empty_scope()),
                    deeper(fuel), log, a.at,
                );
            },
            Err(_) => {},
        },
        None => {},
    }
}

/// Once the evaluation of a list has stopped, on an error or on a result that
/// is not determined, more trees change nothing.
pub proof fn lemma_list_stops<F: Func>(
    items: Seq<Tree>,
    n: nat,
    m: nat,
    env: Seq<Scope<F>>,
    fuel: nat,
    log: Seq<Event<F>>,
    at: nat,
)
    requires
        1 <= n <= m <= items.len(),
        run_list(items, n, env, fuel, log, at) matches Some(a) ==> a.result is Err,
    ensures
        run_list(items, m, env, fuel, log, at) == run_list(items, n, env, fuel, log, at),
    decreases m,
{
    if n < m {
        lemma_list_stops(items, n, (m - 1) as nat, env, fuel, log, at);
    }
}

/// Once a loop has stopped, on an error or on a result that is not
/// determined, more iterations change nothing.
pub proof fn lemma_loop_stops<F: Func>(
    name: Seq<char>,
    items: Seq<u32>,
    n: nat,
    m: nat,
    body: Tree,
    env: Seq<Scope<F>>,
    fuel: nat,
    log: Seq<Event<F>>,
    at: nat,
)
    requires
        1 <= n <= m <= items.len(),
        run_loop(name, items, n, body, env, fuel, log, at) matches Some(a) ==> a.result is Err,
    ensures
        run_loop(name, items, m, body, env, fuel, log, at) == run_loop(name, items, n, body, env, fuel, log, at),
    decreases m,
{
    if n < m {
        lemma_loop_stops(name, items, n, (m - 1) as nat, body, env, fuel, log, at);
    }
}

/// A call of a user's function hands over the values of the argument
/// expressions, evaluated in order, in the environment that they leave.
/// Where the arguments tell the result, the call has that result and the
/// bindings stay. Where they do not, the call is the next entry of the log,
/// and its result and the environment that it left are those of the
/// evaluation.
pub proof fn lemma_call_of_users_function<F: Func>(
    name: Seq<char>,
    args: Seq<Tree>,
    f: F,
    env: Seq<Scope<F>>,
    fuel: nat,
    log: Seq<Event<F>>,
    at: nat,
)
    requires
        lookup_func(env, name) == Some(Callee::Native(f)),
        run(Tree::Call(name, args), env, fuel, log, at) is Some,
    ensures
        ({
            let o = run(Tree::Call(name, args), env, fuel, log, at)->0;
            &&& run_list(args, args.len(), env, fuel, log, at) matches Some(a)
            &&& match a.result {
                Err(e) => o == (Outcome { env: a.env, result: Err(e), at: a.at }),
                Ok(values) => match f.outcome(values) {
                    Some(r) => o == (Outcome { env: a.env, result: r, at: a.at }),
                    None => a.at < log.len() && o.at == a.at + 1 && log[a.at as int] == (Event {
                        func: f,
                        args: values,
                        before: a.env,
                        result: o.result,
                        after: o.env,
                    }),
                },
            }
        }),
{
}

/// A log that starts with a log that starts with a third starts with the
/// third.
pub proof fn lemma_extends_chain<F>(a: Seq<Event<F>>, b: Seq<Event<F>>, c: Seq<Event<F>>)
    requires
        extends(b, a),
        extends(c, b),
    ensures
        extends(c, a),
{
    assert forall|i: int| 0 <= i < a.len() implies c[i] == a[i] by {
        assert(b[i] == a[i]);
    }
}

/// More entries at the end of the log change nothing of an evaluation that
/// the log determines.
pub proof fn lemma_run_extends<F: Func>(
    t: Tree,
    env: Seq<Scope<F>>,
    fuel: nat,
    log: Seq<Event<F>>,
    at: nat,
    longer: Seq<Event<F>>,
)
    requires
        extends(longer, log),
        run(t, env, fuel, log, at) is Some,
    ensures
        run(t, env, fuel, longer, at) == run(t, env, fuel, log, at),
    decreases fuel, t, 1nat,
{
    match t {
        Tree::Literal(_) => extends_plain(t, env, fuel, log, at, longer),
        Tree::Var(_) => extends_plain(t, env, fuel, log, at, longer),
        Tree::Declare(_) => extends_plain(t, env, fuel, log, at, longer),
        Tree::Define(_, _, _) => extends_plain(t, env, fuel, log, at, longer),
        Tree::Index(_, _) => extends_index(t, env, fuel, log, at, longer),
        Tree::Concat(_, _) => extends_concat(t, env, fuel, log, at, longer),
        Tree::Arithmetic(_, _, _) => extends_arithmetic(t, env, fuel, log, at, longer),
        Tree::Compare(_, _, _) => extends_compare(t, env, fuel, log, at, longer),
        Tree::Assign(_, _) => extends_assign(t, env, fuel, log, at, longer),
        Tree::IndexAssign(_, _, _) => extends_index_assign(t, env, fuel, log, at, longer),
        Tree::Call(_, _) => extends_call(t, env, fuel, log, at, longer),
        Tree::If(_, _) => extends_if(t, env, fuel, log, at, longer),
        Tree::IfEq(_, _, _) => extends_if_eq(t, env, fuel, log, at, longer),
        Tree::ForIn(_, _, _) => extends_for_in(t, env, fuel, log, at, longer),
        Tree::Block(_) => extends_block(t, env, fuel, log, at, longer),
        Tree::Statement(_) => extends_statement(t, env, fuel, log, at, longer),
    }
}

/// The law for a tree without parts that are evaluated.
proof fn extends_plain<F: Func>(
    t: Tree,
    env: Seq<Scope<F>>,
    fuel: nat,
    log: Seq<Event<F>>,
    at: nat,
    longer: Seq<Event<F>>,
)
    requires
        extends(longer, log),
        run(t, env, fuel, log, at) is Some,
        t is Literal || t is Var || t is Declare || t is Define,
    ensures
        run(t, env, fuel, longer, at) == run(t, env, fuel, log, at),
    decreases fuel, t, 0nat,
{
}

/// The law for an indexed read.
proof fn extends_index<F: Func>(
    t: Tree,
    env: Seq<Scope<F>>,
    fuel: nat,
    log: Seq<Event<F>>,
    at: nat,
    longer: Seq<Event<F>>,
)
    requires
        extends(longer, log),
        run(t, env, fuel, log, at) is Some,
        t is Index,
    ensures
        run(t, env, fuel, longer, at) == run(t, env, fuel, log, at),
    decreases fuel, t, 0nat,
{
    if run(*t->Index_1, env, fuel, log, at) is Some {
        lemma_run_extends(*t->Index_1, env, fuel, log, at, longer);
    }
}

/// The law for a concatenation.
proof fn extends_concat<F: Func>(
    t: Tree,
    env: Seq<Scope<F>>,
    fuel: nat,
    log: Seq<Event<F>>,
    at: nat,
    longer: Seq<Event<F>>,
)
    requires
        extends(longer, log),
        run(t, env, fuel, log, at) is Some,
        t is Concat,
    ensures
        run(t, env, fuel, longer, at) == run(t, env, fuel, log, at),
    decreases fuel, t, 0nat,
{
    if run(*t->Concat_0, env, fuel, log, at) is Some {
        lemma_run_extends(*t->Concat_0, env, fuel, log, at, longer);
    }
    if let Some(a) = run(*t->Concat_0, env, fuel, log, at) {
        if run(*t->Concat_1, a.env, fuel, log, a.at) is Some {
            lemma_run_extends(*t->Concat_1, a.env, fuel, log, a.at, longer);
        }
    }
}

/// The law for arithmetic.
proof fn extends_arithmetic<F: Func>(
    t: Tree,
    env: Seq<Scope<F>>,
    fuel: nat,
    log: Seq<Event<F>>,
    at: nat,
    longer: Seq<Event<F>>,
)
    requires
        extends(longer, log),
        run(t, env, fuel, log, at) is Some,
        t is Arithmetic,
    ensures
        run(t, env, fuel, longer, at) == run(t, env, fuel, log, at),
    decreases fuel, t, 0nat,
{
    if run(*t->Arithmetic_1, env, fuel, log, at) is Some {
        lemma_run_extends(*t->Arithmetic_1, env, fuel, log, at, longer);
    }
    if let Some(a) = run(*t->Arithmetic_1, env, fuel, log, at) {
        if run(*t->Arithmetic_2, a.env, fuel, log, a.at) is Some {
            lemma_run_extends(*t->Arithmetic_2, a.env, fuel, log, a.at, longer);
        }
    }
}

/// The law for a comparison.
proof fn extends_compare<F: Func>(
    t: Tree,
    env: Seq<Scope<F>>,
    fuel: nat,
    log: Seq<Event<F>>,
    at: nat,
    longer: Seq<Event<F>>,
)
    requires
        extends(longer, log),
        run(t, env, fuel, log, at) is Some,
        t is Compare,
    ensures
        run(t, env, fuel, longer, at) == run(t, env, fuel, log, at),
    decreases fuel, t, 0nat,
{
    if run(*t->Compare_1, env, fuel, log, at) is Some {
        lemma_run_extends(*t->Compare_1, env, fuel, log, at, longer);
    }
    if let Some(a) = run(*t->Compare_1, env, fuel, log, at) {
        if run(*t->Compare_2, a.env, fuel, log, a.at) is Some {
            lemma_run_extends(*t->Compare_2, a.env, fuel, log, a.at, longer);
        }
    }
}

/// The law for an assignment.
proof fn extends_assign<F: Func>(
    t: Tree,
    env: Seq<Scope<F>>,
    fuel: nat,
    log: Seq<Event<F>>,
    at: nat,
    longer: Seq<Event<F>>,
)
    requires
        extends(longer, log),
        run(t, env, fuel, log, at) is Some,
        t is Assign,
    ensures
        run(t, env, fuel, longer, at) == run(t, env, fuel, log, at),
    decreases fuel, t, 0nat,
{
    if run(*t->Assign_1, env, fuel, log, at) is Some {
        lemma_run_extends(*t->Assign_1, env, fuel, log, at, longer);
    }
}

/// The law for an indexed assignment.
proof fn extends_index_assign<F: Func>(
    t: Tree,
    env: Seq<Scope<F>>,
    fuel: nat,
    log: Seq<Event<F>>,
    at: nat,
    longer: Seq<Event<F>>,
)
    requires
        extends(longer, log),
        run(t, env, fuel, log, at) is Some,
        t is IndexAssign,
    ensures
        run(t, env, fuel, longer, at) == run(t, env, fuel, log, at),
    decreases fuel, t, 0nat,
{
    if run(*t->IndexAssign_1, env, fuel, log, at) is Some {
        lemma_run_extends(*t->IndexAssign_1, env, fuel, log, at, longer);
    }
    if let Some(a) = run(*t->IndexAssign_1, env, fuel, log, at) {
        if run(*t->IndexAssign_2, a.env, fuel, log, a.at) is Some {
            lemma_run_extends(*t->IndexAssign_2, a.env, fuel, log, a.at, longer);
        }
    }
}

/// The law for a call.
proof fn extends_call<F: Func>(
    t: Tree,
    env: Seq<Scope<F>>,
    fuel: nat,
    log: Seq<Event<F>>,
    at: nat,
    longer: Seq<Event<F>>,
)
    requires
        extends(longer, log),
        run(t, env, fuel, log, at) is Some,
        t is Call,
    ensures
        run(t, env, fuel, longer, at) == run(t, env, fuel, log, at),
    decreases fuel, t, 0nat,
{
    let args = t->Call_1;
    if run_list(args, args.len(), env, fuel, log, at) is Some {
        lemma_list_extends(args, args.len(), env, fuel, log, at, longer);
    }
    if let Some(a) = run_list(args, args.len(), env, fuel, log, at) {
        if let Ok(values) = a.result {
            if let Some(Callee::User { params, body }) = lookup_func(env, t->Call_0) {
                if values.len() == params.len() && fuel > 0 {
                    let inside = entered(a.env, params, values);
                    if run(body, inside, (fuel - 1) as nat, log, a.at) is Some {
                        lemma_run_extends(body, inside, (fuel - 1) as nat, log, a.at, longer);
                    }
                }
            }
        }
    }
}

/// The law for a conditional.
proof fn extends_if<F: Func>(
    t: Tree,
    env: Seq<Scope<F>>,
    fuel: nat,
    log: Seq<Event<F>>,
    at: nat,
    longer: Seq<Event<F>>,
)
    requires
        extends(longer, log),
        run(t, env, fuel, log, at) is Some,
        t is If,
    ensures
        run(t, env, fuel, longer, at) == run(t, env, fuel, log, at),
    decreases fuel, t, 0nat,
{
    if run(*t->If_0, env, fuel, log, at) is Some {
        lemma_run_extends(*t->If_0, env, fuel, log, at, longer);
    }
    if let Some(a) = run(*t->If_0, env, fuel, log, at) {
        if run(*t->If_1, a.env, fuel, log, a.at) is Some {
            lemma_run_extends(*t->If_1, a.env, fuel, log, a.at, longer);
        }
    }
}

/// The law for a conditional on equality.
proof fn extends_if_eq<F: Func>(
    t: Tree,
    env: Seq<Scope<F>>,
    fuel: nat,
    log: Seq<Event<F>>,
    at: nat,
    longer: Seq<Event<F>>,
)
    requires
        extends(longer, log),
        run(t, env, fuel, log, at) is Some,
        t is IfEq,
    ensures
        run(t, env, fuel, longer, at) == run(t, env, fuel, log, at),
    decreases fuel, t, 0nat,
{
    if run(*t->IfEq_0, env, fuel, log, at) is Some {
        lemma_run_extends(*t->IfEq_0, env, fuel, log, at, longer);
    }
    if let Some(a) = run(*t->IfEq_0, env, fuel, log, at) {
        if run(*t->IfEq_1, a.env, fuel, log, a.at) is Some {
            lemma_run_extends(*t->IfEq_1, a.env, fuel, log, a.at, longer);
        }
        if let Some(b) = run(*t->IfEq_1, a.env, fuel, log, a.at) {
            if run(*t->IfEq_2, b.env, fuel, log, b.at) is Some {
                lemma_run_extends(*t->IfEq_2, b.env, fuel, log, b.at, longer);
            }
        }
    }
}

/// The law for a loop.
proof fn extends_for_in<F: Func>(
    t: Tree,
    env: Seq<Scope<F>>,
    fuel: nat,
    log: Seq<Event<F>>,
    at: nat,
    longer: Seq<Event<F>>,
)
    requires
        extends(longer, log),
        run(t, env, fuel, log, at) is Some,
        t is ForIn,
    ensures
        run(t, env, fuel, longer, at) == run(t, env, fuel, log, at),
    decreases fuel, t, 0nat,
{
    if run(*t->ForIn_1, env, fuel, log, at) is Some {
        lemma_run_extends(*t->ForIn_1, env, fuel, log, at, longer);
    }
    if let Some(a) = run(*t->ForIn_1, env, fuel, log, at) {
        if let Ok(items) = a.result {
            let inside = a.env.push(empty_scope());
            if run_loop(t->ForIn_0, items, items.len(), *t->ForIn_2, inside, deeper(fuel), log, a.at)
                is Some {
                lemma_loop_extends(
                    t->ForIn_0,
                    items,
                    items.len(),
                    *t->ForIn_2,
                    inside,
                    deeper(fuel),
                    log,
                    a.at,
                    longer,
                );
            }
        }
    }
}

/// The law for a block.
proof fn extends_block<F: Func>(
    t: Tree,
    env: Seq<Scope<F>>,
    fuel: nat,
    log: Seq<Event<F>>,
    at: nat,
    longer: Seq<Event<F>>,
)
    requires
        extends(longer, log),
        run(t, env, fuel, log, at) is Some,
        t is Block,
    ensures
        run(t, env, fuel, longer, at) == run(t, env, fuel, log, at),
    decreases fuel, t, 0nat,
{
    let items = t->Block_0;
    if run_list(items, items.len(), env, fuel, log, at) is Some {
        lemma_list_extends(items, items.len(), env, fuel, log, at, longer);
    }
}

/// The law for a statement.
proof fn extends_statement<F: Func>(
    t: Tree,
    env: Seq<Scope<F>>,
    fuel: nat,
    log: Seq<Event<F>>,
    at: nat,
    longer: Seq<Event<F>>,
)
    requires
        extends(longer, log),
        run(t, env, fuel, log, at) is Some,
        t is Statement,
    ensures
        run(t, env, fuel, longer, at) == run(t, env, fuel, log, at),
    decreases fuel, t, 0nat,
{
    if run(*t->Statement_0, env, fuel, log, at) is Some {
        lemma_run_extends(*t->Statement_0, env, fuel, log, at, longer);
    }
}

/// More entries at the end of the log change nothing of the evaluation of
/// a list that the log determines.
pub proof fn lemma_list_extends<F: Func>(
    items: Seq<Tree>,
    n: nat,
    env: Seq<Scope<F>>,
    fuel: nat,
    log: Seq<Event<F>>,
    at: nat,
    longer: Seq<Event<F>>,
)
    requires
        extends(longer, log),
        run_list(items, n, env, fuel, log, at) is Some,
    ensures
        run_list(items, n, env, fuel, longer, at) == run_list(items, n, env, fuel, log, at),
    decreases fuel, items, n,
{
    if n == 0 || n > items.len() {
    } else {
        lemma_list_extends(items, (n - 1) as nat, env, fuel, log, at, longer);
        if let Some(a) = run_list(items, (n - 1) as nat, env, fuel, log, at) {
            if a.result is Ok {
                lemma_run_extends(items[n - 1], a.env, fuel, log, a.at, longer);
            }
        }
    }
}

/// More entries at the end of the log change nothing of a loop that the
/// log determines.
pub proof fn lemma_loop_extends<F: Func>(
    name: Seq<char>,
    items: Seq<u32>,
    n: nat,
    body: Tree,
    env: Seq<Scope<F>>,
    fuel: nat,
    log: Seq<Event<F>>,
    at: nat,
    longer: Seq<Event<F>>,
)
    requires
        extends(longer, log),
        run_loop(name, items, n, body, env, fuel, log, at) is Some,
    ensures
        run_loop(name, items, n, body, env, fuel, longer, at) == run_loop(
            name,
            items,
            n,
            body,
            env,
            fuel,
            log,
            at,
        ),
    decreases fuel, body, n + 1,
{
    if n == 0 || n > items.len() {
    } else {
        lemma_loop_extends(name, items, (n - 1) as nat, body, env, fuel, log, at, longer);
        if let Some(a) = run_loop(name, items, (n - 1) as nat, body, env, fuel, log, at) {
            if a.result is Ok {
                lemma_run_extends(
                    body,
                    iteration(a.env, name, items, n - 1),
                    fuel,
                    log,
                    a.at,
                    longer,
                );
            }
        }
    }
}

} // verus!
