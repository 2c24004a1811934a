//! Laws of scoping: what an assignment inside a call or a loop does to the
//! bindings of the enclosing scopes.

use vstd::prelude::*;

use crate::ast::Tree;
use crate::env::{
    assign, declare, empty_scope, quiet, Event, lookup_func, lookup_var, var_layer, Callee, Func, Scope,
};
use crate::error::Fault;
use crate::semantics::{
    bind_params, deeper, entered, invoke, iteration, run, run_list, run_loop, Listed, Outcome,
};

verus! {

/// The innermost layer that binds a name lies within the stack, binds the
/// name, and no layer inside it does.
pub proof fn lemma_var_layer<F>(env: Seq<Scope<F>>, name: Seq<char>)
    ensures
        -1 <= var_layer(env, name) < env.len(),
        var_layer(env, name) >= 0 ==> env[var_layer(env, name)].vars.contains_key(name),
        forall|i: int| var_layer(env, name) < i < env.len() ==> !env[i].vars.contains_key(name),
    decreases env.len(),
{
    if env.len() > 0 && !env.last().vars.contains_key(name) {
        lemma_var_layer(env.drop_last(), name);
        assert forall|i: int| var_layer(env, name) < i < env.len() implies !env[i].vars.contains_key(
            name,
        ) by {
            if i < env.len() - 1 {
                assert(env.drop_last()[i] == env[i]);
            }
        }
    }
}

/// A layer that does not bind a name is transparent to the search for it.
pub proof fn lemma_var_layer_push<F>(env: Seq<Scope<F>>, inner: Scope<F>, name: Seq<char>)
    ensures
        inner.vars.contains_key(name) ==> var_layer(env.push(inner), name) == env.len(),
        !inner.vars.contains_key(name) ==> var_layer(env.push(inner), name) == var_layer(env, name),
{
    assert(env.push(inner).drop_last() == env);
}

/// After an assignment the name has the assigned value.
pub proof fn lemma_lookup_after_assign<F>(env: Seq<Scope<F>>, name: Seq<char>, value: Seq<u32>)
    requires
        env.len() > 0,
    ensures
        lookup_var(assign(env, name, value), name) == Some(value),
{
    lemma_var_layer(env, name);
    let after = assign(env, name, value);
    lemma_var_layer(after, name);
    let k = if var_layer(env, name) >= 0 {
        var_layer(env, name)
    } else {
        env.len() - 1
    };
    assert(after[k].vars.contains_key(name));
    assert forall|i: int| k < i < after.len() implies !after[i].vars.contains_key(name) by {
        assert(after[i] == env[i]);
    }
}

/// An assignment inside a scope that does not bind the name rebinds it in
/// the enclosing scope, where it is bound: the new value is there after the
/// inner scope is left.
pub proof fn lemma_assign_reaches_enclosing<F>(
    env: Seq<Scope<F>>,
    inner: Scope<F>,
    name: Seq<char>,
    value: Seq<u32>,
)
    requires
        lookup_var(env, name) is Some,
        !inner.vars.contains_key(name),
    ensures
        assign(env.push(inner), name, value) == assign(env, name, value).push(inner),
        lookup_var(assign(env.push(inner), name, value).drop_last(), name) == Some(value),
{
    lemma_var_layer(env, name);
    lemma_var_layer_push(env, inner, name);
    assert(assign(env.push(inner), name, value) =~= assign(env, name, value).push(inner));
    assert(assign(env, name, value).push(inner).drop_last() == assign(env, name, value));
    lemma_lookup_after_assign(env, name, value);
}

/// An assignment inside a scope that binds the name stays in that scope:
/// the enclosing scopes are as before after the inner scope is left.
pub proof fn lemma_assign_stays_inside<F>(
    env: Seq<Scope<F>>,
    inner: Scope<F>,
    name: Seq<char>,
    value: Seq<u32>,
)
    requires
        inner.vars.contains_key(name),
    ensures
        assign(env.push(inner), name, value).drop_last() == env,
{
    lemma_var_layer_push(env, inner, name);
    assert(assign(env.push(inner), name, value).drop_last() =~= env);
}

/// A declaration is local to the innermost scope: the enclosing scopes are
/// as before after that scope is left.
pub proof fn lemma_declare_is_local<F>(
    env: Seq<Scope<F>>,
    inner: Scope<F>,
    name: Seq<char>,
    value: Seq<u32>,
)
    ensures
        declare(env.push(inner), name, value).drop_last() == env,
        lookup_var(declare(env.push(inner), name, value), name) == Some(value),
{
    let after = declare(env.push(inner), name, value);
    assert(after.drop_last() =~= env);
    assert(after.last().vars.contains_key(name));
}

/// Entering a scope and leaving it again changes nothing.
pub proof fn lemma_enter_leave<F>(env: Seq<Scope<F>>)
    ensures
        env.push(empty_scope()).drop_last() == env,
        forall|name: Seq<char>| lookup_var(env.push(empty_scope()), name) == lookup_var(env, name),
{
    assert(env.push(empty_scope()).drop_last() =~= env);
    assert forall|name: Seq<char>| lookup_var(env.push(empty_scope::<F>()), name) == lookup_var(
        env,
        name,
    ) by {
        lemma_var_layer_push(env, empty_scope::<F>(), name);
        lemma_var_layer(env, name);
    }
}

/// Layer `j` binds `p` and lies inside layer `k`: it shadows what layer
/// `k` holds for `p`.
pub open spec fn shadowed<F>(env: Seq<Scope<F>>, k: int, j: int, p: Seq<char>) -> bool {
    0 <= k < j < env.len() && env[j].vars.contains_key(p)
}

/// From `before` to `after` the stack kept its depth, layer `j` still
/// binds `p`, and layer `k` holds for `p` what it held.
pub open spec fn kept<F>(before: Seq<Scope<F>>, after: Seq<Scope<F>>, k: int, j: int, p: Seq<char>) -> bool {
    &&& after.len() == before.len()
    &&& after[j].vars.contains_key(p)
    &&& after[k].vars.contains_key(p) == before[k].vars.contains_key(p)
    &&& before[k].vars.contains_key(p) ==> after[k].vars[p] == before[k].vars[p]
}

/// An assignment does not reach a shadowed binding.
pub proof fn lemma_assign_kept<F>(
    env: Seq<Scope<F>>,
    name: Seq<char>,
    value: Seq<u32>,
    k: int,
    j: int,
    p: Seq<char>,
)
    requires
        shadowed(env, k, j, p),
    ensures
        kept(env, assign(env, name, value), k, j, p),
{
    lemma_var_layer(env, name);
}

/// Binding the parameters changes the innermost layer only.
pub proof fn lemma_bind_params<F>(
    env: Seq<Scope<F>>,
    params: Seq<Seq<char>>,
    args: Seq<Seq<u32>>,
    n: nat,
)
    requires
        env.len() > 0,
        n <= params.len(),
    ensures
        bind_params(env, params, args, n).len() == env.len(),
        forall|i: int| 0 <= i < env.len() - 1 ==> bind_params(env, params, args, n)[i] == env[i],
        forall|i: int|
            0 <= i < n ==> bind_params(env, params, args, n).last().vars.contains_key(params[i]),
    decreases n,
{
    if n > 0 {
        lemma_bind_params(env, params, args, (n - 1) as nat);
    }
}

/// Evaluation does not reach a shadowed binding: whatever a tree does, a
/// layer keeps what it holds for a name that a layer inside it binds,
/// provided that the user's functions that it calls leave the bindings as
/// they are.
pub proof fn lemma_shadowed_run<F: Func>(
    t: Tree,
    env: Seq<Scope<F>>,
    fuel: nat,
    k: int,
    j: int,
    p: Seq<char>,
    log: Seq<Event<F>>,
    at: nat,
)
    requires
        shadowed(env, k, j, p),
        quiet(log),
    ensures
        run(t, env, fuel, log, at) matches Some(o) ==> kept(env, o.env, k, j, p),
    decreases fuel, t, 1nat,
{
    match t {
        Tree::Literal(_) => shadowed_plain(t, env, fuel, k, j, p, log, at),
        Tree::Var(_) => shadowed_plain(t, env, fuel, k, j, p, log, at),
        Tree::Declare(_) => shadowed_plain(t, env, fuel, k, j, p, log, at),
        Tree::Define(_, _, _) => shadowed_plain(t, env, fuel, k, j, p, log, at),
        Tree::Index(_, _) => shadowed_index(t, env, fuel, k, j, p, log, at),
        Tree::Concat(_, _) => shadowed_concat(t, env, fuel, k, j, p, log, at),
        Tree::Arithmetic(_, _, _) => shadowed_arithmetic(t, env, fuel, k, j, p, log, at),
        Tree::Compare(_, _, _) => shadowed_compare(t, env, fuel, k, j, p, log, at),
        Tree::Assign(_, _) => shadowed_assign(t, env, fuel, k, j, p, log, at),
        Tree::IndexAssign(_, _, _) => shadowed_index_assign(t, env, fuel, k, j, p, log, at),
        Tree::Call(_, _) => shadowed_call(t, env, fuel, k, j, p, log, at),
        Tree::If(_, _) => shadowed_if(t, env, fuel, k, j, p, log, at),
        Tree::IfEq(_, _, _) => shadowed_if_eq(t, env, fuel, k, j, p, log, at),
        Tree::ForIn(_, _, _) => shadowed_for_in(t, env, fuel, k, j, p, log, at),
        Tree::Block(_) => shadowed_block(t, env, fuel, k, j, p, log, at),
        Tree::Statement(_) => shadowed_statement(t, env, fuel, k, j, p, log, at),
    }
}

/// The law for a tree without parts that are evaluated.
proof fn shadowed_plain<F: Func>(
    t: Tree,
    env: Seq<Scope<F>>,
    fuel: nat,
    k: int,
    j: int,
    p: Seq<char>,
    log: Seq<Event<F>>,
    at: nat,
)
    requires
        shadowed(env, k, j, p),
        quiet(log),
        t is Literal || t is Var || t is Declare || t is Define,
    ensures
        run(t, env, fuel, log, at) matches Some(o) ==> kept(env, o.env, k, j, p),
    decreases fuel, t, 0nat,
{
}

/// The law for an indexed read.
proof fn shadowed_index<F: Func>(
    t: Tree,
    env: Seq<Scope<F>>,
    fuel: nat,
    k: int,
    j: int,
    p: Seq<char>,
    log: Seq<Event<F>>,
    at: nat,
)
    requires
        shadowed(env, k, j, p),
        quiet(log),
        t is Index,
    ensures
        run(t, env, fuel, log, at) matches Some(o) ==> kept(env, o.env, k, j, p),
    decreases fuel, t, 0nat,
{
    lemma_shadowed_run(*t->Index_1, env, fuel, k, j, p, log, at);
}

/// The law for a concatenation.
proof fn shadowed_concat<F: Func>(
    t: Tree,
    env: Seq<Scope<F>>,
    fuel: nat,
    k: int,
    j: int,
    p: Seq<char>,
    log: Seq<Event<F>>,
    at: nat,
)
    requires
        shadowed(env, k, j, p),
        quiet(log),
        t is Concat,
    ensures
        run(t, env, fuel, log, at) matches Some(o) ==> kept(env, o.env, k, j, p),
    decreases fuel, t, 0nat,
{
    lemma_shadowed_run(*t->Concat_0, env, fuel, k, j, p, log, at);
    if let Some(a) = run(*t->Concat_0, env, fuel, log, at) {
        if a.result is Ok {
            lemma_shadowed_run(*t->Concat_1, a.env, fuel, k, j, p, log, a.at);
        }
    }
}

/// The law for arithmetic.
proof fn shadowed_arithmetic<F: Func>(
    t: Tree,
    env: Seq<Scope<F>>,
    fuel: nat,
    k: int,
    j: int,
    p: Seq<char>,
    log: Seq<Event<F>>,
    at: nat,
)
    requires
        shadowed(env, k, j, p),
        quiet(log),
        t is Arithmetic,
    ensures
        run(t, env, fuel, log, at) matches Some(o) ==> kept(env, o.env, k, j, p),
    decreases fuel, t, 0nat,
{
    lemma_shadowed_run(*t->Arithmetic_1, env, fuel, k, j, p, log, at);
    if let Some(a) = run(*t->Arithmetic_1, env, fuel, log, at) {
        if a.result is Ok {
            lemma_shadowed_run(*t->Arithmetic_2, a.env, fuel, k, j, p, log, a.at);
        }
    }
}

/// The law for a comparison.
proof fn shadowed_compare<F: Func>(
    t: Tree,
    env: Seq<Scope<F>>,
    fuel: nat,
    k: int,
    j: int,
    p: Seq<char>,
    log: Seq<Event<F>>,
    at: nat,
)
    requires
        shadowed(env, k, j, p),
        quiet(log),
        t is Compare,
    ensures
        run(t, env, fuel, log, at) matches Some(o) ==> kept(env, o.env, k, j, p),
    decreases fuel, t, 0nat,
{
    lemma_shadowed_run(*t->Compare_1, env, fuel, k, j, p, log, at);
    if let Some(a) = run(*t->Compare_1, env, fuel, log, at) {
        if a.result is Ok {
            lemma_shadowed_run(*t->Compare_2, a.env, fuel, k, j, p, log, a.at);
        }
    }
}

/// The law for an assignment.
proof fn shadowed_assign<F: Func>(
    t: Tree,
    env: Seq<Scope<F>>,
    fuel: nat,
    k: int,
    j: int,
    p: Seq<char>,
    log: Seq<Event<F>>,
    at: nat,
)
    requires
        shadowed(env, k, j, p),
        quiet(log),
        t is Assign,
    ensures
        run(t, env, fuel, log, at) matches Some(o) ==> kept(env, o.env, k, j, p),
    decreases fuel, t, 0nat,
{
    lemma_shadowed_run(*t->Assign_1, env, fuel, k, j, p, log, at);
    if let Some(a) = run(*t->Assign_1, env, fuel, log, at) {
        if let Ok(v) = a.result {
            lemma_assign_kept(a.env, t->Assign_0, v, k, j, p);
        }
    }
}

/// The law for an indexed assignment.
proof fn shadowed_index_assign<F: Func>(
    t: Tree,
    env: Seq<Scope<F>>,
    fuel: nat,
    k: int,
    j: int,
    p: Seq<char>,
    log: Seq<Event<F>>,
    at: nat,
)
    requires
        shadowed(env, k, j, p),
        quiet(log),
        t is IndexAssign,
    ensures
        run(t, env, fuel, log, at) matches Some(o) ==> kept(env, o.env, k, j, p),
    decreases fuel, t, 0nat,
{
    lemma_shadowed_run(*t->IndexAssign_1, env, fuel, k, j, p, log, at);
    if let Some(a) = run(*t->IndexAssign_1, env, fuel, log, at) {
        if a.result is Ok {
            lemma_shadowed_run(*t->IndexAssign_2, a.env, fuel, k, j, p, log, a.at);
            if let Some(b) = run(*t->IndexAssign_2, a.env, fuel, log, a.at) {
                assert forall|w: Seq<u32>|
                    kept(b.env, #[trigger] assign(b.env, t->IndexAssign_0, w), k, j, p) by {
                    lemma_assign_kept(b.env, t->IndexAssign_0, w, k, j, p);
                }
            }
        }
    }
}

/// The law for a call.
proof fn shadowed_call<F: Func>(
    t: Tree,
    env: Seq<Scope<F>>,
    fuel: nat,
    k: int,
    j: int,
    p: Seq<char>,
    log: Seq<Event<F>>,
    at: nat,
)
    requires
        shadowed(env, k, j, p),
        quiet(log),
        t is Call,
    ensures
        run(t, env, fuel, log, at) matches Some(o) ==> kept(env, o.env, k, j, p),
    decreases fuel, t, 0nat,
{
    let args = t->Call_1;
    lemma_shadowed_list(args, args.len(), env, fuel, k, j, p, log, at);
    if let Some(a) = run_list(args, args.len(), env, fuel, log, at) {
        if let Ok(values) = a.result {
            if let Some(Callee::User { params, body }) = lookup_func(env, t->Call_0) {
                if values.len() == params.len() && fuel > 0 {
                    let inside = entered(a.env, params, values);
                    lemma_bind_params(a.env.push(empty_scope()), params, values, params.len());
                    assert(inside[j] == a.env.push(empty_scope())[j]);
                    assert(inside[k] == a.env.push(empty_scope())[k]);
                    lemma_shadowed_run(body, inside, (fuel - 1) as nat, k, j, p, log, a.at);
                }
            }
        }
    }
}

/// The law for a conditional.
proof fn shadowed_if<F: Func>(
    t: Tree,
    env: Seq<Scope<F>>,
    fuel: nat,
    k: int,
    j: int,
    p: Seq<char>,
    log: Seq<Event<F>>,
    at: nat,
)
    requires
        shadowed(env, k, j, p),
        quiet(log),
        t is If,
    ensures
        run(t, env, fuel, log, at) matches Some(o) ==> kept(env, o.env, k, j, p),
    decreases fuel, t, 0nat,
{
    lemma_shadowed_run(*t->If_0, env, fuel, k, j, p, log, at);
    if let Some(a) = run(*t->If_0, env, fuel, log, at) {
        if a.result is Ok {
            lemma_shadowed_run(*t->If_1, a.env, fuel, k, j, p, log, a.at);
        }
    }
}

/// The law for a conditional on equality.
proof fn shadowed_if_eq<F: Func>(
    t: Tree,
    env: Seq<Scope<F>>,
    fuel: nat,
    k: int,
    j: int,
    p: Seq<char>,
    log: Seq<Event<F>>,
    at: nat,
)
    requires
        shadowed(env, k, j, p),
        quiet(log),
        t is IfEq,
    ensures
        run(t, env, fuel, log, at) matches Some(o) ==> kept(env, o.env, k, j, p),
    decreases fuel, t, 0nat,
{
    lemma_shadowed_run(*t->IfEq_0, env, fuel, k, j, p, log, at);
    if let Some(a) = run(*t->IfEq_0, env, fuel, log, at) {
        if a.result is Ok {
            lemma_shadowed_run(*t->IfEq_1, a.env, fuel, k, j, p, log, a.at);
            if let Some(b) = run(*t->IfEq_1, a.env, fuel, log, a.at) {
                if b.result is Ok {
                    lemma_shadowed_run(*t->IfEq_2, b.env, fuel, k, j, p, log, b.at);
                }
            }
        }
    }
}

/// The law for a loop.
proof fn shadowed_for_in<F: Func>(
    t: Tree,
    env: Seq<Scope<F>>,
    fuel: nat,
    k: int,
    j: int,
    p: Seq<char>,
    log: Seq<Event<F>>,
    at: nat,
)
    requires
        shadowed(env, k, j, p),
        quiet(log),
        t is ForIn,
    ensures
        run(t, env, fuel, log, at) matches Some(o) ==> kept(env, o.env, k, j, p),
    decreases fuel, t, 0nat,
{
    lemma_shadowed_run(*t->ForIn_1, env, fuel, k, j, p, log, at);
    if let Some(a) = run(*t->ForIn_1, env, fuel, log, at) {
        if let Ok(items) = a.result {
            lemma_shadowed_loop(
                t->ForIn_0,
                items,
                items.len(),
                *t->ForIn_2,
                a.env.push(empty_scope()),
                deeper(fuel),
                k,
                j,
                p, log, a.at,
            );
        }
    }
}

/// The law for a block.
proof fn shadowed_block<F: Func>(
    t: Tree,
    env: Seq<Scope<F>>,
    fuel: nat,
    k: int,
    j: int,
    p: Seq<char>,
    log: Seq<Event<F>>,
    at: nat,
)
    requires
        shadowed(env, k, j, p),
        quiet(log),
        t is Block,
    ensures
        run(t, env, fuel, log, at) matches Some(o) ==> kept(env, o.env, k, j, p),
    decreases fuel, t, 0nat,
{
    lemma_shadowed_list(t->Block_0, t->Block_0.len(), env, fuel, k, j, p, log, at);
}

/// The law for a statement.
proof fn shadowed_statement<F: Func>(
    t: Tree,
    env: Seq<Scope<F>>,
    fuel: nat,
    k: int,
    j: int,
    p: Seq<char>,
    log: Seq<Event<F>>,
    at: nat,
)
    requires
        shadowed(env, k, j, p),
        quiet(log),
        t is Statement,
    ensures
        run(t, env, fuel, log, at) matches Some(o) ==> kept(env, o.env, k, j, p),
    decreases fuel, t, 0nat,
{
    lemma_shadowed_run(*t->Statement_0, env, fuel, k, j, p, log, at);
}

/// A list of trees, evaluated in order, does not reach a shadowed binding.
pub proof fn lemma_shadowed_list<F: Func>(
    items: Seq<Tree>,
    n: nat,
    env: Seq<Scope<F>>,
    fuel: nat,
    k: int,
    j: int,
    p: Seq<char>,
    log: Seq<Event<F>>,
    at: nat,
)
    requires
        shadowed(env, k, j, p),
        quiet(log),
    ensures
        run_list(items, n, env, fuel, log, at) matches Some(o) ==> kept(env, o.env, k, j, p),
    decreases fuel, items, n,
{
    if n == 0 || n > items.len() {
    } else {
        lemma_shadowed_list(items, (n - 1) as nat, env, fuel, k, j, p, log, at);
        if let Some(a) = run_list(items, (n - 1) as nat, env, fuel, log, at) {
            if a.result is Ok {
                lemma_shadowed_run(items[n - 1], a.env, fuel, k, j, p, log, a.at);
            }
        }
    }
}

/// The iterations of a loop do not reach a shadowed binding.
pub proof fn lemma_shadowed_loop<F: Func>(
    name: Seq<char>,
    items: Seq<u32>,
    n: nat,
    body: Tree,
    env: Seq<Scope<F>>,
    fuel: nat,
    k: int,
    j: int,
    p: Seq<char>,
    log: Seq<Event<F>>,
    at: nat,
)
    requires
        shadowed(env, k, j, p),
        quiet(log),
    ensures
        run_loop(name, items, n, body, env, fuel, log, at) matches Some(o) ==> kept(env, o.env, k, j, p),
    decreases fuel, body, n + 1,
{
    if n == 0 || n > items.len() {
    } else {
        lemma_shadowed_loop(name, items, (n - 1) as nat, body, env, fuel, k, j, p, log, at);
        if let Some(a) = run_loop(name, items, (n - 1) as nat, body, env, fuel, log, at) {
            if a.result is Ok {
                lemma_assign_kept(a.env, name, seq![items[n - 1]], k, j, p);
                lemma_shadowed_run(body, iteration(a.env, name, items, n - 1), fuel, k, j, p, log, a.at);
            }
        }
    }
}

/// The value of a name depends only on which layers bind it, and to what.
pub proof fn lemma_lookup_agrees<F>(a: Seq<Scope<F>>, b: Seq<Scope<F>>, p: Seq<char>)
    requires
        a.len() == b.len(),
        forall|i: int|
            0 <= i < a.len() ==> a[i].vars.contains_key(p) == b[i].vars.contains_key(p) && (
            a[i].vars.contains_key(p) ==> a[i].vars[p] == b[i].vars[p]),
    ensures
        lookup_var(a, p) == lookup_var(b, p),
        var_layer(a, p) == var_layer(b, p),
    decreases a.len(),
{
    if a.len() > 0 {
        assert(a.last() == a[a.len() - 1]);
        assert(b.last() == b[b.len() - 1]);
        if !a.last().vars.contains_key(p) {
            assert forall|i: int| 0 <= i < a.drop_last().len() implies a.drop_last()[i].vars.contains_key(
                p,
            ) == b.drop_last()[i].vars.contains_key(p) && (a.drop_last()[i].vars.contains_key(p)
                ==> a.drop_last()[i].vars[p] == b.drop_last()[i].vars[p]) by {
                assert(a.drop_last()[i] == a[i]);
                assert(b.drop_last()[i] == b[i]);
            }
            lemma_lookup_agrees(a.drop_last(), b.drop_last(), p);
            lemma_var_layer(a.drop_last(), p);
            lemma_var_layer(b.drop_last(), p);
            let k = var_layer(a.drop_last(), p);
            if k >= 0 {
                assert(a.drop_last()[k] == a[k]);
                assert(b.drop_last()[k] == b[k]);
            }
        }
    }
}

/// A parameter shadows the enclosing binding of its name: after the call
/// the name has the value again that it had before, whatever the body of
/// the function did, provided that the user's functions that it called
/// left the bindings as they were.
pub proof fn lemma_parameter_is_restored<F: Func>(
    params: Seq<Seq<char>>,
    body: Tree,
    args: Seq<Seq<u32>>,
    env: Seq<Scope<F>>,
    fuel: nat,
    p: Seq<char>,
    log: Seq<Event<F>>,
    at: nat,
)
    requires
        env.len() > 0,
        params.contains(p),
        quiet(log),
    ensures
        invoke(params, body, args, env, fuel, log, at) matches Some(o) ==> o.env.len() == env.len()
            && lookup_var(o.env, p) == lookup_var(env, p),
{
    if args.len() == params.len() && fuel > 0 {
        let inside = entered(env, params, args);
        let j = env.len() as int;
        lemma_bind_params(env.push(empty_scope()), params, args, params.len());
        let i = choose|i: int| 0 <= i < params.len() && params[i] == p;
        assert(inside.last().vars.contains_key(params[i]));
        assert(inside.last() == inside[j]);
        if let Some(inner) = run(body, inside, (fuel - 1) as nat, log, at) {
            let after = inner.env.drop_last();
            assert forall|k: int| 0 <= k < env.len() implies after[k].vars.contains_key(p)
                == env[k].vars.contains_key(p) && (after[k].vars.contains_key(p) ==> after[k].vars[p]
                == env[k].vars[p]) by {
                assert(inside[k] == env.push(empty_scope())[k]);
                lemma_shadowed_run(body, inside, (fuel - 1) as nat, k, j, p, log, at);
                assert(after[k] == inner.env[k]);
            }
            lemma_shadowed_run(body, inside, (fuel - 1) as nat, 0, j, p, log, at);
            lemma_lookup_agrees(after, env, p);
        }
    }
}

/// More trees behind a list change nothing of what the list's first trees
/// do.
pub proof fn lemma_list_prefix<F: Func>(
    items: Seq<Tree>,
    extra: Tree,
    n: nat,
    env: Seq<Scope<F>>,
    fuel: nat,
    log: Seq<Event<F>>,
    at: nat,
)
    requires
        n <= items.len(),
    ensures
        run_list(items.push(extra), n, env, fuel, log, at) == run_list(items, n, env, fuel, log, at),
    decreases n,
{
    if n > 0 {
        lemma_list_prefix(items, extra, (n - 1) as nat, env, fuel, log, at);
        assert(items.push(extra)[n - 1] == items[n - 1]);
    }
}

/// A body that ends with the assignment `g = e`, behind the statements
/// `before`.
pub open spec fn assigning_body(before: Seq<Tree>, g: Seq<char>, e: Tree) -> Tree {
    Tree::Block(before.push(Tree::Statement(Box::new(Tree::Assign(g, Box::new(e))))))
}

/// A function whose body ends with an assignment to a name of an enclosing
/// scope rebinds the enclosing name: where the statements before it and the
/// assigned expression succeed, and the scope of the call does not bind the
/// name while an enclosing scope does, the call leaves the environment that
/// the assignment would have left in the enclosing scopes, and the name has
/// the assigned value after the call.
pub proof fn lemma_call_assigns_enclosing<F: Func>(
    params: Seq<Seq<char>>,
    args: Seq<Seq<u32>>,
    env: Seq<Scope<F>>,
    fuel: nat,
    before: Seq<Tree>,
    g: Seq<char>,
    e: Tree,
    a: Listed<F>,
    b: Outcome<F>,
    w: Seq<u32>,
    log: Seq<Event<F>>,
    at: nat,
)
    requires
        fuel > 0,
        args.len() == params.len(),
        run_list(before, before.len(), entered(env, params, args), (fuel - 1) as nat, log, at) == Some(a),
        a.result is Ok,
        run(e, a.env, (fuel - 1) as nat, log, a.at) == Some(b),
        b.result == Ok::<Seq<u32>, Fault>(w),
        b.env.len() >= 2,
        !b.env.last().vars.contains_key(g),
        lookup_var(b.env.drop_last(), g) is Some,
    ensures
        invoke(params, assigning_body(before, g, e), args, env, fuel, log, at) == Some(
            Outcome { env: assign(b.env.drop_last(), g, w), result: Ok::<Seq<u32>, Fault>(w), at: b.at },
        ),
        lookup_var(assign(b.env.drop_last(), g, w), g) == Some(w),
{
    let inside = entered(env, params, args);
    let f = (fuel - 1) as nat;
    let assignment = Tree::Assign(g, Box::new(e));
    let statement = Tree::Statement(Box::new(assignment));
    let items = before.push(statement);
    let n = before.len();
    let outer = b.env.drop_last();
    let inner = b.env.last();
    assert(b.env =~= outer.push(inner));
    lemma_assign_reaches_enclosing(outer, inner, g, w);
    lemma_lookup_after_assign(outer, g, w);
    assert(assign(outer, g, w).push(inner).drop_last() == assign(outer, g, w));

    lemma_list_prefix(before, statement, n, inside, f, log, at);
    assert(items[n as int] == statement);
    assert(run(assignment, a.env, f, log, a.at) == Some(
        Outcome { env: assign(b.env, g, w), result: Ok::<Seq<u32>, Fault>(w), at: b.at },
    ));
    assert(run(statement, a.env, f, log, a.at) == run(assignment, a.env, f, log, a.at));
    let values = a.result->Ok_0;
    assert(run_list(items, (n + 1) as nat, inside, f, log, at) == Some(
        Listed { env: assign(b.env, g, w), result: Ok::<Seq<Seq<u32>>, Fault>(values.push(w)), at: b.at },
    ));
    assert(values.push(w).last() == w);
    assert(items.len() == n + 1);
    assert(run(assigning_body(before, g, e), inside, f, log, at) == Some(
        Outcome { env: assign(b.env, g, w), result: Ok::<Seq<u32>, Fault>(w), at: b.at },
    ));
}

/// During iteration `k` of a loop the loop variable holds element `k`, as
/// a value of one element.
pub proof fn lemma_loop_sees_element<F>(
    env: Seq<Scope<F>>,
    name: Seq<char>,
    items: Seq<u32>,
    k: int,
)
    requires
        env.len() > 0,
        0 <= k < items.len(),
    ensures
        lookup_var(iteration(env, name, items, k), name) == Some(seq![items[k]]),
{
    if k == 0 {
        let after = iteration(env, name, items, k);
        assert(after.last().vars.contains_key(name));
    } else {
        lemma_lookup_after_assign(env, name, seq![items[k]]);
    }
}

} // verus!
