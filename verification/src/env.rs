//! The environment: a stack of scope layers that bind variables and
//! functions, innermost layer last.

use vstd::prelude::*;

use crate::ast::{duplicate_names, names, Node, Tree, AST};
use crate::def::Builtin;
use crate::semantics::{bind_params, budget, invoke, Outcome};
use crate::error::{outcome_of, Fault, HeError, HeResult};
use crate::table::Table;
use crate::value::Value;

verus! {

/// The number of layers of the scope stack fits the machine word: a call
/// that would push one layer more fails instead. Short of that, only the
/// host's stack bounds the depth of calls.
pub const MAX_DEPTH: usize = usize::MAX;

/// The model of a function that a name is bound to.
pub enum Callee<F> {
    /// A function defined in the language: parameter names and body.
    User { params: Seq<Seq<char>>, body: Tree },
    /// A function of the library that computes on values alone.
    Builtin(Builtin),
    /// A function supplied from outside the language.
    Native(F),
}

/// The model of one scope layer.
pub struct Scope<F> {
    pub vars: Map<Seq<char>, Seq<u32>>,
    pub funcs: Map<Seq<char>, Callee<F>>,
}

/// One call of a user's function whose arguments do not tell its result:
/// what was handed to it, and what came back.
pub struct Event<F> {
    /// The function that was called.
    pub func: F,
    /// The arguments that it was called with.
    pub args: Seq<Seq<u32>>,
    /// The environment that it was called in.
    pub before: Seq<Scope<F>>,
    /// What it returned.
    pub result: Result<Seq<u32>, Fault>,
    /// The environment that it left.
    pub after: Seq<Scope<F>>,
}

/// `longer` starts with the entries of `log`.
pub open spec fn extends<F>(longer: Seq<Event<F>>, log: Seq<Event<F>>) -> bool {
    log.len() <= longer.len() && forall|i: int| 0 <= i < log.len() ==> longer[i] == log[i]
}

/// Every call of the log left the bindings as they were.
pub open spec fn quiet<F>(log: Seq<Event<F>>) -> bool {
    forall|i: int| 0 <= i < log.len() ==> (#[trigger] log[i]).after == log[i].before
}

/// The elements of each value of a list.
pub open spec fn values_of(args: Seq<Value>) -> Seq<Seq<u32>> {
    Seq::new(args.len(), |i: int| args[i]@)
}

/// A function that the library's user supplies.
pub trait Func: Sized {
    /// What a call on `args` returns, where that depends on the arguments
    /// alone; `None` where it depends on anything else. Unless a function
    /// says otherwise, nothing is known of what it returns.
    open spec fn outcome(&self, args: Seq<Seq<u32>>) -> Option<Result<Seq<u32>, Fault>> {
        None
    }

    /// Calls the function. It keeps the environment well formed and the
    /// scope stack at its depth, and does not evaluate anything of the
    /// language in it (the log of the environment stays). Where `outcome`
    /// tells the result, it returns that result and leaves the bindings as
    /// they are.
    fn call(&self, args: &[Value], env: &mut HeEnv<Self>) -> (r: HeResult)
        requires
            old(env).wf(),
        ensures
            final(env).wf(),
            final(env)@.len() == old(env)@.len(),
            final(env).log() == old(env).log(),
            self.outcome(values_of(args@)) matches Some(o) ==> outcome_of(r) == o && final(env)@
                == old(env)@,
    ;

    /// A copy of the function.
    fn duplicate(&self) -> (r: Self)
        ensures
            r == *self,
    ;
}

/// A function defined in the language.
#[derive(Debug)]
pub struct UserFunc {
    pub args_name: Vec<String>,
    pub body: Box<Node>,
}

impl UserFunc {
    pub fn new(args_name: Vec<String>, body: Box<Node>) -> (r: Self)
        ensures
            names(r.args_name@) == names(args_name@),
            r.body.model() == body.model(),
    {
        Self { args_name, body }
    }

    /// A deep copy.
    pub fn duplicate(&self) -> (r: Self)
        ensures
            names(r.args_name@) == names(self.args_name@),
            r.body.model() == self.body.model(),
    {
        Self { args_name: duplicate_names(&self.args_name), body: Box::new(self.body.duplicate()) }
    }
}

impl UserFunc {
    /// Calls the function: a new scope layer binds each parameter to its
    /// argument, the body is evaluated, and the layer is popped again,
    /// whatever the result.
    #[verifier::loop_isolation(false)]
    pub fn call<F: Func>(&self, args: &[Value], env: &mut HeEnv<F>) -> (r: HeResult)
        requires
            old(env).wf(),
        ensures
            final(env).wf(),
            final(env)@.len() == old(env)@.len(),
            extends(final(env).log(), old(env).log()),
            invoke(
                names(self.args_name@),
                self.body.model(),
                values_of(args@),
                old(env)@,
                budget(old(env)@.len()),
                final(env).log(),
                old(env).log().len(),
            ) == Some(
                Outcome { env: final(env)@, result: outcome_of(r), at: final(env).log().len() },
            ),
        decreases budget(old(env)@.len()), 0nat, self,
    {
        if args.len() != self.args_name.len() {
            return Err(
                HeError::ArityMismatch { expected: self.args_name.len(), got: args.len() },
            );
        }
        if env.depth() >= MAX_DEPTH {
            return Err(HeError::DepthExceeded);
        }
        env.enter();
        let ghost start = env@;
        let mut i: usize = 0;
        while i < args.len()
            invariant
                i <= args.len(),
                args.len() == self.args_name.len(),
                env.wf(),
                env@.len() == start.len(),
                env.log() == old(env).log(),
                env@ == bind_params(start, names(self.args_name@), values_of(args@), i as nat),
            decreases args.len() - i,
        {
            let _ = env.set_var_last(self.args_name[i].clone(), args[i].duplicate());
            i += 1;
        }
        let r = self.body.eval(env);
        env.leave();
        r
    }
}

/// What a function name is bound to.
#[derive(Debug)]
pub enum Function<F> {
    /// A function defined in the language.
    User(UserFunc),
    /// A function of the library that computes on values alone.
    Builtin(Builtin),
    /// A function that the library's user supplies.
    Native(F),
}

impl<F> View for Function<F> {
    type V = Callee<F>;

    open spec fn view(&self) -> Callee<F> {
        match self {
            Function::User(u) => Callee::User {
                params: names(u.args_name@),
                body: u.body.model(),
            },
            Function::Builtin(b) => Callee::Builtin(*b),
            Function::Native(f) => Callee::Native(*f),
        }
    }
}

impl<F: Func> Function<F> {
    /// A copy of the function.
    pub fn duplicate(&self) -> (r: Self)
        ensures
            r@ == self@,
    {
        match self {
            Function::User(u) => Function::User(u.duplicate()),
            Function::Builtin(b) => Function::Builtin(*b),
            Function::Native(f) => Function::Native(f.duplicate()),
        }
    }
}

/// One scope layer.
pub struct HeEnvLayer<F> {
    vars: Table<Value>,
    funcs: Table<Function<F>>,
}

impl<F> View for HeEnvLayer<F> {
    type V = Scope<F>;

    closed spec fn view(&self) -> Scope<F> {
        Scope { vars: self.vars.dict(), funcs: self.funcs.dict() }
    }
}

impl<F> HeEnvLayer<F> {
    /// No name is bound twice.
    pub closed spec fn wf(&self) -> bool {
        self.vars.wf() && self.funcs.wf()
    }

    /// A layer without bindings.
    pub fn new() -> (r: Self)
        ensures
            r.wf(),
            r@ == empty_scope::<F>(),
    {
        Self { vars: Table::new(), funcs: Table::new() }
    }
}

/// The layer without bindings.
pub open spec fn empty_scope<F>() -> Scope<F> {
    Scope { vars: Map::empty(), funcs: Map::empty() }
}

/// The innermost layer of `env` that binds the variable `name`, or -1.
pub open spec fn var_layer<F>(env: Seq<Scope<F>>, name: Seq<char>) -> int
    decreases env.len(),
{
    if env.len() == 0 {
        -1
    } else if env.last().vars.contains_key(name) {
        env.len() - 1
    } else {
        var_layer(env.drop_last(), name)
    }
}

/// The innermost layer of `env` that binds the function `name`, or -1.
pub open spec fn func_layer<F>(env: Seq<Scope<F>>, name: Seq<char>) -> int
    decreases env.len(),
{
    if env.len() == 0 {
        -1
    } else if env.last().funcs.contains_key(name) {
        env.len() - 1
    } else {
        func_layer(env.drop_last(), name)
    }
}

/// The value of the variable `name`: the one of the innermost layer that
/// binds it.
pub open spec fn lookup_var<F>(env: Seq<Scope<F>>, name: Seq<char>) -> Option<Seq<u32>> {
    let k = var_layer(env, name);
    if k >= 0 {
        Some(env[k].vars[name])
    } else {
        None
    }
}

/// The function `name`: the one of the innermost layer that binds it.
pub open spec fn lookup_func<F>(env: Seq<Scope<F>>, name: Seq<char>) -> Option<Callee<F>> {
    let k = func_layer(env, name);
    if k >= 0 {
        Some(env[k].funcs[name])
    } else {
        None
    }
}

/// `env` with the variable `name` bound to `value` in layer `k`.
pub open spec fn bind_at<F>(env: Seq<Scope<F>>, k: int, name: Seq<char>, value: Seq<u32>) -> Seq<
    Scope<F>,
> {
    env.update(k, Scope { vars: env[k].vars.insert(name, value), funcs: env[k].funcs })
}

/// Binds `name` in the innermost layer, whatever the outer layers hold.
pub open spec fn declare<F>(env: Seq<Scope<F>>, name: Seq<char>, value: Seq<u32>) -> Seq<Scope<F>> {
    bind_at(env, env.len() - 1, name, value)
}

/// Rebinds `name` in the innermost layer that binds it; binds it in the
/// innermost layer when none does.
pub open spec fn assign<F>(env: Seq<Scope<F>>, name: Seq<char>, value: Seq<u32>) -> Seq<Scope<F>> {
    let k = var_layer(env, name);
    if k >= 0 {
        bind_at(env, k, name, value)
    } else {
        declare(env, name, value)
    }
}

/// Whether the innermost layer already holds a function `name`.
pub open spec fn defined_here<F>(env: Seq<Scope<F>>, name: Seq<char>) -> bool {
    env.last().funcs.contains_key(name)
}

/// Binds the function `name` in the innermost layer.
pub open spec fn define<F>(env: Seq<Scope<F>>, name: Seq<char>, func: Callee<F>) -> Seq<Scope<F>> {
    env.update(
        env.len() - 1,
        Scope { vars: env.last().vars, funcs: env.last().funcs.insert(name, func) },
    )
}

/// The environment. Code outside this module cannot reach its layers, so
/// every environment that it can hold is well formed.
pub struct HeEnv<F> {
    layers: Vec<HeEnvLayer<F>>,
    log: Ghost<Seq<Event<F>>>,
}

impl<F> View for HeEnv<F> {
    type V = Seq<Scope<F>>;

    closed spec fn view(&self) -> Seq<Scope<F>> {
        Seq::new(self.layers@.len(), |i: int| self.layers@[i]@)
    }
}

impl<F> HeEnv<F> {
    /// The calls of user's functions that evaluation has made in this
    /// environment and whose arguments did not tell their result, oldest
    /// first. The log is ghost: it serves contracts, and no code reads it.
    pub closed spec fn log(&self) -> Seq<Event<F>> {
        self.log@
    }

    /// There is at least one layer, and no layer binds a name twice.
    pub closed spec fn wf(&self) -> bool {
        &&& self.layers@.len() >= 1
        &&& forall|i: int| 0 <= i < self.layers@.len() ==> #[trigger] self.layers@[i].wf()
    }

    /// An environment of one layer without bindings.
    pub fn new() -> (r: Self)
        ensures
            r.wf(),
            r@ == seq![empty_scope::<F>()],
            r.log() == Seq::<Event<F>>::empty(),
    {
        let mut layers: Vec<HeEnvLayer<F>> = Vec::new();
        layers.push(HeEnvLayer::new());
        let r = HeEnv { layers, log: Ghost(Seq::empty()) };
        assert(r@ =~= seq![empty_scope::<F>()]);
        r
    }

    /// A well-formed environment has at least one layer.
    pub proof fn lemma_not_empty(&self)
        requires
            self.wf(),
        ensures
            self@.len() >= 1,
    {
    }

    /// The number of layers.
    pub fn depth(&self) -> (r: usize)
        ensures
            r == self@.len(),
            self.wf() ==> r >= 1,
    {
        self.layers.len()
    }

    /// The value of the variable `name`, searched from the innermost layer
    /// outwards.
    pub fn get_var(&self, name: &str) -> (r: Option<Value>)
        requires
            self.wf(),
        ensures
            match r {
                Some(v) => lookup_var(self@, name@) == Some(v@),
                None => lookup_var(self@, name@) is None,
            },
    {
        let key = name.to_owned();
        let mut k: usize = self.layers.len();
        assert(self@.subrange(0, k as int) == self@);
        while k > 0
            invariant
                self.wf(),
                k <= self.layers.len(),
                key@ == name@,
                var_layer(self@, name@) == var_layer(self@.subrange(0, k as int), name@),
            decreases k,
        {
            let ghost prefix = self@.subrange(0, k as int);
            assert(prefix.last() == self.layers@[k - 1]@);
            assert(prefix.drop_last() == self@.subrange(0, k - 1));
            k -= 1;
            assert(self.layers@[k as int].wf());
            match self.layers[k].vars.find(&key) {
                Some(i) => {
                    return Some(self.layers[k].vars.entries[i].item.duplicate());
                },
                None => {},
            }
        }
        assert(self@.subrange(0, 0).len() == 0);
        None
    }

    /// Binds `name` to `value` in the innermost layer. Returns the value.
    pub fn set_var_last(&mut self, name: String, value: Value) -> (r: HeResult)
        requires
            old(self).wf(),
        ensures
            final(self).wf(),
            final(self).log() == old(self).log(),
            final(self)@.len() == old(self)@.len(),
            final(self)@ == declare(old(self)@, name@, value@),
            outcome_of(r) == Ok::<Seq<u32>, Fault>(value@),
    {
        let k = self.layers.len() - 1;
        let copy = value.duplicate();
        let ghost before = *self;
        assert(self.layers@[k as int].wf());
        self.layers[k].vars.put(name, value);
        assert(self.layers@ == before.layers@.update(k as int, self.layers@[k as int]));
        assert(self.layers@[k as int].funcs == before.layers@[k as int].funcs);
        assert forall|i: int| 0 <= i < self.layers@.len() implies #[trigger] self.layers@[i].wf() by {
            if i != k {
                assert(before.layers@[i].wf());
            }
        }
        assert(self@ =~= declare(before@, name@, value@));
        Ok(copy)
    }

    /// Rebinds `name` in the innermost layer that binds it, or binds it in
    /// the innermost layer when none does. Returns the value.
    pub fn set_var(&mut self, name: String, value: Value) -> (r: HeResult)
        requires
            old(self).wf(),
        ensures
            final(self).wf(),
            final(self).log() == old(self).log(),
            final(self)@.len() == old(self)@.len(),
            final(self)@ == assign(old(self)@, name@, value@),
            outcome_of(r) == Ok::<Seq<u32>, Fault>(value@),
    {
        let ghost before = *self;
        let mut k: usize = self.layers.len();
        assert(self@.subrange(0, k as int) == self@);
        while k > 0
            invariant
                *self == before,
                before == *old(self),
                self.wf(),
                k <= self.layers.len(),
                var_layer(self@, name@) == var_layer(self@.subrange(0, k as int), name@),
            decreases k,
        {
            let ghost prefix = self@.subrange(0, k as int);
            assert(prefix.last() == self.layers@[k - 1]@);
            assert(prefix.drop_last() == self@.subrange(0, k - 1));
            k -= 1;
            assert(self.layers@[k as int].wf());
            match self.layers[k].vars.find(&name) {
                Some(i) => {
                    let copy = value.duplicate();
                    self.layers[k].vars.put(name, value);
                    assert(self.layers@ == before.layers@.update(k as int, self.layers@[k as int]));
                    assert(self.layers@[k as int].funcs == before.layers@[k as int].funcs);
                    assert forall|i: int| 0 <= i < self.layers@.len() implies #[trigger] self.layers@[i].wf() by {
                        if i != k {
                            assert(before.layers@[i].wf());
                        }
                    }
                    assert(self@ =~= assign(before@, name@, value@));
                    return Ok(copy);
                },
                None => {},
            }
        }
        assert(self@.subrange(0, 0).len() == 0);
        self.set_var_last(name, value)
    }

    /// Binds the function `name` in the innermost layer, unless that layer
    /// already holds a function of this name.
    pub fn set_func(&mut self, name: String, func: Function<F>) -> (r: HeResult)
        requires
            old(self).wf(),
        ensures
            final(self).wf(),
            final(self).log() == old(self).log(),
            final(self)@.len() == old(self)@.len(),
            defined_here(old(self)@, name@) ==> final(self)@ == old(self)@ && outcome_of(r) == Err::<
                Seq<u32>,
                Fault,
            >(Fault::DuplicateFunctionDefinition(name@)),
            !defined_here(old(self)@, name@) ==> final(self)@ == define(old(self)@, name@, func@)
                && outcome_of(r) == Ok::<Seq<u32>, Fault>(seq![0u32]),
    {
        let k = self.layers.len() - 1;
        assert(self@.last() == self.layers@[k as int]@);
        assert(self.layers@[k as int].wf());
        match self.layers[k].funcs.find(&name) {
            Some(i) => Err(HeError::DuplicateFunctionDefinition(name)),
            None => {
                let ghost before = *self;
                self.layers[k].funcs.put(name, func);
                assert(self.layers@ == before.layers@.update(k as int, self.layers@[k as int]));
                assert(self.layers@[k as int].vars == before.layers@[k as int].vars);
                assert forall|i: int| 0 <= i < self.layers@.len() implies #[trigger] self.layers@[i].wf() by {
                    if i != k {
                        assert(before.layers@[i].wf());
                    }
                }
                assert(self@ =~= define(before@, name@, func@));
                let mut zero: Vec<u32> = Vec::new();
                zero.push(0);
                Ok(Value::new(zero))
            },
        }
    }

    /// Enters a call into the log, where `undetermined` holds.
    pub(crate) fn note(&mut self, Ghost(undetermined): Ghost<bool>, Ghost(event): Ghost<Event<F>>)
        ensures
            final(self).wf() == old(self).wf(),
            final(self)@ == old(self)@,
            final(self).log() == if undetermined {
                old(self).log().push(event)
            } else {
                old(self).log()
            },
    {
        self.log = Ghost(
            if undetermined {
                self.log@.push(event)
            } else {
                self.log@
            },
        );
    }

    /// Pushes a layer without bindings.
    pub fn enter(&mut self)
        requires
            old(self).wf(),
        ensures
            final(self).wf(),
            final(self).log() == old(self).log(),
            final(self)@ == old(self)@.push(empty_scope::<F>()),
    {
        let ghost before = *self;
        self.layers.push(HeEnvLayer::new());
        assert forall|i: int| 0 <= i < self.layers@.len() implies #[trigger] self.layers@[i].wf() by {
            if i < before.layers@.len() {
                assert(before.layers@[i].wf());
            }
        }
        assert(self@ =~= before@.push(empty_scope::<F>()));
    }

    /// Pops the innermost layer. The outermost layer stays: an environment
    /// of one layer cannot be left.
    pub fn leave(&mut self)
        requires
            old(self).wf(),
            old(self)@.len() > 1,
        ensures
            final(self).wf(),
            final(self).log() == old(self).log(),
            final(self)@ == old(self)@.drop_last(),
    {
        let ghost before = *self;
        self.layers.pop();
        assert forall|i: int| 0 <= i < self.layers@.len() implies #[trigger] self.layers@[i].wf() by {
            assert(before.layers@[i].wf());
        }
        assert(self@ =~= before@.drop_last());
    }
}

impl<F: Func> HeEnv<F> {
    /// The function `name`, searched from the innermost layer outwards.
    pub fn get_func(&self, name: &str) -> (r: Option<Function<F>>)
        requires
            self.wf(),
        ensures
            match r {
                Some(f) => lookup_func(self@, name@) == Some(f@),
                None => lookup_func(self@, name@) is None,
            },
    {
        let key = name.to_owned();
        let mut k: usize = self.layers.len();
        assert(self@.subrange(0, k as int) == self@);
        while k > 0
            invariant
                self.wf(),
                k <= self.layers.len(),
                key@ == name@,
                func_layer(self@, name@) == func_layer(self@.subrange(0, k as int), name@),
            decreases k,
        {
            let ghost prefix = self@.subrange(0, k as int);
            assert(prefix.last() == self.layers@[k - 1]@);
            assert(prefix.drop_last() == self@.subrange(0, k - 1));
            k -= 1;
            assert(self.layers@[k as int].wf());
            match self.layers[k].funcs.find(&key) {
                Some(i) => {
                    return Some(self.layers[k].funcs.entries[i].item.duplicate());
                },
                None => {},
            }
        }
        assert(self@.subrange(0, 0).len() == 0);
        None
    }
}

} // verus!
