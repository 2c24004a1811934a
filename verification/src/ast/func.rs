//! Function definition and function call.

use vstd::prelude::*;

use crate::ast::{duplicate_names, duplicate_nodes, models, names, Node, Tree, AST};
use crate::cpp_code::CppCode;
use crate::emission::{
    emit_list, emit_params, func_open, lemma_emit_list_stops, param_types,
};
use crate::env::{extends, values_of, Event, Func, Function, HeEnv, UserFunc};
use crate::text::concat2;
use vstd::string::StringExecFns;
use crate::error::{outcome_of, Fault, HeError, HeResult};
use crate::semantics::{
    budget, lemma_extends_chain, lemma_list_extends, lemma_list_stops, run_list, Listed,
};
use crate::value::Value;

verus! {

/// `$name(parameters) { body }`.
#[derive(Debug)]
pub struct FuncDefAST {
    pub name: String,
    pub args: Vec<String>,
    pub body: Box<Node>,
}

impl FuncDefAST {
    pub open spec fn model(&self) -> Tree
        decreases self,
    {
        Tree::Define(self.name@, names(self.args@), Box::new(self.body.model()))
    }

    pub fn new(name: String, args: Vec<String>, body: Box<Node>) -> (r: Self)
        ensures
            r.model() == Tree::Define(name@, names(args@), Box::new(body.model())),
    {
        FuncDefAST { name, args, body }
    }

    /// The line that opens the definition: the function's type, its name,
    /// and the start of its parameter list.
    pub fn open_text(&self) -> (r: String)
        ensures
            r@ == func_open(self.name@, self.args@.len()),
    {
        let mut func_type = String::from_str("std::function<u8(");
        let mut k: usize = 0;
        assert(func_type@ =~= "std::function<u8("@ + param_types(0));
        while k < self.args.len()
            invariant
                k <= self.args.len(),
                func_type@ == "std::function<u8("@ + param_types(k as nat),
            decreases self.args.len() - k,
        {
            if k > 0 {
                func_type.append(", ");
            }
            func_type.append("u8");
            k += 1;
            assert(func_type@ =~= "std::function<u8("@ + param_types(k as nat));
        }
        func_type.append(")>");
        func_type.append(" ");
        func_type.append(self.name.as_str());
        func_type.append(" = [&](");
        func_type
    }

    /// Emits the parameter list and binds each parameter's name in the
    /// innermost layer.
    pub fn gen_params<F: Func>(&self, env: &mut HeEnv<F>, code: &mut CppCode)
        requires
            old(env).wf(),
        ensures
            final(env).wf(),
            final(env)@.len() == old(env)@.len(),
            final(env).log() == old(env).log(),
            (final(env)@, final(code)@) == emit_params(
                names(self.args@),
                self.args@.len(),
                old(env)@,
                old(code)@,
            ),
    {
        let ghost start = env@;
        let ghost page = code@;
        let ghost params = names(self.args@);
        let mut i: usize = 0;
        while i < self.args.len()
            invariant
                i <= self.args.len(),
                env.wf(),
                env@.len() == start.len(),
                env.log() == old(env).log(),
                params == names(self.args@),
                emit_params(params, i as nat, start, page) == (env@, code@),
            decreases self.args.len() - i,
        {
            if i > 0 {
                code.push_line(",");
            }
            let text = concat2("u8 ", self.args[i].as_str());
            code.push_line(text.as_str());
            let _ = env.set_var_last(self.args[i].clone(), Value::default());
            i += 1;
        }
    }

    pub fn duplicate(&self) -> (r: Self)
        ensures
            r.model() == self.model(),
        decreases self,
    {
        FuncDefAST {
            name: self.name.clone(),
            args: duplicate_names(&self.args),
            body: Box::new(self.body.duplicate()),
        }
    }
}

impl AST for FuncDefAST {
    open spec fn tree(&self) -> Tree {
        self.model()
    }

    fn eval<F: Func>(&self, env: &mut HeEnv<F>) -> (r: HeResult) {
        let func = UserFunc::new(duplicate_names(&self.args), Box::new(self.body.duplicate()));
        env.set_func(self.name.clone(), Function::User(func))
    }

    fn gen_code<F: Func>(&self, env: &mut HeEnv<F>, code: &mut CppCode) -> (r: Result<(), HeError>)
        decreases self,
    {
        let func = UserFunc::new(duplicate_names(&self.args), Box::new(self.body.duplicate()));
        match env.set_func(self.name.clone(), Function::User(func)) {
            Ok(_) => {},
            Err(e) => return Err(e),
        }
        let open = self.open_text();

        proof {
            env.lemma_not_empty();
        }
        env.enter();
        code.push_line(open.as_str());
        code.enter();
        self.gen_params(env, code);
        code.leave();
        code.push_line(") {");

        code.enter();
        code.push_line("return");

        code.enter();
        match self.body.gen_code(env, code) {
            Ok(_) => {},
            Err(e) => {
                env.leave();
                return Err(e);
            },
        }
        code.leave();

        code.leave();

        code.push_line("};");
        env.leave();

        Ok(())
    }
}

/// `name(arguments)`.
#[derive(Debug)]
pub struct FuncCallAST {
    pub name: String,
    pub args: Vec<Node>,
}

impl FuncCallAST {
    pub open spec fn model(&self) -> Tree
        decreases self,
    {
        Tree::Call(self.name@, models(self.args@))
    }

    pub fn new(name: String, args: Vec<Node>) -> (r: Self)
        ensures
            r.model() == Tree::Call(name@, models(args@)),
    {
        FuncCallAST { name, args }
    }

    pub fn duplicate(&self) -> (r: Self)
        ensures
            r.model() == self.model(),
        decreases self,
    {
        FuncCallAST { name: self.name.clone(), args: duplicate_nodes(&self.args) }
    }
}

impl AST for FuncCallAST {
    open spec fn tree(&self) -> Tree {
        self.model()
    }

    #[verifier::loop_isolation(false)]
    fn eval<F: Func>(&self, env: &mut HeEnv<F>) -> (r: HeResult)
        decreases budget(old(env)@.len()), 1nat, self,
    {
        let func = match env.get_func(self.name.as_str()) {
            Some(f) => f,
            None => return Err(HeError::UndefinedFunction(self.name.clone())),
        };
        let ghost start = env@;
        let ghost fuel = budget(env@.len());
        let ghost from = env.log();
        let ghost items = models(self.args@);
        let mut args: Vec<Value> = Vec::new();
        let mut i: usize = 0;
        assert(values_of(args@) =~= Seq::<Seq<u32>>::empty());
        while i < self.args.len()
            invariant
                i <= self.args.len(),
                env.wf(),
                env@.len() == start.len(),
                start == old(env)@,
                from == old(env).log(),
                extends(env.log(), from),
                fuel == budget(start.len()),
                items == models(self.args@),
                args@.len() == i,
                run_list(items, i as nat, start, fuel, env.log(), from.len()) == Some(
                    Listed {
                        env: env@,
                        result: Ok::<Seq<Seq<u32>>, Fault>(values_of(args@)),
                        at: env.log().len(),
                    },
                ),
            decreases self.args.len() - i,
        {
            let ghost before = env.log();
            let ghost values = values_of(args@);
            let outcome = self.args[i].eval(env);
            proof {
                lemma_list_extends(items, i as nat, start, fuel, before, from.len(), env.log());
                lemma_extends_chain(from, before, env.log());
            }
            match outcome {
                Ok(v) => {
                    args.push(v);
                    assert(values_of(args@) =~= values.push(v@));
                },
                Err(e) => {
                    proof {
                        lemma_list_stops(
                            items,
                            (i + 1) as nat,
                            items.len(),
                            start,
                            fuel,
                            env.log(),
                            from.len(),
                        );
                    }
                    return Err(e);
                },
            }
            i += 1;
        }
        let ghost listed = env.log();
        let ghost bound = env@;
        match func {
            Function::User(u) => {
                let r = u.call(args.as_slice(), env);
                proof {
                    lemma_list_extends(
                        items,
                        items.len(),
                        start,
                        fuel,
                        listed,
                        from.len(),
                        env.log(),
                    );
                    lemma_extends_chain(from, listed, env.log());
                }
                r
            },
            Function::Builtin(b) => b.apply(args.as_slice()),
            Function::Native(f) => {
                let r = f.call(args.as_slice(), env);
                let ghost event = Event {
                    func: f,
                    args: values_of(args@),
                    before: bound,
                    result: outcome_of(r),
                    after: env@,
                };
                env.note(Ghost(f.outcome(values_of(args@)) is None), Ghost(event));
                proof {
                    lemma_list_extends(
                        items,
                        items.len(),
                        start,
                        fuel,
                        listed,
                        from.len(),
                        env.log(),
                    );
                    lemma_extends_chain(from, listed, env.log());
                }
                r
            },
        }
    }

    #[verifier::loop_isolation(false)]
    fn gen_code<F: Func>(&self, env: &mut HeEnv<F>, code: &mut CppCode) -> (r: Result<(), HeError>)
        decreases self,
    {
        if env.get_func(self.name.as_str()).is_none() {
            return Err(HeError::UndefinedFunction(self.name.clone()));
        }
        let open = concat2(self.name.as_str(), "(");
        code.push_line(open.as_str());
        code.enter();
        let ghost start = env@;
        let ghost page = code@;
        let ghost items = models(self.args@);

        let mut i: usize = 0;
        while i < self.args.len()
            invariant
                i <= self.args.len(),
                env.wf(),
                env@.len() == start.len(),
                env.log() == old(env).log(),
                emit_list(items, i as nat, start, page).result is Ok,
                emit_list(items, i as nat, start, page).env == env@,
                emit_list(items, i as nat, start, page).page == code@,
            decreases self.args.len() - i,
        {
            if i > 0 {
                code.push_line(",");
            }
            match self.args[i].gen_code(env, code) {
                Ok(_) => {},
                Err(e) => {
                    proof {
                        lemma_emit_list_stops(items, (i + 1) as nat, items.len(), start, page);
                    }
                    return Err(e);
                },
            }
            i += 1;
        }

        code.leave();
        code.push_line(")");
        Ok(())
    }
}

} // verus!
