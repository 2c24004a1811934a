//! The loop over the elements of a value.

use vstd::prelude::*;

use crate::ast::{Node, Tree, AST};
use crate::cpp_code::CppCode;
use crate::env::{empty_scope, extends, Func, HeEnv};
use crate::text::concat3;
use vstd::string::StringExecFns;
use crate::error::{Fault, HeError, HeResult};
use crate::semantics::{
    budget, lemma_extends_chain, lemma_loop_extends, lemma_loop_stops, lemma_run_extends,
    run_loop, Outcome,
};
use crate::value::Value;

verus! {

/// `@(name: sequence) { body }`.
#[derive(Debug)]
pub struct ForInAST {
    pub var_name: String,
    pub value: Box<Node>,
    pub body: Box<Node>,
}

impl ForInAST {
    pub open spec fn model(&self) -> Tree
        decreases self,
    {
        Tree::ForIn(self.var_name@, Box::new(self.value.model()), Box::new(self.body.model()))
    }

    pub fn new(var_name: String, value: Box<Node>, body: Box<Node>) -> (r: Self)
        ensures
            r.model() == Tree::ForIn(
                var_name@,
                Box::new(value.model()),
                Box::new(body.model()),
            ),
    {
        ForInAST { var_name, value, body }
    }

    pub fn duplicate(&self) -> (r: Self)
        ensures
            r.model() == self.model(),
        decreases self,
    {
        ForInAST {
            var_name: self.var_name.clone(),
            value: Box::new(self.value.duplicate()),
            body: Box::new(self.body.duplicate()),
        }
    }
}

impl AST for ForInAST {
    open spec fn tree(&self) -> Tree {
        self.model()
    }

    #[verifier::loop_isolation(false)]
    fn eval<F: Func>(&self, env: &mut HeEnv<F>) -> (r: HeResult)
        decreases budget(old(env)@.len()), 1nat, self,
    {
        let ghost entry = env@;
        let ghost from = env.log();
        let value = match self.value.eval(env) {
            Ok(v) => v,
            Err(e) => return Err(e),
        };
        let ghost outer = env@;
        let ghost listed = env.log();
        proof {
            env.lemma_not_empty();
        }
        env.enter();
        let ghost start = env@;
        let ghost fuel = budget(start.len());
        let ghost body = self.body.model();
        let mut i: usize = 0;
        while i < value.value.len()
            invariant
                i <= value.value.len(),
                env.wf(),
                env@.len() == start.len(),
                start == outer.push(empty_scope::<F>()),
                outer.len() == old(env)@.len(),
                outer.len() >= 1,
                extends(env.log(), listed),
                fuel == budget(start.len()),
                body == self.body.model(),
                run_loop(self.var_name@, value@, i as nat, body, start, fuel, env.log(), listed.len())
                    == Some(
                    Outcome {
                        env: env@,
                        result: Ok::<Seq<u32>, Fault>(Seq::empty()),
                        at: env.log().len(),
                    },
                ),
            decreases value.value.len() - i,
        {
            let mut item: Vec<u32> = Vec::new();
            item.push(value.value[i]);
            let v = Value::new(item);
            assert(v@ =~= seq![value@[i as int]]);
            if i == 0 {
                let _ = env.set_var_last(self.var_name.clone(), v);
            } else {
                let _ = env.set_var(self.var_name.clone(), v);
            }
            let ghost before = env.log();
            let outcome = self.body.eval(env);
            proof {
                lemma_loop_extends(
                    self.var_name@,
                    value@,
                    i as nat,
                    body,
                    start,
                    fuel,
                    before,
                    listed.len(),
                    env.log(),
                );
                lemma_extends_chain(listed, before, env.log());
            }
            match outcome {
                Ok(_) => {},
                Err(e) => {
                    proof {
                        lemma_loop_stops(
                            self.var_name@,
                            value@,
                            (i + 1) as nat,
                            value@.len(),
                            body,
                            start,
                            fuel,
                            env.log(),
                            listed.len(),
                        );
                        lemma_run_extends(
                            self.value.model(),
                            entry,
                            budget(entry.len()),
                            listed,
                            from.len(),
                            env.log(),
                        );
                        lemma_extends_chain(from, listed, env.log());
                    }
                    env.leave();
                    return Err(e);
                },
            }
            i += 1;
        }
        proof {
            lemma_run_extends(
                self.value.model(),
                entry,
                budget(entry.len()),
                listed,
                from.len(),
                env.log(),
            );
            lemma_extends_chain(from, listed, env.log());
        }
        env.leave();
        Ok(Value::default())
    }

    fn gen_code<F: Func>(&self, env: &mut HeEnv<F>, code: &mut CppCode) -> (r: Result<(), HeError>)
        decreases self,
    {
        code.push_line("[&]() {");
        code.enter();

        let open = concat3("for (Int _for_val_", self.var_name.as_str(), " :");
        code.push_line(open.as_str());

        code.enter();
        match self.value.gen_code(env, code) {
            Ok(_) => {},
            Err(e) => return Err(e),
        }
        code.leave();

        code.push_line(") {");
        code.enter();
        proof {
            env.lemma_not_empty();
        }
        env.enter();
        let mut bind = concat3("u8 ", self.var_name.as_str(), " = {_for_val_");
        bind.append(self.var_name.as_str());
        bind.append("};");
        code.push_line(bind.as_str());
        let _ = env.set_var_last(self.var_name.clone(), Value::default());

        match self.body.gen_code(env, code) {
            Ok(_) => {},
            Err(e) => {
                env.leave();
                return Err(e);
            },
        }
        code.leave();

        code.push_line("}");
        env.leave();
        code.push_line("return u8();");

        code.leave();
        code.push_line("}()");

        Ok(())
    }
}

} // verus!
