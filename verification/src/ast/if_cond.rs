//! The conditional on the truth of a value.

use vstd::prelude::*;

use crate::ast::{Node, Tree, AST};
use crate::cpp_code::CppCode;
use crate::env::{Func, HeEnv};
use crate::error::{HeError, HeResult};
use crate::semantics::{budget, lemma_extends_chain, lemma_run_extends};
use crate::value::Value;

verus! {

/// `?(condition) { body }`.
#[derive(Debug)]
pub struct IfAST {
    pub value: Box<Node>,
    pub body: Box<Node>,
}

impl IfAST {
    pub open spec fn model(&self) -> Tree
        decreases self,
    {
        Tree::If(Box::new(self.value.model()), Box::new(self.body.model()))
    }

    pub fn new(value: Box<Node>, body: Box<Node>) -> (r: Self)
        ensures
            r.model() == Tree::If(Box::new(value.model()), Box::new(body.model())),
    {
        IfAST { value, body }
    }

    pub fn duplicate(&self) -> (r: Self)
        ensures
            r.model() == self.model(),
        decreases self,
    {
        IfAST { value: Box::new(self.value.duplicate()), body: Box::new(self.body.duplicate()) }
    }
}

impl AST for IfAST {
    open spec fn tree(&self) -> Tree {
        self.model()
    }

    fn eval<F: Func>(&self, env: &mut HeEnv<F>) -> (r: HeResult)
        decreases budget(old(env)@.len()), 1nat, self,
    {
        let ghost start = env@;
        let ghost from = env.log();
        let value = match self.value.eval(env) {
            Ok(v) => v,
            Err(e) => return Err(e),
        };
        if value.truthy() {
            let ghost before = env.log();
            let r = self.body.eval(env);
            proof {
                lemma_run_extends(
                    self.value.model(),
                    start,
                    budget(start.len()),
                    before,
                    from.len(),
                    env.log(),
                );
                lemma_extends_chain(from, before, env.log());
            }
            r
        } else {
            Ok(Value::default())
        }
    }

    fn gen_code<F: Func>(&self, env: &mut HeEnv<F>, code: &mut CppCode) -> (r: Result<(), HeError>)
        decreases self,
    {
        code.push_line("[&]() {");
        code.enter();

        code.push_line("if (bool(");
        code.enter();
        match self.value.gen_code(env, code) {
            Ok(_) => {},
            Err(e) => return Err(e),
        }
        code.leave();
        code.push_line(")) {");

        code.push_line("return ");
        code.enter();
        match self.body.gen_code(env, code) {
            Ok(_) => {},
            Err(e) => return Err(e),
        }
        code.leave();

        code.push_line("}");

        code.push_line("return u8();");

        code.leave();
        code.push_line("}();");
        Ok(())
    }
}

} // verus!
