//! The conditional on the equality of two values.

use vstd::prelude::*;

use crate::ast::{Node, Tree, AST};
use crate::cpp_code::CppCode;
use crate::env::{Func, HeEnv};
use crate::error::{HeError, HeResult};
use crate::semantics::{budget, lemma_extends_chain, lemma_run_extends};
use crate::value::Value;

verus! {

/// Runs the body when both sides have the same value.
#[derive(Debug)]
pub struct IfEqAST {
    pub left: Box<Node>,
    pub right: Box<Node>,
    pub body: Box<Node>,
}

impl IfEqAST {
    pub open spec fn model(&self) -> Tree
        decreases self,
    {
        Tree::IfEq(
            Box::new(self.left.model()),
            Box::new(self.right.model()),
            Box::new(self.body.model()),
        )
    }

    pub fn new(left: Box<Node>, right: Box<Node>, body: Box<Node>) -> (r: Self)
        ensures
            r.model() == Tree::IfEq(
                Box::new(left.model()),
                Box::new(right.model()),
                Box::new(body.model()),
            ),
    {
        IfEqAST { left, right, body }
    }

    pub fn duplicate(&self) -> (r: Self)
        ensures
            r.model() == self.model(),
        decreases self,
    {
        IfEqAST {
            left: Box::new(self.left.duplicate()),
            right: Box::new(self.right.duplicate()),
            body: Box::new(self.body.duplicate()),
        }
    }
}

impl AST for IfEqAST {
    open spec fn tree(&self) -> Tree {
        self.model()
    }

    fn eval<F: Func>(&self, env: &mut HeEnv<F>) -> (r: HeResult)
        decreases budget(old(env)@.len()), 1nat, self,
    {
        let ghost start = env@;
        let ghost from = env.log();
        let left = match self.left.eval(env) {
            Ok(v) => v,
            Err(e) => return Err(e),
        };
        let ghost first = env@;
        let ghost before = env.log();
        let outcome = self.right.eval(env);
        proof {
            lemma_run_extends(
                self.left.model(),
                start,
                budget(start.len()),
                before,
                from.len(),
                env.log(),
            );
            lemma_extends_chain(from, before, env.log());
        }
        let right = match outcome {
            Ok(v) => v,
            Err(e) => return Err(e),
        };
        if left.equals(&right) {
            let ghost middle = env.log();
            let r = self.body.eval(env);
            proof {
                lemma_run_extends(
                    self.left.model(),
                    start,
                    budget(start.len()),
                    middle,
                    from.len(),
                    env.log(),
                );
                lemma_run_extends(
                    self.right.model(),
                    first,
                    budget(start.len()),
                    middle,
                    before.len(),
                    env.log(),
                );
                lemma_extends_chain(from, middle, env.log());
            }
            r
        } else {
            Ok(Value::default())
        }
    }

    fn gen_code<F: Func>(&self, env: &mut HeEnv<F>, code: &mut CppCode) -> (r: Result<(), HeError>)
        decreases self,
    {
        code.push_line("[&]() {");
        code.enter();

        code.push_line("if (");
        code.enter();
        match self.left.gen_code(env, code) {
            Ok(_) => {},
            Err(e) => return Err(e),
        }
        code.leave();
        code.push_line("==");
        code.enter();
        match self.right.gen_code(env, code) {
            Ok(_) => {},
            Err(e) => return Err(e),
        }
        code.leave();
        code.push_line(") {");

        code.push_line("return ");
        code.enter();
        match self.body.gen_code(env, code) {
            Ok(_) => {},
            Err(e) => return Err(e),
        }
        code.leave();

        code.push_line("}");

        code.push_line("return u8();");

        code.leave();
        code.push_line("}();");
        Ok(())
    }
}

} // verus!
