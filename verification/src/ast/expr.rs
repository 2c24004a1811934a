//! Expressions: literals, variables, groupings, concatenation, arithmetic
//! and comparison.

use vstd::prelude::*;

use crate::ast::{Node, Tree, AST};
use crate::cpp_code::CppCode;
use crate::env::{Func, HeEnv};
use crate::text::{concat3, join};
use crate::error::{HeError, HeResult};
use crate::semantics::{budget, lemma_extends_chain, lemma_run_extends};
use crate::value::Value;

verus! {

/// A literal value.
#[derive(Debug)]
pub struct ValueAST {
    pub value: Value,
}

impl ValueAST {
    pub open spec fn model(&self) -> Tree {
        Tree::Literal(self.value@)
    }

    pub fn new(value: Value) -> (r: Self)
        ensures
            r.model() == Tree::Literal(value@),
    {
        ValueAST { value }
    }

    pub fn duplicate(&self) -> (r: Self)
        ensures
            r.model() == self.model(),
    {
        ValueAST { value: self.value.duplicate() }
    }
}

impl AST for ValueAST {
    open spec fn tree(&self) -> Tree {
        self.model()
    }

    fn eval<F: Func>(&self, env: &mut HeEnv<F>) -> (r: HeResult) {
        Ok(self.value.duplicate())
    }

    fn gen_code<F: Func>(&self, env: &mut HeEnv<F>, code: &mut CppCode) -> (r: Result<(), HeError>) {
        let items = join(&self.value.value, ", ");
        let text = concat3("u8({", items.as_str(), "})");
        code.push_line(text.as_str());
        Ok(())
    }
}

/// A variable, read.
#[derive(Debug)]
pub struct VarAST {
    pub var_name: String,
}

impl VarAST {
    pub open spec fn model(&self) -> Tree {
        Tree::Var(self.var_name@)
    }

    pub fn new(var_name: String) -> (r: Self)
        ensures
            r.model() == Tree::Var(var_name@),
    {
        VarAST { var_name }
    }

    pub fn duplicate(&self) -> (r: Self)
        ensures
            r.model() == self.model(),
    {
        VarAST { var_name: self.var_name.clone() }
    }
}

impl AST for VarAST {
    open spec fn tree(&self) -> Tree {
        self.model()
    }

    fn eval<F: Func>(&self, env: &mut HeEnv<F>) -> (r: HeResult) {
        match env.get_var(self.var_name.as_str()) {
            Some(v) => Ok(v),
            None => Err(HeError::UndefinedVariable(self.var_name.clone())),
        }
    }

    fn gen_code<F: Func>(&self, env: &mut HeEnv<F>, code: &mut CppCode) -> (r: Result<(), HeError>) {
        if env.get_var(self.var_name.as_str()).is_none() {
            return Err(HeError::UndefinedVariable(self.var_name.clone()));
        }
        code.push_line(self.var_name.as_str());
        Ok(())
    }
}

/// An expression in parentheses, or a primary expression: it stands for
/// the expression inside.
#[derive(Debug)]
pub struct ExprAST {
    pub expr: Box<Node>,
}

impl ExprAST {
    pub open spec fn model(&self) -> Tree
        decreases self,
    {
        self.expr.model()
    }

    pub fn new(expr: Box<Node>) -> (r: Self)
        ensures
            r.model() == expr.model(),
    {
        ExprAST { expr }
    }

    pub fn duplicate(&self) -> (r: Self)
        ensures
            r.model() == self.model(),
        decreases self,
    {
        ExprAST { expr: Box::new(self.expr.duplicate()) }
    }
}

impl AST for ExprAST {
    open spec fn tree(&self) -> Tree {
        self.model()
    }

    fn eval<F: Func>(&self, env: &mut HeEnv<F>) -> (r: HeResult)
        decreases budget(old(env)@.len()), 1nat, self,
    {
        self.expr.eval(env)
    }

    fn gen_code<F: Func>(&self, env: &mut HeEnv<F>, code: &mut CppCode) -> (r: Result<(), HeError>)
        decreases self,
    {
        self.expr.gen_code(env, code)
    }
}

/// `left | right`.
#[derive(Debug)]
pub struct OrExprAST {
    pub left: Box<Node>,
    pub right: Box<Node>,
}

impl OrExprAST {
    pub open spec fn model(&self) -> Tree
        decreases self,
    {
        Tree::Concat(Box::new(self.left.model()), Box::new(self.right.model()))
    }

    pub fn new(left: Box<Node>, right: Box<Node>) -> (r: Self)
        ensures
            r.model() == Tree::Concat(Box::new(left.model()), Box::new(right.model())),
    {
        OrExprAST { left, right }
    }

    pub fn duplicate(&self) -> (r: Self)
        ensures
            r.model() == self.model(),
        decreases self,
    {
        OrExprAST {
            left: Box::new(self.left.duplicate()),
            right: Box::new(self.right.duplicate()),
        }
    }
}

impl AST for OrExprAST {
    open spec fn tree(&self) -> Tree {
        self.model()
    }

    fn eval<F: Func>(&self, env: &mut HeEnv<F>) -> (r: HeResult)
        decreases budget(old(env)@.len()), 1nat, self,
    {
        let ghost start = env@;
        let ghost from = env.log();
        let left = match self.left.eval(env) {
            Ok(v) => v,
            Err(e) => return Err(e),
        };
        let ghost first = env@;
        let ghost before = env.log();
        let outcome = self.right.eval(env);
        proof {
            lemma_run_extends(
                self.left.model(),
                start,
                budget(start.len()),
                before,
                from.len(),
                env.log(),
            );
            lemma_extends_chain(from, before, env.log());
        }
        let right = match outcome {
            Ok(v) => v,
            Err(e) => return Err(e),
        };
        Ok(left.concat(&right))
    }

    fn gen_code<F: Func>(&self, env: &mut HeEnv<F>, code: &mut CppCode) -> (r: Result<(), HeError>)
        decreases self,
    {
        let sign = " | ";
        code.push_line("(");

        code.enter();
        match self.left.gen_code(env, code) {
            Ok(_) => {},
            Err(e) => return Err(e),
        }
        code.leave();

        code.push_line(sign);

        code.enter();
        match self.right.gen_code(env, code) {
            Ok(_) => {},
            Err(e) => return Err(e),
        }
        code.leave();

        code.push_line(")");
        Ok(())
    }
}

/// The operators of element-wise arithmetic.
#[derive(Debug, Clone, Copy, PartialEq, Eq, Structural)]
pub enum ArithmeticExprType {
    Add,
    Sub,
    Mul,
    Div,
}

/// `left op right`, element by element.
#[derive(Debug)]
pub struct ArithmeticExprAST {
    pub left: Box<Node>,
    pub right: Box<Node>,
    pub expr_type: ArithmeticExprType,
}

impl ArithmeticExprAST {
    pub open spec fn model(&self) -> Tree
        decreases self,
    {
        Tree::Arithmetic(
            self.expr_type,
            Box::new(self.left.model()),
            Box::new(self.right.model()),
        )
    }

    pub fn new(left: Box<Node>, right: Box<Node>, expr_type: ArithmeticExprType) -> (r: Self)
        ensures
            r.model() == Tree::Arithmetic(
                expr_type,
                Box::new(left.model()),
                Box::new(right.model()),
            ),
    {
        ArithmeticExprAST { left, right, expr_type }
    }

    pub fn duplicate(&self) -> (r: Self)
        ensures
            r.model() == self.model(),
        decreases self,
    {
        ArithmeticExprAST {
            left: Box::new(self.left.duplicate()),
            right: Box::new(self.right.duplicate()),
            expr_type: self.expr_type,
        }
    }
}

impl AST for ArithmeticExprAST {
    open spec fn tree(&self) -> Tree {
        self.model()
    }

    fn eval<F: Func>(&self, env: &mut HeEnv<F>) -> (r: HeResult)
        decreases budget(old(env)@.len()), 1nat, self,
    {
        let ghost start = env@;
        let ghost from = env.log();
        let left = match self.left.eval(env) {
            Ok(v) => v,
            Err(e) => return Err(e),
        };
        let ghost first = env@;
        let ghost before = env.log();
        let outcome = self.right.eval(env);
        proof {
            lemma_run_extends(
                self.left.model(),
                start,
                budget(start.len()),
                before,
                from.len(),
                env.log(),
            );
            lemma_extends_chain(from, before, env.log());
        }
        let right = match outcome {
            Ok(v) => v,
            Err(e) => return Err(e),
        };
        match self.expr_type {
            ArithmeticExprType::Add => left.add(&right),
            ArithmeticExprType::Sub => left.sub(&right),
            ArithmeticExprType::Mul => left.mul(&right),
            ArithmeticExprType::Div => left.div(&right),
        }
    }

    fn gen_code<F: Func>(&self, env: &mut HeEnv<F>, code: &mut CppCode) -> (r: Result<(), HeError>)
        decreases self,
    {
        let sign = match self.expr_type {
            ArithmeticExprType::Add => "+",
            ArithmeticExprType::Sub => "-",
            ArithmeticExprType::Mul => "*",
            ArithmeticExprType::Div => "/",
        };
        code.push_line("(");

        code.enter();
        match self.left.gen_code(env, code) {
            Ok(_) => {},
            Err(e) => return Err(e),
        }
        code.leave();

        code.push_line(sign);

        code.enter();
        match self.right.gen_code(env, code) {
            Ok(_) => {},
            Err(e) => return Err(e),
        }
        code.leave();

        code.push_line(")");
        Ok(())
    }
}

/// The comparison operators.
#[derive(Debug, Clone, Copy, PartialEq, Eq, Structural)]
pub enum EqualityExprType {
    Eq,
    Ne,
    Lt,
    Gt,
    Le,
    Ge,
}

/// `left op right`, a comparison of two whole values.
#[derive(Debug)]
pub struct EqualityExprAST {
    pub left: Box<Node>,
    pub right: Box<Node>,
    pub expr_type: EqualityExprType,
}

impl EqualityExprAST {
    pub open spec fn model(&self) -> Tree
        decreases self,
    {
        Tree::Compare(self.expr_type, Box::new(self.left.model()), Box::new(self.right.model()))
    }

    pub fn new(left: Box<Node>, right: Box<Node>, expr_type: EqualityExprType) -> (r: Self)
        ensures
            r.model() == Tree::Compare(
                expr_type,
                Box::new(left.model()),
                Box::new(right.model()),
            ),
    {
        EqualityExprAST { left, right, expr_type }
    }

    pub fn duplicate(&self) -> (r: Self)
        ensures
            r.model() == self.model(),
        decreases self,
    {
        EqualityExprAST {
            left: Box::new(self.left.duplicate()),
            right: Box::new(self.right.duplicate()),
            expr_type: self.expr_type,
        }
    }
}

impl AST for EqualityExprAST {
    open spec fn tree(&self) -> Tree {
        self.model()
    }

    fn eval<F: Func>(&self, env: &mut HeEnv<F>) -> (r: HeResult)
        decreases budget(old(env)@.len()), 1nat, self,
    {
        let ghost start = env@;
        let ghost from = env.log();
        let left = match self.left.eval(env) {
            Ok(v) => v,
            Err(e) => return Err(e),
        };
        let ghost first = env@;
        let ghost before = env.log();
        let outcome = self.right.eval(env);
        proof {
            lemma_run_extends(
                self.left.model(),
                start,
                budget(start.len()),
                before,
                from.len(),
                env.log(),
            );
            lemma_extends_chain(from, before, env.log());
        }
        let right = match outcome {
            Ok(v) => v,
            Err(e) => return Err(e),
        };
        let result = match self.expr_type {
            EqualityExprType::Eq => left.equals(&right),
            EqualityExprType::Ne => !left.equals(&right),
            EqualityExprType::Lt => left.less_than(&right),
            EqualityExprType::Gt => right.less_than(&left),
            EqualityExprType::Le => !right.less_than(&left),
            EqualityExprType::Ge => !left.less_than(&right),
        };
        Ok(Value::from_bool(result))
    }

    fn gen_code<F: Func>(&self, env: &mut HeEnv<F>, code: &mut CppCode) -> (r: Result<(), HeError>)
        decreases self,
    {
        let sign = match self.expr_type {
            EqualityExprType::Eq => "==",
            EqualityExprType::Ne => "!=",
            EqualityExprType::Lt => "<",
            EqualityExprType::Gt => ">",
            EqualityExprType::Le => "<=",
            EqualityExprType::Ge => ">=",
        };
        code.push_line("(");

        code.enter();
        match self.left.gen_code(env, code) {
            Ok(_) => {},
            Err(e) => return Err(e),
        }
        code.leave();

        code.push_line(sign);

        code.enter();
        match self.right.gen_code(env, code) {
            Ok(_) => {},
            Err(e) => return Err(e),
        }
        code.leave();

        code.push_line(")");
        Ok(())
    }
}

} // verus!
