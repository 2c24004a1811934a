//! Operations on variables: declaration, assignment, indexed assignment
//! and indexed read.

use vstd::prelude::*;

use crate::ast::{Node, Tree, AST};
use crate::cpp_code::{lemma_line_keeps_level, var_def, CppCode};
use crate::env::{Func, HeEnv};
use crate::text::{concat2, concat3};
use crate::error::{HeError, HeResult};
use crate::semantics::{budget, lemma_extends_chain, lemma_run_extends, scatter};
use crate::value::Value;

verus! {

/// `def name`.
#[derive(Debug)]
pub struct VarDefAST {
    pub var_name: String,
}

impl VarDefAST {
    pub open spec fn model(&self) -> Tree {
        Tree::Declare(self.var_name@)
    }

    pub fn new(var_name: String) -> (r: Self)
        ensures
            r.model() == Tree::Declare(var_name@),
    {
        VarDefAST { var_name }
    }

    pub fn duplicate(&self) -> (r: Self)
        ensures
            r.model() == self.model(),
    {
        VarDefAST { var_name: self.var_name.clone() }
    }
}

impl AST for VarDefAST {
    open spec fn tree(&self) -> Tree {
        self.model()
    }

    fn eval<F: Func>(&self, env: &mut HeEnv<F>) -> (r: HeResult) {
        env.set_var_last(self.var_name.clone(), Value::default())
    }

    fn gen_code<F: Func>(&self, env: &mut HeEnv<F>, code: &mut CppCode) -> (r: Result<(), HeError>) {
        let _ = env.set_var_last(self.var_name.clone(), Value::default());
        code.push_var_def(self.var_name.as_str());
        Ok(())
    }
}

/// `name = value`.
#[derive(Debug)]
pub struct VarAssignAST {
    pub var_name: String,
    pub value: Box<Node>,
}

impl VarAssignAST {
    pub open spec fn model(&self) -> Tree
        decreases self,
    {
        Tree::Assign(self.var_name@, Box::new(self.value.model()))
    }

    pub fn new(var_name: String, value: Box<Node>) -> (r: Self)
        ensures
            r.model() == Tree::Assign(var_name@, Box::new(value.model())),
    {
        VarAssignAST { var_name, value }
    }

    pub fn duplicate(&self) -> (r: Self)
        ensures
            r.model() == self.model(),
        decreases self,
    {
        VarAssignAST { var_name: self.var_name.clone(), value: Box::new(self.value.duplicate()) }
    }
}

impl AST for VarAssignAST {
    open spec fn tree(&self) -> Tree {
        self.model()
    }

    fn eval<F: Func>(&self, env: &mut HeEnv<F>) -> (r: HeResult)
        decreases budget(old(env)@.len()), 1nat, self,
    {
        let value = match self.value.eval(env) {
            Ok(v) => v,
            Err(e) => return Err(e),
        };
        env.set_var(self.var_name.clone(), value)
    }

    fn gen_code<F: Func>(&self, env: &mut HeEnv<F>, code: &mut CppCode) -> (r: Result<(), HeError>)
        decreases self,
    {
        let ghost start = code@;
        let mut inner = CppCode::new(String::new(), code.tab_count.wrapping_add(1));
        match self.value.gen_code(env, &mut inner) {
            Ok(_) => {},
            Err(e) => return Err(e),
        }
        if env.get_var(self.var_name.as_str()).is_none() {
            code.push_var_def(self.var_name.as_str());
        }
        let _ = env.set_var(self.var_name.clone(), Value::default());

        let open = concat3("(", self.var_name.as_str(), " = ");
        proof {
            lemma_line_keeps_level(start, var_def(self.var_name@));
            lemma_line_keeps_level(code@, open@);
        }
        code.push_line(open.as_str());
        code.push(inner.code.as_str());
        code.push_line(")");
        Ok(())
    }
}

/// `name[indices] = value`.
#[derive(Debug)]
pub struct VarRefAssignAST {
    pub var_name: String,
    pub indexs: Box<Node>,
    pub value: Box<Node>,
}

impl VarRefAssignAST {
    pub open spec fn model(&self) -> Tree
        decreases self,
    {
        Tree::IndexAssign(
            self.var_name@,
            Box::new(self.indexs.model()),
            Box::new(self.value.model()),
        )
    }

    pub fn new(var_name: String, indexs: Box<Node>, value: Box<Node>) -> (r: Self)
        ensures
            r.model() == Tree::IndexAssign(
                var_name@,
                Box::new(indexs.model()),
                Box::new(value.model()),
            ),
    {
        VarRefAssignAST { var_name, indexs, value }
    }

    pub fn duplicate(&self) -> (r: Self)
        ensures
            r.model() == self.model(),
        decreases self,
    {
        VarRefAssignAST {
            var_name: self.var_name.clone(),
            indexs: Box::new(self.indexs.duplicate()),
            value: Box::new(self.value.duplicate()),
        }
    }
}

/// Whether a value holds a zero.
pub fn holds_zero(value: &Value) -> (r: bool)
    ensures
        r == value@.contains(0u32),
{
    let mut i: usize = 0;
    while i < value.value.len()
        invariant
            i <= value.value.len(),
            forall|j: int| 0 <= j < i ==> value.value@[j] != 0,
        decreases value.value.len() - i,
    {
        if value.value[i] == 0 {
            assert(value@[i as int] == 0u32);
            return true;
        }
        i += 1;
    }
    false
}

/// The variable's new value in an indexed assignment, where no index is 0
/// and there are at least as many indices as values: `None` where an index
/// lies beyond the variable's end.
#[verifier::loop_isolation(false)]
pub fn scatter_values(var: Value, indexs: &Value, value: &Value) -> (r: Option<Value>)
    requires
        value@.len() > 0,
        !indexs@.contains(0u32),
    ensures
        match r {
            Some(w) => w@ == scatter(var@, indexs@, value@, indexs@.len()) && forall|j: int|
                0 <= j < indexs@.len() ==> indexs@[j] <= var@.len(),
            None => exists|j: int| 0 <= j < indexs@.len() && indexs@[j] > var@.len(),
        },
{
    let ghost start = var@;
    let mut var = var;
    let mut i: usize = 0;
    while i < indexs.value.len()
        invariant
            i <= indexs.value.len(),
            value.value.len() > 0,
            !indexs@.contains(0u32),
            var@.len() == start.len(),
            var@ == scatter(start, indexs@, value@, i as nat),
            forall|j: int| 0 <= j < i ==> indexs@[j] <= start.len(),
        decreases indexs.value.len() - i,
    {
        let index = indexs.value[i] as usize;
        assert(indexs@.contains(indexs@[i as int]));
        if index > var.value.len() {
            assert(indexs@[i as int] > start.len());
            return None;
        }
        var.value[index - 1] = value.value[i % value.value.len()];
        i += 1;
    }
    Some(var)
}

impl AST for VarRefAssignAST {
    open spec fn tree(&self) -> Tree {
        self.model()
    }

    fn eval<F: Func>(&self, env: &mut HeEnv<F>) -> (r: HeResult)
        decreases budget(old(env)@.len()), 1nat, self,
    {
        let var = match env.get_var(self.var_name.as_str()) {
            Some(v) => v,
            None => return Err(HeError::UndefinedVariable(self.var_name.clone())),
        };
        let ghost start = env@;
        let ghost from = env.log();
        let indexs = match self.indexs.eval(env) {
            Ok(v) => v,
            Err(e) => return Err(e),
        };
        let ghost first = env@;
        let ghost before = env.log();
        let outcome = self.value.eval(env);
        proof {
            lemma_run_extends(
                self.indexs.model(),
                start,
                budget(start.len()),
                before,
                from.len(),
                env.log(),
            );
            lemma_extends_chain(from, before, env.log());
        }
        let value = match outcome {
            Ok(v) => v,
            Err(e) => return Err(e),
        };
        if value.value.len() == 0 {
            return Err(HeError::EmptyAssignmentValue(self.var_name.clone()));
        }
        if holds_zero(&indexs) {
            return env.set_var(self.var_name.clone(), value);
        }
        if indexs.value.len() < value.value.len() {
            return Err(HeError::BroadcastLengthMismatch(self.var_name.clone()));
        }
        match scatter_values(var, &indexs, &value) {
            Some(w) => env.set_var(self.var_name.clone(), w),
            None => Err(HeError::IndexOutOfRange(self.var_name.clone())),
        }
    }

    fn gen_code<F: Func>(&self, env: &mut HeEnv<F>, code: &mut CppCode) -> (r: Result<(), HeError>)
        decreases self,
    {
        if env.get_var(self.var_name.as_str()).is_none() {
            return Err(HeError::UndefinedVariable(self.var_name.clone()));
        }
        let open = concat3("(", self.var_name.as_str(), ".set(");
        code.push_line(open.as_str());

        code.enter();
        match self.indexs.gen_code(env, code) {
            Ok(_) => {},
            Err(e) => return Err(e),
        }
        code.leave();

        code.push_line(",");

        code.enter();
        match self.value.gen_code(env, code) {
            Ok(_) => {},
            Err(e) => return Err(e),
        }
        code.leave();

        code.push_line("))");
        Ok(())
    }
}

/// `name[indices]`, read.
#[derive(Debug)]
pub struct VarRefAST {
    pub var_name: String,
    pub indexs: Box<Node>,
}

impl VarRefAST {
    pub open spec fn model(&self) -> Tree
        decreases self,
    {
        Tree::Index(self.var_name@, Box::new(self.indexs.model()))
    }

    pub fn new(var_name: String, indexs: Box<Node>) -> (r: Self)
        ensures
            r.model() == Tree::Index(var_name@, Box::new(indexs.model())),
    {
        VarRefAST { var_name, indexs }
    }

    pub fn duplicate(&self) -> (r: Self)
        ensures
            r.model() == self.model(),
        decreases self,
    {
        VarRefAST { var_name: self.var_name.clone(), indexs: Box::new(self.indexs.duplicate()) }
    }
}

/// The elements of `var` at the positions `indexs`, counted from 0: `None`
/// where a position lies beyond the end.
pub fn gather_values(var: &Value, indexs: &Value) -> (r: Option<Value>)
    ensures
        match r {
            Some(w) => w@ == Seq::new(indexs@.len(), |i: int| var@[indexs@[i] as int])
                && forall|j: int| 0 <= j < indexs@.len() ==> indexs@[j] < var@.len(),
            None => exists|j: int| 0 <= j < indexs@.len() && indexs@[j] >= var@.len(),
        },
{
    let mut tmp_var: Vec<u32> = Vec::new();
    let mut i: usize = 0;
    while i < indexs.value.len()
        invariant
            i <= indexs.value.len(),
            tmp_var@.len() == i,
            forall|j: int| 0 <= j < i ==> indexs@[j] < var@.len(),
            forall|j: int| 0 <= j < i ==> tmp_var@[j] == var@[indexs@[j] as int],
        decreases indexs.value.len() - i,
    {
        let index = indexs.value[i] as usize;
        if index >= var.value.len() {
            assert(indexs@[i as int] >= var@.len());
            return None;
        }
        tmp_var.push(var.value[index]);
        i += 1;
    }
    assert(tmp_var@ =~= Seq::new(indexs@.len(), |i: int| var@[indexs@[i] as int]));
    Some(Value::new(tmp_var))
}

impl AST for VarRefAST {
    open spec fn tree(&self) -> Tree {
        self.model()
    }

    fn eval<F: Func>(&self, env: &mut HeEnv<F>) -> (r: HeResult)
        decreases budget(old(env)@.len()), 1nat, self,
    {
        let var = match env.get_var(self.var_name.as_str()) {
            Some(v) => v,
            None => return Err(HeError::UndefinedVariable(self.var_name.clone())),
        };
        let indexs = match self.indexs.eval(env) {
            Ok(v) => v,
            Err(e) => return Err(e),
        };
        match gather_values(&var, &indexs) {
            Some(w) => Ok(w),
            None => Err(HeError::IndexOutOfRange(self.var_name.clone())),
        }
    }

    fn gen_code<F: Func>(&self, env: &mut HeEnv<F>, code: &mut CppCode) -> (r: Result<(), HeError>)
        decreases self,
    {
        if env.get_var(self.var_name.as_str()).is_none() {
            return Err(HeError::UndefinedVariable(self.var_name.clone()));
        }
        let open = concat2(self.var_name.as_str(), "[");
        code.push_line(open.as_str());

        code.enter();
        match self.indexs.gen_code(env, code) {
            Ok(_) => {},
            Err(e) => return Err(e),
        }
        code.leave();

        code.push_line("]");
        Ok(())
    }
}

} // verus!
