//! The syntax tree: its mathematical model, the executable nodes, and the
//! contract that every kind of node keeps.

use vstd::prelude::*;

use crate::cpp_code::CppCode;
use crate::emission::{emit, emit_block, lemma_emit_block_stops, unit_outcome};
use crate::env::{extends, Event, Func, HeEnv};
use crate::error::{outcome_of, HeError, HeResult};
use crate::semantics::{
    budget, last_or_empty, lemma_extends_chain, lemma_list_extends, lemma_list_stops, run,
    run_list, Listed, Outcome,
};
use crate::value::Value;

pub mod expr;
pub mod for_in;
pub mod func;
pub mod if_cond;
pub mod if_eq;
pub mod opt;

pub use expr::{
    ArithmeticExprAST, ArithmeticExprType, EqualityExprAST, EqualityExprType, ExprAST, OrExprAST,
    ValueAST, VarAST,
};
pub use for_in::ForInAST;
pub use func::{FuncCallAST, FuncDefAST};
pub use if_cond::IfAST;
pub use if_eq::IfEqAST;
pub use opt::{VarAssignAST, VarDefAST, VarRefAST, VarRefAssignAST};

verus! {

/// The abstract syntax of the language. A grouping in parentheses leaves no
/// trace in it.
pub enum Tree {
    /// A literal value.
    Literal(Seq<u32>),
    /// A variable, read.
    Var(Seq<char>),
    /// `name[indices]`, read.
    Index(Seq<char>, Box<Tree>),
    /// `left | right`: the right value after the left one.
    Concat(Box<Tree>, Box<Tree>),
    /// Element-wise arithmetic.
    Arithmetic(ArithmeticExprType, Box<Tree>, Box<Tree>),
    /// A comparison, whose value stands for a boolean.
    Compare(EqualityExprType, Box<Tree>, Box<Tree>),
    /// `def name`.
    Declare(Seq<char>),
    /// `name = value`.
    Assign(Seq<char>, Box<Tree>),
    /// `name[indices] = value`.
    IndexAssign(Seq<char>, Box<Tree>, Box<Tree>),
    /// A function definition: name, parameter names, body.
    Define(Seq<char>, Seq<Seq<char>>, Box<Tree>),
    /// A call: the function's name and the argument expressions.
    Call(Seq<char>, Seq<Tree>),
    /// `?(condition) { body }`.
    If(Box<Tree>, Box<Tree>),
    /// A conditional on the equality of two values.
    IfEq(Box<Tree>, Box<Tree>, Box<Tree>),
    /// `@(name: sequence) { body }`.
    ForIn(Seq<char>, Box<Tree>, Box<Tree>),
    /// Statements in order.
    Block(Seq<Tree>),
    /// One statement of a block.
    Statement(Box<Tree>),
}

/// What every kind of node offers: evaluation against an environment, and
/// emission of equivalent source text into a buffer.
pub trait AST {
    /// The tree that the node stands for.
    spec fn tree(&self) -> Tree;

    /// Evaluates the node. The environment stays well formed and its scope
    /// stack returns to its depth, on success and on error. The log of the
    /// environment gains the calls of user's functions that the evaluation
    /// made and whose arguments did not tell their result. Value and
    /// environment are those that `run` gives on that log: the log holds
    /// what was handed to each such call, and `run` says what is done with
    /// what came back.
    fn eval<F: Func>(&self, env: &mut HeEnv<F>) -> (r: HeResult)
        requires
            old(env).wf(),
        ensures
            final(env).wf(),
            final(env)@.len() == old(env)@.len(),
            extends(final(env).log(), old(env).log()),
            run(
                self.tree(),
                old(env)@,
                budget(old(env)@.len()),
                final(env).log(),
                old(env).log().len(),
            ) == Some(
                Outcome { env: final(env)@, result: outcome_of(r), at: final(env).log().len() },
            ),
    ;

    /// Emits the node. The environment serves to tell which names exist;
    /// it stays well formed and its scope stack returns to its depth, and
    /// no function is called.
    /// Environment, text and result are those that `emit` gives.
    fn gen_code<F: Func>(&self, env: &mut HeEnv<F>, code: &mut CppCode) -> (r: Result<(), HeError>)
        requires
            old(env).wf(),
        ensures
            final(env).wf(),
            final(env)@.len() == old(env)@.len(),
            final(env).log() == old(env).log(),
            final(env)@ == emit(self.tree(), old(env)@, old(code)@).env,
            final(code)@ == emit(self.tree(), old(env)@, old(code)@).page,
            unit_outcome(r) == emit(self.tree(), old(env)@, old(code)@).result,
    ;
}

/// One statement of a block.
#[derive(Debug)]
pub struct StatementAST {
    pub statement: Box<Node>,
}

/// Statements in order; the value is that of the last one.
#[derive(Debug)]
pub struct BlockAST {
    pub statements: Vec<Node>,
}

/// A node of the syntax tree: one of the kinds of the language.
#[derive(Debug)]
pub enum Node {
    Value(ValueAST),
    Var(VarAST),
    Expr(ExprAST),
    OrExpr(OrExprAST),
    ArithmeticExpr(ArithmeticExprAST),
    EqualityExpr(EqualityExprAST),
    VarDef(VarDefAST),
    VarAssign(VarAssignAST),
    VarRefAssign(VarRefAssignAST),
    VarRef(VarRefAST),
    FuncDef(FuncDefAST),
    FuncCall(FuncCallAST),
    If(IfAST),
    IfEq(IfEqAST),
    ForIn(ForInAST),
    Block(BlockAST),
    Statement(StatementAST),
}

/// The models of a sequence of nodes.
pub open spec fn models(nodes: Seq<Node>) -> Seq<Tree>
    decreases nodes,
{
    Seq::new(
        nodes.len(),
        |i: int|
            if 0 <= i < nodes.len() {
                nodes[i].model()
            } else {
                Tree::Block(Seq::empty())
            },
    )
}

/// The character sequences of a sequence of names.
pub open spec fn names(strings: Seq<String>) -> Seq<Seq<char>> {
    Seq::new(strings.len(), |i: int| strings[i]@)
}

/// A copy of a list of names.
pub fn duplicate_names(strings: &Vec<String>) -> (r: Vec<String>)
    ensures
        names(r@) == names(strings@),
{
    let mut r: Vec<String> = Vec::new();
    let mut i: usize = 0;
    while i < strings.len()
        invariant
            i <= strings.len(),
            r@.len() == i,
            forall|j: int| 0 <= j < i ==> r@[j]@ == strings@[j]@,
        decreases strings.len() - i,
    {
        r.push(strings[i].clone());
        i += 1;
    }
    assert(names(r@) =~= names(strings@));
    r
}

impl StatementAST {
    pub open spec fn model(&self) -> Tree
        decreases self,
    {
        Tree::Statement(Box::new(self.statement.model()))
    }

    pub fn new(statement: Box<Node>) -> (r: Self)
        ensures
            r.model() == Tree::Statement(Box::new(statement.model())),
    {
        StatementAST { statement }
    }

    pub fn duplicate(&self) -> (r: Self)
        ensures
            r.model() == self.model(),
        decreases self,
    {
        StatementAST { statement: Box::new(self.statement.duplicate()) }
    }
}

impl BlockAST {
    pub open spec fn model(&self) -> Tree
        decreases self,
    {
        Tree::Block(models(self.statements@))
    }

    pub fn new(statements: Vec<Node>) -> (r: Self)
        ensures
            r.model() == Tree::Block(models(statements@)),
    {
        BlockAST { statements }
    }

    pub fn duplicate(&self) -> (r: Self)
        ensures
            r.model() == self.model(),
        decreases self,
    {
        BlockAST { statements: duplicate_nodes(&self.statements) }
    }

    /// Emits the statements: the last one behind a `return` line.
    pub fn gen_statements<F: Func>(&self, env: &mut HeEnv<F>, code: &mut CppCode) -> (r: Result<
        (),
        HeError,
    >)
        requires
            old(env).wf(),
        ensures
            final(env).wf(),
            final(env)@.len() == old(env)@.len(),
            final(env).log() == old(env).log(),
            final(env)@ == emit_block(
                models(self.statements@),
                self.statements@.len(),
                old(env)@,
                old(code)@,
            ).env,
            final(code)@ == emit_block(
                models(self.statements@),
                self.statements@.len(),
                old(env)@,
                old(code)@,
            ).page,
            unit_outcome(r) == emit_block(
                models(self.statements@),
                self.statements@.len(),
                old(env)@,
                old(code)@,
            ).result,
        decreases self, 0nat,
    {
        let ghost start = env@;
        let ghost page = code@;
        let ghost items = models(self.statements@);
        let mut i: usize = 0;
        while i < self.statements.len()
            invariant
                i <= self.statements.len(),
                env.wf(),
                env@.len() == start.len(),
                env.log() == old(env).log(),
                start == old(env)@,
                page == old(code)@,
                items == models(self.statements@),
                emit_block(items, i as nat, start, page).result is Ok,
                emit_block(items, i as nat, start, page).env == env@,
                emit_block(items, i as nat, start, page).page == code@,
            decreases self.statements.len() - i,
        {
            assert(items[i as int] == self.statements@[i as int].model());
            if i + 1 == self.statements.len() {
                code.push_line("return");
                code.enter();
                match self.statements[i].gen_code(env, code) {
                    Ok(_) => {},
                    Err(e) => {
                        return Err(e);
                    },
                }
                code.leave();
            } else {
                match self.statements[i].gen_code(env, code) {
                    Ok(_) => {},
                    Err(e) => {
                        proof {
                            lemma_emit_block_stops(
                                items,
                                (i + 1) as nat,
                                items.len(),
                                start,
                                page,
                            );
                        }
                        return Err(e);
                    },
                }
            }
            i += 1;
        }
        Ok(())
    }
}

/// A copy of a list of nodes.
pub fn duplicate_nodes(nodes: &Vec<Node>) -> (r: Vec<Node>)
    ensures
        models(r@) == models(nodes@),
    decreases nodes,
{
    let mut r: Vec<Node> = Vec::new();
    let mut i: usize = 0;
    while i < nodes.len()
        invariant
            i <= nodes.len(),
            r@.len() == i,
            forall|j: int| 0 <= j < i ==> r@[j].model() == nodes@[j].model(),
        decreases nodes.len() - i,
    {
        r.push(nodes[i].duplicate());
        i += 1;
    }
    assert(models(r@) =~= models(nodes@));
    r
}

impl Node {
    /// The tree that the node stands for.
    pub open spec fn model(&self) -> Tree
        decreases self,
    {
        match self {
            Node::Value(n) => n.model(),
            Node::Var(n) => n.model(),
            Node::Expr(n) => n.model(),
            Node::OrExpr(n) => n.model(),
            Node::ArithmeticExpr(n) => n.model(),
            Node::EqualityExpr(n) => n.model(),
            Node::VarDef(n) => n.model(),
            Node::VarAssign(n) => n.model(),
            Node::VarRefAssign(n) => n.model(),
            Node::VarRef(n) => n.model(),
            Node::FuncDef(n) => n.model(),
            Node::FuncCall(n) => n.model(),
            Node::If(n) => n.model(),
            Node::IfEq(n) => n.model(),
            Node::ForIn(n) => n.model(),
            Node::Block(n) => n.model(),
            Node::Statement(n) => n.model(),
        }
    }

    /// A deep copy: a node that stands for the same tree.
    pub fn duplicate(&self) -> (r: Self)
        ensures
            r.model() == self.model(),
        decreases self,
    {
        match self {
            Node::Value(n) => Node::Value(n.duplicate()),
            Node::Var(n) => Node::Var(n.duplicate()),
            Node::Expr(n) => Node::Expr(n.duplicate()),
            Node::OrExpr(n) => Node::OrExpr(n.duplicate()),
            Node::ArithmeticExpr(n) => Node::ArithmeticExpr(n.duplicate()),
            Node::EqualityExpr(n) => Node::EqualityExpr(n.duplicate()),
            Node::VarDef(n) => Node::VarDef(n.duplicate()),
            Node::VarAssign(n) => Node::VarAssign(n.duplicate()),
            Node::VarRefAssign(n) => Node::VarRefAssign(n.duplicate()),
            Node::VarRef(n) => Node::VarRef(n.duplicate()),
            Node::FuncDef(n) => Node::FuncDef(n.duplicate()),
            Node::FuncCall(n) => Node::FuncCall(n.duplicate()),
            Node::If(n) => Node::If(n.duplicate()),
            Node::IfEq(n) => Node::IfEq(n.duplicate()),
            Node::ForIn(n) => Node::ForIn(n.duplicate()),
            Node::Block(n) => Node::Block(n.duplicate()),
            Node::Statement(n) => Node::Statement(n.duplicate()),
        }
    }
}

impl AST for StatementAST {
    open spec fn tree(&self) -> Tree {
        self.model()
    }

    fn eval<F: Func>(&self, env: &mut HeEnv<F>) -> (r: HeResult)
        decreases budget(old(env)@.len()), 1nat, self,
    {
        self.statement.eval(env)
    }

    fn gen_code<F: Func>(&self, env: &mut HeEnv<F>, code: &mut CppCode) -> (r: Result<(), HeError>)
        decreases self,
    {
        match self.statement.gen_code(env, code) {
            Ok(_) => {},
            Err(e) => return Err(e),
        }
        code.push_line(";");
        Ok(())
    }
}

impl AST for BlockAST {
    open spec fn tree(&self) -> Tree {
        self.model()
    }

    #[verifier::loop_isolation(false)]
    fn eval<F: Func>(&self, env: &mut HeEnv<F>) -> (r: HeResult)
        decreases budget(old(env)@.len()), 1nat, self,
    {
        let ghost start = env@;
        let ghost fuel = budget(env@.len());
        let ghost from = env.log();
        let ghost items = models(self.statements@);
        let mut last = Value::default();
        let ghost mut values: Seq<Seq<u32>> = Seq::empty();
        let mut i: usize = 0;
        while i < self.statements.len()
            invariant
                i <= self.statements.len(),
                env.wf(),
                env@.len() == start.len(),
                start == old(env)@,
                from == old(env).log(),
                extends(env.log(), from),
                fuel == budget(start.len()),
                items == models(self.statements@),
                last@ == last_or_empty(values),
                run_list(items, i as nat, start, fuel, env.log(), from.len()) == Some(
                    Listed {
                        env: env@,
                        result: Ok::<Seq<Seq<u32>>, crate::error::Fault>(values),
                        at: env.log().len(),
                    },
                ),
            decreases self.statements.len() - i,
        {
            let ghost before = env.log();
            let outcome = self.statements[i].eval(env);
            proof {
                lemma_list_extends(items, i as nat, start, fuel, before, from.len(), env.log());
                lemma_extends_chain(from, before, env.log());
            }
            match outcome {
                Ok(v) => {
                    proof {
                        values = values.push(v@);
                    }
                    last = v;
                },
                Err(e) => {
                    proof {
                        lemma_list_stops(
                            items,
                            (i + 1) as nat,
                            items.len(),
                            start,
                            fuel,
                            env.log(),
                            from.len(),
                        );
                    }
                    return Err(e);
                },
            }
            i += 1;
        }
        Ok(last)
    }

    fn gen_code<F: Func>(&self, env: &mut HeEnv<F>, code: &mut CppCode) -> (r: Result<(), HeError>)
        decreases self, 1nat,
    {
        code.push_line("[&]() {");
        code.enter();
        match self.gen_statements(env, code) {
            Ok(_) => {},
            Err(e) => return Err(e),
        }
        if self.statements.len() == 0 {
            code.push_line("return u8();");
        }
        code.leave();
        code.push_line("}()");
        Ok(())
    }
}

impl AST for Node {
    open spec fn tree(&self) -> Tree {
        self.model()
    }

    fn eval<F: Func>(&self, env: &mut HeEnv<F>) -> (r: HeResult)
        decreases budget(old(env)@.len()), 1nat, self,
    {
        match self {
            Node::Value(n) => n.eval(env),
            Node::Var(n) => n.eval(env),
            Node::Expr(n) => n.eval(env),
            Node::OrExpr(n) => n.eval(env),
            Node::ArithmeticExpr(n) => n.eval(env),
            Node::EqualityExpr(n) => n.eval(env),
            Node::VarDef(n) => n.eval(env),
            Node::VarAssign(n) => n.eval(env),
            Node::VarRefAssign(n) => n.eval(env),
            Node::VarRef(n) => n.eval(env),
            Node::FuncDef(n) => n.eval(env),
            Node::FuncCall(n) => n.eval(env),
            Node::If(n) => n.eval(env),
            Node::IfEq(n) => n.eval(env),
            Node::ForIn(n) => n.eval(env),
            Node::Block(n) => n.eval(env),
            Node::Statement(n) => n.eval(env),
        }
    }

    fn gen_code<F: Func>(&self, env: &mut HeEnv<F>, code: &mut CppCode) -> (r: Result<(), HeError>)
        decreases self,
    {
        match self {
            Node::Value(n) => n.gen_code(env, code),
            Node::Var(n) => n.gen_code(env, code),
            Node::Expr(n) => n.gen_code(env, code),
            Node::OrExpr(n) => n.gen_code(env, code),
            Node::ArithmeticExpr(n) => n.gen_code(env, code),
            Node::EqualityExpr(n) => n.gen_code(env, code),
            Node::VarDef(n) => n.gen_code(env, code),
            Node::VarAssign(n) => n.gen_code(env, code),
            Node::VarRefAssign(n) => n.gen_code(env, code),
            Node::VarRef(n) => n.gen_code(env, code),
            Node::FuncDef(n) => n.gen_code(env, code),
            Node::FuncCall(n) => n.gen_code(env, code),
            Node::If(n) => n.gen_code(env, code),
            Node::IfEq(n) => n.gen_code(env, code),
            Node::ForIn(n) => n.gen_code(env, code),
            Node::Block(n) => n.gen_code(env, code),
            Node::Statement(n) => n.gen_code(env, code),
        }
    }
}

impl View for Node {
    type V = Tree;

    open spec fn view(&self) -> Tree {
        self.model()
    }
}

} // verus!
