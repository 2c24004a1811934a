//! The interpreter core of a small scripting language whose only kind of
//! value is an ordered sequence of unsigned integers.
//!
//! A source text is parsed into a syntax tree. The tree is then evaluated
//! against an environment, or emitted as source text of a host language.

use vstd::prelude::*;
use vstd::string::StringExecFns;

pub mod ast;
pub mod cpp_code;
pub mod def;
pub mod emission;
pub mod env;
pub mod error;
pub mod grammar;
pub mod lexer;
pub mod parser;
pub mod roundtrip;
pub mod scoping;
pub mod semantics;
pub mod table;
pub mod text;
pub mod value;

pub use ast::{
    ArithmeticExprAST, ArithmeticExprType, BlockAST, EqualityExprAST, EqualityExprType, ExprAST,
    ForInAST, FuncCallAST, FuncDefAST, IfAST, IfEqAST, Node, OrExprAST, StatementAST, Tree,
    ValueAST, VarAST, VarAssignAST, VarDefAST, VarRefAST, VarRefAssignAST, AST,
};
pub use cpp_code::{CppCode, Page};
pub use def::{
    last_of, Builtin, CyberFunc, LenFunc, PrintFunc, ReadLineFunc, SPrintFunc, SliceFunc,
    TrimFunc,
};
pub use env::{Callee, Func, Function, HeEnv, HeEnvLayer, Scope, UserFunc, MAX_DEPTH};
pub use error::{Fault, HeError, HeResult};
pub use lexer::{is_alpha_or_underscore, Expected, Failure, ParseError};
pub use parser::{
    block_ast, equality_expr_ast, expr_ast, for_in_ast, identifier, if_eq_ast, statement_ast,
    value, value_expr_ast, var_assign_ast, var_ref_assign_ast,
};
pub use value::Value;

use emission::{emit, Emitted};
use env::{define, defined_here, extends};
use error::outcome_of;
use parser::parsed;
use semantics::{budget, run, Outcome};
use text::{trim_text, trimmed};

verus! {

/// The tree that a source text stands for: the block that it starts with,
/// where nothing but white space follows that block.
pub open spec fn program(source: Seq<char>) -> Result<Tree, Fault> {
    match grammar::block(source) {
        Err(e) => Err(Fault::Parse(e.rest)),
        Ok((tree, rest)) => if trimmed(rest).len() == 0 {
            Ok(tree)
        } else {
            Err(Fault::Parse(trimmed(rest)))
        },
    }
}

/// Parses a whole source text.
pub fn parse(input: &str) -> (r: Result<Node, HeError>)
    ensures
        match r {
            Ok(node) => program(input@) == Ok::<Tree, Fault>(node.model()),
            Err(e) => program(input@) == Err::<Tree, Fault>(e@),
        },
{
    match block_ast(input) {
        Err(e) => Err(HeError::Parse(e.rest.to_owned())),
        Ok((rest, ast)) => {
            let residue = trim_text(rest);
            if !residue.is_empty() {
                return Err(HeError::Parse(residue.to_owned()));
            }
            Ok(ast)
        },
    }
}

/// Parses a source text and evaluates it. A text that does not parse leaves
/// the environment as it is. Value and environment are those of `run` on
/// the log that the evaluation leaves: the log gains the calls of user's
/// functions whose arguments did not tell their result, each with what was
/// handed to it and what came back.
pub fn eval<F: Func>(input: &str, env: &mut HeEnv<F>) -> (r: HeResult)
    requires
        old(env).wf(),
    ensures
        final(env).wf(),
        final(env)@.len() == old(env)@.len(),
        extends(final(env).log(), old(env).log()),
        match program(input@) {
            Err(e) => final(env)@ == old(env)@ && final(env).log() == old(env).log()
                && outcome_of(r) == Err::<Seq<u32>, Fault>(e),
            Ok(tree) => run(
                tree,
                old(env)@,
                budget(old(env)@.len()),
                final(env).log(),
                old(env).log().len(),
            ) == Some(
                Outcome { env: final(env)@, result: outcome_of(r), at: final(env).log().len() },
            ),
        },
{
    let ast = match parse(input) {
        Ok(ast) => ast,
        Err(e) => return Err(e),
    };
    ast.eval(env)
}

/// The model of emitted text or an error.
pub open spec fn text_outcome(r: Result<String, HeError>) -> Result<Seq<char>, Fault> {
    match r {
        Ok(s) => Ok(s@),
        Err(e) => Err(e@),
    }
}

/// The text of a finished emission, or the error that stopped it.
pub open spec fn emitted_text<F>(e: Emitted<F>) -> Result<Seq<char>, Fault> {
    match e.result {
        Ok(_) => Ok(e.page.code),
        Err(f) => Err(f),
    }
}

/// Parses a source text and emits it into an empty buffer. Returns the
/// emitted text. A text that does not parse leaves the environment as it
/// is.
pub fn gen_code<F: Func>(input: &str, env: &mut HeEnv<F>) -> (r: Result<String, HeError>)
    requires
        old(env).wf(),
    ensures
        final(env).wf(),
        final(env)@.len() == old(env)@.len(),
        final(env).log() == old(env).log(),
        match program(input@) {
            Err(e) => final(env)@ == old(env)@ && text_outcome(r) == Err::<Seq<char>, Fault>(e),
            Ok(tree) => {
                let e = emit(tree, old(env)@, Page { code: Seq::empty(), tabs: 0 });
                final(env)@ == e.env && text_outcome(r) == emitted_text(e)
            },
        },
{
    let ast = match parse(input) {
        Ok(ast) => ast,
        Err(e) => return Err(e),
    };
    let mut code = CppCode::default();
    match ast.gen_code(env, &mut code) {
        Ok(_) => {},
        Err(e) => return Err(e),
    }
    Ok(code.code)
}

/// The environment after the function `name` was registered, and whether
/// a function of that name stood in the way.
pub open spec fn registered<F>(
    state: (Seq<Scope<F>>, Option<Fault>),
    name: Seq<char>,
    func: Callee<F>,
) -> (Seq<Scope<F>>, Option<Fault>) {
    if state.1 is Some {
        state
    } else if defined_here(state.0, name) {
        (state.0, Some(Fault::DuplicateFunctionDefinition(name)))
    } else {
        (define(state.0, name, func), None)
    }
}

/// The environment with the library registered: `readline`, `print` and
/// `sprint`, which are the caller's, then `cyber`, `trim`, `len` and
/// `slice`, in this order and up to the first whose name is taken.
pub open spec fn with_library<F>(env: Seq<Scope<F>>, readline: F, print: F, sprint: F) -> (
    Seq<Scope<F>>,
    Option<Fault>,
) {
    let s1 = registered((env, None), "readline"@, Callee::Native(readline));
    let s2 = registered(s1, "print"@, Callee::Native(print));
    let s3 = registered(s2, "sprint"@, Callee::Native(sprint));
    let s4 = registered(s3, "cyber"@, Callee::Builtin(Builtin::Cyber(CyberFunc)));
    let s5 = registered(s4, "trim"@, Callee::Builtin(Builtin::Trim(TrimFunc)));
    let s6 = registered(s5, "len"@, Callee::Builtin(Builtin::Len(LenFunc)));
    registered(s6, "slice"@, Callee::Builtin(Builtin::Slice(SliceFunc)))
}

/// On a fresh environment the registration succeeds and binds all seven
/// names, and no variable. A second registration fails: the first name is
/// taken.
pub proof fn lemma_library_on_fresh<F>(readline: F, print: F, sprint: F)
    ensures
        ({
            let fresh = seq![env::empty_scope::<F>()];
            let (after, failure) = with_library(fresh, readline, print, sprint);
            &&& failure is None
            &&& after.len() == 1
            &&& after[0].vars == Map::<Seq<char>, Seq<u32>>::empty()
            &&& env::lookup_func(after, "readline"@) == Some(Callee::Native(readline))
            &&& env::lookup_func(after, "print"@) == Some(Callee::Native(print))
            &&& env::lookup_func(after, "sprint"@) == Some(Callee::Native(sprint))
            &&& env::lookup_func(after, "cyber"@) == Some(
                Callee::<F>::Builtin(Builtin::Cyber(CyberFunc)),
            )
            &&& env::lookup_func(after, "trim"@) == Some(
                Callee::<F>::Builtin(Builtin::Trim(TrimFunc)),
            )
            &&& env::lookup_func(after, "len"@) == Some(Callee::<F>::Builtin(Builtin::Len(LenFunc)))
            &&& env::lookup_func(after, "slice"@) == Some(
                Callee::<F>::Builtin(Builtin::Slice(SliceFunc)),
            )
            &&& with_library(after, readline, print, sprint) == (
                after,
                Some(Fault::DuplicateFunctionDefinition("readline"@)),
            )
        }),
{
    reveal_strlit("readline");
    reveal_strlit("print");
    reveal_strlit("sprint");
    reveal_strlit("cyber");
    reveal_strlit("trim");
    reveal_strlit("len");
    reveal_strlit("slice");
    reveal_with_fuel(env::func_layer, 2);
    assert("readline"@.len() == 8 && "print"@.len() == 5 && "sprint"@.len() == 6);
    assert("cyber"@.len() == 5 && "trim"@.len() == 4 && "len"@.len() == 3 && "slice"@.len() == 5);
    assert("print"@[0] == 'p' && "cyber"@[0] == 'c' && "slice"@[0] == 's');
    let fresh = seq![env::empty_scope::<F>()];
    let s1 = registered((fresh, None), "readline"@, Callee::Native(readline));
    let s2 = registered(s1, "print"@, Callee::Native(print));
    let s3 = registered(s2, "sprint"@, Callee::Native(sprint));
    let s4 = registered(s3, "cyber"@, Callee::Builtin(Builtin::Cyber(CyberFunc)));
    let s5 = registered(s4, "trim"@, Callee::Builtin(Builtin::Trim(TrimFunc)));
    let s6 = registered(s5, "len"@, Callee::Builtin(Builtin::Len(LenFunc)));
    let s7 = registered(s6, "slice"@, Callee::Builtin(Builtin::Slice(SliceFunc)));
    assert(fresh.last() == fresh[0]);
    assert(s1.1 is None && s1.0.len() == 1);
    assert(s1.0.last() == s1.0[0]);
    assert(s2.1 is None && s2.0.len() == 1);
    assert(s2.0.last() == s2.0[0]);
    assert(s3.1 is None && s3.0.len() == 1);
    assert(s3.0.last() == s3.0[0]);
    assert(s4.1 is None && s4.0.len() == 1);
    assert(s4.0.last() == s4.0[0]);
    assert(s5.1 is None && s5.0.len() == 1);
    assert(s5.0.last() == s5.0[0]);
    assert(s6.1 is None && s6.0.len() == 1);
    assert(s6.0.last() == s6.0[0]);
    assert(s7.1 is None && s7.0.len() == 1);
    assert(s7.0.last() == s7.0[0]);
}

/// Registers the library in the innermost layer. The functions that read
/// and print are the caller's: the library computes what they print and
/// what they return (`ReadLineFunc`, `PrintFunc`, `SPrintFunc`), the
/// caller's functions do the reading and the printing. It stops at the
/// first name that is taken in that layer.
pub fn init_env<F: Func>(env: &mut HeEnv<F>, readline: F, print: F, sprint: F) -> (r: HeResult)
    requires
        old(env).wf(),
    ensures
        final(env).wf(),
        final(env)@.len() == old(env)@.len(),
        final(env).log() == old(env).log(),
        final(env)@ == with_library(old(env)@, readline, print, sprint).0,
        match with_library(old(env)@, readline, print, sprint).1 {
            Some(e) => outcome_of(r) == Err::<Seq<u32>, Fault>(e),
            None => outcome_of(r) == Ok::<Seq<u32>, Fault>(Seq::empty()),
        },
{
    match env.set_func(String::from_str("readline"), Function::Native(readline)) {
        Ok(_) => {},
        Err(e) => return Err(e),
    }
    match env.set_func(String::from_str("print"), Function::Native(print)) {
        Ok(_) => {},
        Err(e) => return Err(e),
    }
    match env.set_func(String::from_str("sprint"), Function::Native(sprint)) {
        Ok(_) => {},
        Err(e) => return Err(e),
    }
    match env.set_func(String::from_str("cyber"), Function::Builtin(Builtin::Cyber(CyberFunc))) {
        Ok(_) => {},
        Err(e) => return Err(e),
    }
    match env.set_func(String::from_str("trim"), Function::Builtin(Builtin::Trim(TrimFunc))) {
        Ok(_) => {},
        Err(e) => return Err(e),
    }
    match env.set_func(String::from_str("len"), Function::Builtin(Builtin::Len(LenFunc))) {
        Ok(_) => {},
        Err(e) => return Err(e),
    }
    match env.set_func(String::from_str("slice"), Function::Builtin(Builtin::Slice(SliceFunc))) {
        Ok(_) => {},
        Err(e) => return Err(e),
    }
    Ok(Value::default())
}

} // verus!
