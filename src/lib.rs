//! A small dynamically typed scripting language: a lexer, a parser and a
//! tree-walking interpreter, each verified against a mathematical statement
//! of what it does.
use vstd::prelude::*;

pub mod ast;
pub mod builtin;
pub mod environment;
pub mod interpreter;
pub mod laws;
pub mod lexer;
pub mod parser;
pub mod scoping;
pub mod semantics;
pub mod text;
pub mod value;

pub use interpreter::{EvalError, Interpreter};
pub use value::{Exception, Value};

use interpreter::{eval_result_view, initial_machine, run_source};

verus! {

/// Runs a source text in a fresh interpreter that has no input.
pub fn eval(source: &str) -> (r: Result<Value, EvalError>)
    requires
        source@.len() <= isize::MAX,
    ensures
        eval_result_view(r) == run_source(source@, initial_machine(Seq::empty())).1,
{
    let mut interpreter = Interpreter::new();
    interpreter.eval(source)
}

} // verus!
