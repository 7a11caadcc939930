//! The read-eval-print line: parsing a line and transpiling it; the
//! surrounding input loop and history live with the driver.
use crate::parser::parse_repl;
use crate::transpiler::transpile::Transpiler;
use vstd::prelude::*;

verus! {

pub struct Repl {}

impl Repl {
    pub fn new() -> (r: Self) {
        Repl {  }
    }

    /// Evaluates one line: parses it and renders the transpiled, trimmed
    /// text; a line that does not parse evaluates to the empty string.
    pub fn eval(input: &str, transpiler: Transpiler) -> (r: String) {
        match parse_repl(input) {
            Ok(ast) => transpiler.transpile_ast(ast),
            Err(_) => String::new(),
        }
    }
}

} // verus!
