//! A compiler backend for the Firework language: it parses source text,
//! lowers the abstract syntax tree into an SSA intermediate representation,
//! and runs the result through a small interpreter; a parallel backend
//! transpiles programs into Haskell source. The code generator and the
//! interpreter are specified by a functional model and verified against it,
//! and the guarantees of the generated code are proved in `semantics`.
pub mod codegen;
pub mod eval;
pub mod ir;
pub mod map;
pub mod parser;
pub mod repl;
pub mod semantics;
pub mod suggest;
pub mod text;
pub mod transpiler;
