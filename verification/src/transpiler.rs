//! The alternate transpilation backend: emits Haskell source for a
//! secondary toolchain.
pub mod transpile;
