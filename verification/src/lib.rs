//! A signature compiler for kernel entry points.
//!
//! The library reads compact, C-style declarations of the form
//! `<number>: <c-type> <name>(<c-type> <name>, ...)` and emits, for each
//! declaration, the source text of a typed wrapper function that marshals
//! its arguments into machine words and dispatches to the fixed-arity
//! invocation primitive matching the parameter count.

pub mod tokens;
pub mod ctypes;
pub mod numbers;
pub mod parser;
pub mod mapper;
pub mod codegen;

pub use codegen::wrap_syscall;
