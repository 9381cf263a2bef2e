//! An accumulator machine: a small line-oriented instruction language, a
//! builder that turns source lines into a checked program, an execution
//! engine over a typed memory model, and a debugger session with
//! breakpoints and a playground.
pub mod base;
pub mod builder;
pub mod instructions;
pub mod keyed;
pub mod memory;
pub mod parser;
pub mod runtime;
pub mod session;
