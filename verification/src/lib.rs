//! A verified interpreter for a tape-based, bracket-delimited instruction
//! language: eight single-character commands act on a growable tape of byte
//! cells, with loops delimited by `[` and `]`.
//!
//! The crate is split into:
//! - [`ast`]: the instruction tree and error types, with their ghost views;
//! - [`parser`]: the compiler from character sequences to instruction trees,
//!   specified against a single-pass bracket scan;
//! - [`semantics`]: a fuel-indexed big-step specification of execution;
//! - [`laws`]: the bracket-matching and execution properties the library
//!   promises, proved against those specifications;
//! - [`vm`]: the executable virtual machine, proved to agree with the
//!   specification in [`semantics`].

pub mod ast;
pub mod laws;
pub mod parser;
pub mod semantics;
pub mod vm;
