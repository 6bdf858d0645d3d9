//! Code generation for Huff, an assembly language for the Ethereum Virtual Machine.
//!
//! The library expands the `MAIN` and `CONSTRUCTOR` macros of a resolved
//! contract tree into EVM bytecode, resolving constants, macro arguments and
//! label jumps, and wraps the result in a deployable artifact.
use vstd::prelude::*;

pub mod ast;
pub mod error;
pub mod opcodes;
pub mod push;
pub mod hexenc;
pub mod expand;
pub mod artifact;
pub mod codegen;

verus! {

} // verus!
