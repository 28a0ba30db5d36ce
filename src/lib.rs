//! A small WebAssembly runtime: a decoder for a subset of the binary module format, and a
//! stack-machine interpreter for its integer instructions.
//!
//! The binary format is stated as spec functions over bytes (`grammar`), and the decoder is
//! proved to follow them exactly; `encoding` proves that decoding the binary form of a module
//! gives the module back. The interpreter is proved to follow a big-step semantics
//! (`runtime::run_seq`), and `typing` proves that well-typed bodies run to completion and
//! leave exactly their results.
use vstd::prelude::*;

pub mod leb128;
pub mod types;
pub mod instr;
pub mod module;
pub mod grammar;
pub mod decoder;
pub mod numeric;
pub mod runtime;
pub mod instance;
pub mod typing;
pub mod encoding;

verus! {

} // verus!
