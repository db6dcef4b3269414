//! Core of a compiler for a small C-like teaching language: the symbol
//! table and its scoping rules, the type rules for declarations and
//! expressions, constant folding of the operators, the ILOC code buffer
//! with its deferred ("promised") blocks, and the error catalogue with its
//! exit codes.
use vstd::prelude::*;

pub mod ast;
pub mod decimal;
pub mod error;
pub mod floats;
pub mod folding;
pub mod instructions;
pub mod scope;
pub mod semantics;
pub mod text;

verus! {

} // verus!
