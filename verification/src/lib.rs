//! A tree-walking interpreter core for a small statically typed scripting
//! language: lowering of source text to an instruction tree, an evaluator
//! over that tree, and error reporting with source markers.

pub mod branch;
pub mod builtin;
pub mod class;
pub mod derivation;
pub mod error;
pub mod expression;
pub mod for_loop;
pub mod function;
pub mod grammar;
pub mod heap;
pub mod host;
pub mod instruction;
pub mod machine;
pub mod operation;
pub mod parser;
pub mod session;
pub mod text;
pub mod token;
pub mod variable;
pub mod while_loop;

pub use crate::session::Session;

use vstd::prelude::*;

verus! {

/// How many calls may be in progress at once.
pub const FUNCTION_CALL_LIMIT: usize = 1000;

} // verus!
