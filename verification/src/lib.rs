//! Parsers for the Kon language.
use vstd::prelude::*;

pub mod ast;
pub mod expr_parser;
pub mod kon_parser;
pub mod konc_parser;
pub mod laws;
pub mod shape;
pub mod syntax;
pub mod text;

verus! {
} // verus!
