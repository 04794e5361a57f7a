//! The lexing core of a grammar-constrained generator: a set of lexeme
//! patterns is driven byte by byte, and each step decides whether a lexeme
//! has ended, whether scanning goes on, or whether no lexeme can match.
use vstd::prelude::*;

pub mod engine;
pub mod laws;
pub mod lexer;
pub mod quote;
pub mod state;
pub mod vob;

verus! {

} // verus!
