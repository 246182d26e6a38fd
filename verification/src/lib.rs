//! A small interpreter for the untyped lambda calculus.
//!
//! The pipeline has three stages: the lexer turns a source string into a
//! sequence of position-annotated tokens, the parser turns the tokens into an
//! expression tree, and the evaluator rewrites the tree to its beta-normal
//! form by normal-order reduction.  Each stage carries a full functional
//! specification, stated over ghost models of the data it works on.

pub mod ast;
pub mod eval;
pub mod evaluator;
pub mod lexer;
pub mod parser;
