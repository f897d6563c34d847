//! An interpreter core for a small expression language with multiple dispatch
//! over a structural type lattice: source text is normalised, split into
//! logical lines, parsed by precedence into a tree, lowered to labelled
//! instructions and run by a register machine that picks each method by the
//! types of its arguments.

pub mod chars;
pub mod error;
pub mod functions;
pub mod instructions;
pub mod laws;
pub mod lexer;
pub mod lowering;
pub mod methods;
pub mod namespace;
pub mod nodes;
pub mod parser;
pub mod number;
pub mod patterns;
pub mod pratt;
pub mod range;
pub mod runtime;
pub mod statements;
pub mod stdlib;
pub mod string;
pub mod tokens;
pub mod tree;
pub mod types;
pub mod value;
