//! A tree-walking interpreter for a small expression-oriented language:
//! integers, booleans, identifiers, `let`/`return` statements, prefix and
//! infix operators, `if`/`else` expressions, and first-class functions with
//! closures.
//!
//! The pipeline is: source text -> [`lexer::Lexer`] -> tokens ->
//! [`parser::Parser`] -> [`ast::Program`] -> [`evaluator::Evaluator`] (with an
//! [`environment::Environment`]) -> [`object::Object`].
//!
//! Each stage carries a specification-level model over ghost mirrors of the
//! data (sequences, maps and plain values): the lexer is proved equal to a
//! spec-level scanner, the parser to a spec-level parser over that scanner's
//! token stream, the evaluator and environment to a spec-level big-step
//! semantics, and the printers to canonical renderers. Each behaviour is
//! stated once, mathematically, and the executable code is proved to
//! implement it.

pub mod ast;
pub mod environment;
pub mod errors;
pub mod evaluator;
pub mod lexer;
pub mod object;
pub mod parser;
pub mod text;
pub mod token;
