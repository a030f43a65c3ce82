//! epiqs: a small Lisp-like language whose programs are built from tagged
//! pairs ("piqs").  The library holds the lexer, the parser, the evaluator
//! (the "walker") and the printer, each with a specification.

pub mod util;
pub mod text;
pub mod vm;
pub mod lexer;
pub mod parser;
pub mod walker;
pub mod printer;
pub mod evaluator;
