//! Lexical analysis for the Lox scripting language: the token model, the
//! reserved words, the scanner, and the expression tree with its visitors.
//!
//! The scanner reads the UTF-8 bytes of a source text one at a time.  What it
//! produces is fixed by the mathematical model in [`grammar`]; every
//! executable function is proved against that model.

pub mod token;
pub mod logger;
pub mod grammar;
pub mod text;
pub mod scanner;
pub mod ast;
pub mod driver;
pub mod laws;
