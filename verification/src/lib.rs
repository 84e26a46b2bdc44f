//! A front end for a small expression language: a tokenizer and a
//! recursive-descent parser that climbs operator precedence.
//!
//! Text becomes tokens in `lexer`, and tokens become a syntax tree in
//! `parser`. What the two compute is said by `lexer::lex` and by the
//! functions of `grammar`; `lexer_laws`, `grammar_laws` and `printing` hold
//! what is proved of them.
//!
//! Two things are kept out of the logic. What Unicode says of a character
//! is asked once, in `chars`, and travels with the character as a `Glyph`.
//! Numbers are kept as the literals that were written, so that nothing here
//! depends on floating-point arithmetic.

pub mod ast;
pub mod chars;
pub mod error;
pub mod grammar;
pub mod grammar_laws;
pub mod lexer;
pub mod lexer_laws;
pub mod parser;
pub mod printing;
pub mod text;
pub mod token;
