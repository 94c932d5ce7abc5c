//! The newer front-end of the language: source spans and line maps,
//! keywords, and the lexers and tokenizers that turn source text into
//! tokens and token trees.

pub mod codemap;
pub mod keywords;
pub mod token;
pub mod ast;
pub mod stmt;
pub mod char_lexer;
pub mod lex;
pub mod diagnostic;
pub mod lexer;
pub mod parser;
pub mod grammar;
