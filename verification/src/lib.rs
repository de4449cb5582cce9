//! Front end for a small expression language: a scanner that turns source
//! text into a token stream, a recursive-descent parser that turns the token
//! stream into an expression tree, and a printer that renders a tree in a
//! fully parenthesized form. Every function is specified against a
//! mathematical model of the scan and of the grammar, and verified.

pub mod ast_printer;
pub mod exceptions;
pub mod expression;
pub mod laws;
pub mod parser;
pub mod scanner;
pub mod token;
