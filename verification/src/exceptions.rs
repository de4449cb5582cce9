//! The error taxonomy of the front end: lexical errors found while scanning,
//! and parse errors found while matching the grammar. Both enums carry plain
//! integers, so a specification can build and compare them directly.

use vstd::prelude::*;

verus! {

/// A lexical error. `line` is the 1-based line on which the error was
/// detected; `column` is the scanner's cursor position (in characters from
/// the start of the source) just after the offending input.
#[derive(Clone, Copy, Debug, PartialEq, Eq, Structural)]
pub enum LexError {
    /// A character that starts no token.
    UnexpectedChar { line: usize, column: usize },
    /// A string literal still open when the source ended.
    UnterminatedString { line: usize, column: usize },
}

/// A parse error. `line` is the line of the token at which the error was
/// detected (the last token's line when the input was exhausted).
#[derive(Clone, Copy, Debug, PartialEq, Eq, Structural)]
pub enum ParseError {
    /// No production of `primary` matches the current lookahead.
    ExpectedExpression { line: usize },
    /// A `(` group was not closed by `)`.
    UnclosedGrouping { line: usize },
}

} // verus!
