//! The expression tree: an algebraic type with literal, unary, binary and
//! grouping nodes. Each non-leaf node owns its children; a tree is built
//! bottom-up by the parser and never mutated afterwards.
//!
//! `Expr` is the executable tree; `ExprV` is its mathematical view, built
//! from token views, so that specifications can state what the parser
//! returns.

use vstd::prelude::*;

use crate::token::{Token, TokenV};

verus! {

/// One node of the expression tree.
#[derive(Debug, PartialEq)]
pub enum Expr {
    /// A literal: a number, string, `true`, `false` or `nil` token.
    Literal { val: Token },
    /// A prefix operator applied to an operand.
    Unary { op: Token, expr: Box<Expr> },
    /// An infix operator applied to two operands.
    Binary { left: Box<Expr>, op: Token, right: Box<Expr> },
    /// A parenthesized expression.
    Grouping { expr: Box<Expr> },
}

/// The mathematical view of an expression tree.
pub enum ExprV {
    Literal { val: TokenV },
    Unary { op: TokenV, expr: Box<ExprV> },
    Binary { left: Box<ExprV>, op: TokenV, right: Box<ExprV> },
    Grouping { expr: Box<ExprV> },
}

/// The view of a tree: the same shape, with each token replaced by its view.
pub open spec fn expr_view(e: Expr) -> ExprV
    decreases e,
{
    match e {
        Expr::Literal { val } => ExprV::Literal { val: val@ },
        Expr::Unary { op, expr } => ExprV::Unary {
            op: op@,
            expr: Box::new(expr_view(*expr)),
        },
        Expr::Binary { left, op, right } => ExprV::Binary {
            left: Box::new(expr_view(*left)),
            op: op@,
            right: Box::new(expr_view(*right)),
        },
        Expr::Grouping { expr } => ExprV::Grouping { expr: Box::new(expr_view(*expr)) },
    }
}

} // verus!
