//! The printer: renders an expression tree in a fully parenthesized,
//! unambiguous textual form, suitable as a golden output for structural
//! tests. A literal renders as its textual value; `Unary` as
//! `( <op> <operand> )`; `Binary` as `( <left> <op> <right> )`; `Grouping`
//! as `( <inner> )`.

use vstd::prelude::*;
use vstd::string::*;

use crate::expression::{expr_view, Expr, ExprV};
use crate::token::token_text;

verus! {

/// The printed form of a tree. The printer is a pure function of the tree:
/// equal trees print as equal text.
pub open spec fn print_expr(e: ExprV) -> Seq<char>
    decreases e,
{
    match e {
        ExprV::Literal { val } => token_text(val),
        ExprV::Unary { op, expr } => "( "@ + token_text(op) + " "@ + print_expr(*expr) + " )"@,
        ExprV::Binary { left, op, right } => "( "@ + print_expr(*left) + " "@ + token_text(op)
            + " "@ + print_expr(*right) + " )"@,
        ExprV::Grouping { expr } => "( "@ + print_expr(*expr) + " )"@,
    }
}

/// Renders a tree; total over all trees, and proved to return exactly
/// [`print_expr`] of the tree's view.
pub fn ast_printer(expr: Expr) -> (r: String)
    ensures
        r@ == print_expr(expr_view(expr)),
    decreases expr,
{
    match expr {
        Expr::Literal { val } => val.text(),
        Expr::Unary { op, expr } => {
            let mut s = String::from_str("( ");
            s.append(op.text().as_str());
            s.append(" ");
            s.append(ast_printer(*expr).as_str());
            s.append(" )");
            s
        },
        Expr::Binary { left, op, right } => {
            let mut s = String::from_str("( ");
            s.append(ast_printer(*left).as_str());
            s.append(" ");
            s.append(op.text().as_str());
            s.append(" ");
            s.append(ast_printer(*right).as_str());
            s.append(" )");
            s
        },
        Expr::Grouping { expr } => {
            let mut s = String::from_str("( ");
            s.append(ast_printer(*expr).as_str());
            s.append(" )");
            s
        },
    }
}

} // verus!
