//! The parser: recursive descent over a finalized token sequence, one
//! procedure per precedence level. The grammar, highest precedence last:
//!
//! ```text
//! expression -> equality
//! equality   -> comparison ( ( "!=" | "==" ) comparison )*
//! comparison -> term ( ( ">" | ">=" | "<" | "<=" ) term )*
//! term       -> factor ( ( "-" | "+" ) factor )*
//! factor     -> unary ( ( "/" | "*" ) unary )*
//! unary      -> ( "!" | "-" ) unary | primary
//! primary    -> NUMBER | STRING | "true" | "false" | "nil"
//!             | "(" expression ")"
//! ```
//!
//! Each level is specified by a recursive function over the token views
//! (`spec_expression` and friends), and each executable procedure is proved
//! to return exactly what its specification returns, including the position
//! where parsing stopped and the error cases: `ExpectedExpression` when no
//! `primary` production matches, `UnclosedGrouping` when a `(` has no `)`.
//!
//! Binary levels fold left, so `1 - 2 - 3` parses as `(1 - 2) - 3`; `unary`
//! is right-recursive, so `!!a` parses as `!(!a)`.

use vstd::prelude::*;

use crate::exceptions::ParseError;
use crate::expression::{expr_view, Expr, ExprV};
use crate::scanner::token_views;
use crate::token::{line_of, Token, TokenV};

verus! {

/// True of the operators of the `equality` level.
pub open spec fn is_equality_op(t: TokenV) -> bool {
    match t {
        TokenV::BangEqual { .. } | TokenV::EqualEqual { .. } => true,
        _ => false,
    }
}

/// True of the operators of the `comparison` level.
pub open spec fn is_comparison_op(t: TokenV) -> bool {
    match t {
        TokenV::Greater { .. } | TokenV::GreaterEqual { .. } | TokenV::Less { .. }
            | TokenV::LessEqual { .. } => true,
        _ => false,
    }
}

/// True of the operators of the `term` level.
pub open spec fn is_term_op(t: TokenV) -> bool {
    match t {
        TokenV::Minus { .. } | TokenV::Plus { .. } => true,
        _ => false,
    }
}

/// True of the operators of the `factor` level.
pub open spec fn is_factor_op(t: TokenV) -> bool {
    match t {
        TokenV::Slash { .. } | TokenV::Star { .. } => true,
        _ => false,
    }
}

/// True of the prefix operators of the `unary` level.
pub open spec fn is_unary_op(t: TokenV) -> bool {
    match t {
        TokenV::Bang { .. } | TokenV::Minus { .. } => true,
        _ => false,
    }
}

/// True of the tokens that `primary` accepts as a literal.
pub open spec fn is_literal_token(t: TokenV) -> bool {
    match t {
        TokenV::False { .. } | TokenV::True { .. } | TokenV::Nil { .. } | TokenV::Number {
            ..
        } | TokenV::Str { .. } => true,
        _ => false,
    }
}

/// True of an opening parenthesis.
pub open spec fn is_left_paren(t: TokenV) -> bool {
    match t {
        TokenV::LeftParen { .. } => true,
        _ => false,
    }
}

/// True of a closing parenthesis.
pub open spec fn is_right_paren(t: TokenV) -> bool {
    match t {
        TokenV::RightParen { .. } => true,
        _ => false,
    }
}

/// True of a semicolon.
pub open spec fn is_semicolon(t: TokenV) -> bool {
    match t {
        TokenV::Semicolon { .. } => true,
        _ => false,
    }
}

/// True of a keyword that starts a statement; synchronization stops in front
/// of one.
pub open spec fn is_sync_keyword(t: TokenV) -> bool {
    match t {
        TokenV::Class { .. } | TokenV::Fun { .. } | TokenV::For { .. } | TokenV::If { .. }
            | TokenV::Print { .. } | TokenV::Return { .. } | TokenV::Var { .. }
            | TokenV::While { .. } => true,
        _ => false,
    }
}

/// The line reported for a diagnostic at position `pos`: the line of the
/// token there, the line of the last token when the input is exhausted, and
/// line 1 when there are no tokens at all.
pub open spec fn line_at(ts: Seq<TokenV>, pos: int) -> usize {
    if 0 <= pos < ts.len() {
        line_of(ts[pos])
    } else if ts.len() > 0 {
        line_of(ts[ts.len() - 1])
    } else {
        1
    }
}

/// The result of one grammar rule: the expression built (or the error that
/// stopped it) and the position where parsing stopped.
pub struct ParseOut {
    pub result: Result<ExprV, ParseError>,
    pub next: int,
}

/// The number of tokens left at `pos`; the termination measure of the
/// grammar functions.
pub open spec fn rem(ts: Seq<TokenV>, pos: int) -> int {
    if 0 <= pos && pos <= ts.len() {
        ts.len() - pos
    } else {
        0
    }
}

/// The position an operand parse ends at, clamped so that it strictly
/// advances and stays within the sequence. Every operand rule consumes at
/// least one token on success, so for the executable parser the clamp is the
/// identity.
pub open spec fn advanced(ts: Seq<TokenV>, pos: int, next: int) -> int {
    if pos < 0 {
        pos
    } else {
        let lo = if next > pos {
            next
        } else {
            pos + 1
        };
        if lo > ts.len() {
            ts.len() as int
        } else {
            lo
        }
    }
}

/// `expression -> equality`.
pub open spec fn spec_expression(ts: Seq<TokenV>, pos: int) -> ParseOut
    decreases rem(ts, pos), 7int, 0int,
{
    spec_equality(ts, pos)
}

/// `equality -> comparison ( ( "!=" | "==" ) comparison )*`.
pub open spec fn spec_equality(ts: Seq<TokenV>, pos: int) -> ParseOut
    decreases rem(ts, pos), 6int, 1int,
{
    let first = spec_comparison(ts, pos);
    match first.result {
        Result::Err(_) => first,
        Result::Ok(left) => spec_equality_loop(ts, advanced(ts, pos, first.next), left),
    }
}

/// The left-associative operator fold of the `equality` level.
pub open spec fn spec_equality_loop(ts: Seq<TokenV>, pos: int, acc: ExprV) -> ParseOut
    decreases rem(ts, pos), 6int, 0int,
{
    if 0 <= pos < ts.len() && is_equality_op(ts[pos]) {
        let right = spec_comparison(ts, pos + 1);
        match right.result {
            Result::Err(e) => ParseOut { result: Result::Err(e), next: right.next },
            Result::Ok(r) => spec_equality_loop(
                ts,
                advanced(ts, pos, right.next),
                ExprV::Binary { left: Box::new(acc), op: ts[pos], right: Box::new(r) },
            ),
        }
    } else {
        ParseOut { result: Result::Ok(acc), next: pos }
    }
}

/// `comparison -> term ( ( ">" | ">=" | "<" | "<=" ) term )*`.
pub open spec fn spec_comparison(ts: Seq<TokenV>, pos: int) -> ParseOut
    decreases rem(ts, pos), 5int, 1int,
{
    let first = spec_term(ts, pos);
    match first.result {
        Result::Err(_) => first,
        Result::Ok(left) => spec_comparison_loop(ts, advanced(ts, pos, first.next), left),
    }
}

/// The left-associative operator fold of the `comparison` level.
pub open spec fn spec_comparison_loop(ts: Seq<TokenV>, pos: int, acc: ExprV) -> ParseOut
    decreases rem(ts, pos), 5int, 0int,
{
    if 0 <= pos < ts.len() && is_comparison_op(ts[pos]) {
        let right = spec_term(ts, pos + 1);
        match right.result {
            Result::Err(e) => ParseOut { result: Result::Err(e), next: right.next },
            Result::Ok(r) => spec_comparison_loop(
                ts,
                advanced(ts, pos, right.next),
                ExprV::Binary { left: Box::new(acc), op: ts[pos], right: Box::new(r) },
            ),
        }
    } else {
        ParseOut { result: Result::Ok(acc), next: pos }
    }
}

/// `term -> factor ( ( "-" | "+" ) factor )*`.
pub open spec fn spec_term(ts: Seq<TokenV>, pos: int) -> ParseOut
    decreases rem(ts, pos), 4int, 1int,
{
    let first = spec_factor(ts, pos);
    match first.result {
        Result::Err(_) => first,
        Result::Ok(left) => spec_term_loop(ts, advanced(ts, pos, first.next), left),
    }
}

/// The left-associative operator fold of the `term` level.
pub open spec fn spec_term_loop(ts: Seq<TokenV>, pos: int, acc: ExprV) -> ParseOut
    decreases rem(ts, pos), 4int, 0int,
{
    if 0 <= pos < ts.len() && is_term_op(ts[pos]) {
        let right = spec_factor(ts, pos + 1);
        match right.result {
            Result::Err(e) => ParseOut { result: Result::Err(e), next: right.next },
            Result::Ok(r) => spec_term_loop(
                ts,
                advanced(ts, pos, right.next),
                ExprV::Binary { left: Box::new(acc), op: ts[pos], right: Box::new(r) },
            ),
        }
    } else {
        ParseOut { result: Result::Ok(acc), next: pos }
    }
}

/// `factor -> unary ( ( "/" | "*" ) unary )*`.
pub open spec fn spec_factor(ts: Seq<TokenV>, pos: int) -> ParseOut
    decreases rem(ts, pos), 3int, 1int,
{
    let first = spec_unary(ts, pos);
    match first.result {
        Result::Err(_) => first,
        Result::Ok(left) => spec_factor_loop(ts, advanced(ts, pos, first.next), left),
    }
}

/// The left-associative operator fold of the `factor` level.
pub open spec fn spec_factor_loop(ts: Seq<TokenV>, pos: int, acc: ExprV) -> ParseOut
    decreases rem(ts, pos), 3int, 0int,
{
    if 0 <= pos < ts.len() && is_factor_op(ts[pos]) {
        let right = spec_unary(ts, pos + 1);
        match right.result {
            Result::Err(e) => ParseOut { result: Result::Err(e), next: right.next },
            Result::Ok(r) => spec_factor_loop(
                ts,
                advanced(ts, pos, right.next),
                ExprV::Binary { left: Box::new(acc), op: ts[pos], right: Box::new(r) },
            ),
        }
    } else {
        ParseOut { result: Result::Ok(acc), next: pos }
    }
}

/// `unary -> ( "!" | "-" ) unary | primary`; right-recursive.
pub open spec fn spec_unary(ts: Seq<TokenV>, pos: int) -> ParseOut
    decreases rem(ts, pos), 2int, 0int,
{
    if 0 <= pos < ts.len() && is_unary_op(ts[pos]) {
        let operand = spec_unary(ts, pos + 1);
        match operand.result {
            Result::Err(e) => ParseOut { result: Result::Err(e), next: operand.next },
            Result::Ok(e) => ParseOut {
                result: Result::Ok(ExprV::Unary { op: ts[pos], expr: Box::new(e) }),
                next: operand.next,
            },
        }
    } else {
        spec_primary(ts, pos)
    }
}

/// `primary -> literal | "(" expression ")"`. A lookahead matched by no
/// production is an `ExpectedExpression` error that consumes nothing; a
/// group whose `)` is missing is an `UnclosedGrouping` error that consumes
/// the offending token when there is one.
pub open spec fn spec_primary(ts: Seq<TokenV>, pos: int) -> ParseOut
    decreases rem(ts, pos), 1int, 0int,
{
    if 0 <= pos < ts.len() && is_literal_token(ts[pos]) {
        ParseOut { result: Result::Ok(ExprV::Literal { val: ts[pos] }), next: pos + 1 }
    } else if 0 <= pos < ts.len() && is_left_paren(ts[pos]) {
        let inner = spec_expression(ts, pos + 1);
        match inner.result {
            Result::Err(e) => ParseOut { result: Result::Err(e), next: inner.next },
            Result::Ok(e) => {
                if 0 <= inner.next < ts.len() && is_right_paren(ts[inner.next]) {
                    ParseOut {
                        result: Result::Ok(ExprV::Grouping { expr: Box::new(e) }),
                        next: inner.next + 1,
                    }
                } else if 0 <= inner.next < ts.len() {
                    ParseOut {
                        result: Result::Err(
                            ParseError::UnclosedGrouping { line: line_at(ts, inner.next) },
                        ),
                        next: inner.next + 1,
                    }
                } else {
                    ParseOut {
                        result: Result::Err(
                            ParseError::UnclosedGrouping { line: line_at(ts, inner.next) },
                        ),
                        next: inner.next,
                    }
                }
            },
        }
    } else {
        ParseOut { result: Result::Err(ParseError::ExpectedExpression { line: line_at(ts, pos) }),
            next: pos,
        }
    }
}

/// The position where synchronization stops, starting from the token after
/// `pos`: just past a semicolon, in front of a statement keyword, or at the
/// end of the input.
pub open spec fn sync_spec(ts: Seq<TokenV>, pos: int) -> int {
    sync_loop(
        ts,
        if 0 <= pos < ts.len() {
            pos + 1
        } else {
            pos
        },
    )
}

/// The scan of the synchronization loop from position `p`.
pub open spec fn sync_loop(ts: Seq<TokenV>, p: int) -> int
    decreases rem(ts, p),
{
    if !(0 <= p < ts.len()) {
        p
    } else if p >= 1 && is_semicolon(ts[p - 1]) {
        p
    } else if is_sync_keyword(ts[p]) {
        p
    } else {
        sync_loop(ts, p + 1)
    }
}

/// The view of a parse result: the tree's view on success, the error itself
/// on failure.
pub open spec fn result_view(r: Result<Expr, ParseError>) -> Result<ExprV, ParseError> {
    match r {
        Result::Ok(e) => Result::Ok(expr_view(e)),
        Result::Err(x) => Result::Err(x),
    }
}

/// The diagnostic line for position `pos`; decides [`line_at`].
fn err_line(tokens: &Vec<Token>, pos: usize) -> (l: usize)
    ensures
        l == line_at(token_views(tokens@), pos as int),
{
    if pos < tokens.len() {
        tokens[pos].line()
    } else if tokens.len() > 0 {
        tokens[tokens.len() - 1].line()
    } else {
        1
    }
}

/// `primary`, executable; returns what [`spec_primary`] returns.
#[verifier::rlimit(50)]
fn primary(tokens: &Vec<Token>, pos: usize) -> (r: (Result<Expr, ParseError>, usize))
    requires
        pos <= tokens@.len(),
    ensures
        ({
            let out = spec_primary(token_views(tokens@), pos as int);
            &&& result_view(r.0) == out.result
            &&& r.1 as int == out.next
            &&& pos <= r.1 <= tokens@.len()
            &&& (r.0 matches Result::Ok(_) ==> pos < r.1)
        }),
    decreases tokens@.len() - pos, 1int, 0int,
{
    if pos < tokens.len() {
        let t = &tokens[pos];
        match t {
            Token::False { .. } | Token::True { .. } | Token::Nil { .. } | Token::Number {
                ..
            } | Token::Str { .. } => {
                return (Result::Ok(Expr::Literal { val: t.clone() }), pos + 1);
            },
            Token::LeftParen { .. } => {
                let inner = expression(tokens, pos + 1);
                match inner.0 {
                    Result::Err(e) => {
                        return (Result::Err(e), inner.1);
                    },
                    Result::Ok(e) => {
                        if inner.1 < tokens.len() {
                            let t2 = &tokens[inner.1];
                            if matches!(t2, Token::RightParen { .. }) {
                                return (
                                    Result::Ok(Expr::Grouping { expr: Box::new(e) }),
                                    inner.1 + 1,
                                );
                            } else {
                                return (
                                    Result::Err(
                                        ParseError::UnclosedGrouping { line: t2.line() },
                                    ),
                                    inner.1 + 1,
                                );
                            }
                        } else {
                            return (
                                Result::Err(
                                    ParseError::UnclosedGrouping {
                                        line: err_line(tokens, inner.1),
                                    },
                                ),
                                inner.1,
                            );
                        }
                    },
                }
            },
            _ => {},
        }
    }
    (Result::Err(ParseError::ExpectedExpression { line: err_line(tokens, pos) }), pos)
}

/// `unary`, executable; returns what [`spec_unary`] returns.
#[verifier::rlimit(50)]
fn unary(tokens: &Vec<Token>, pos: usize) -> (r: (Result<Expr, ParseError>, usize))
    requires
        pos <= tokens@.len(),
    ensures
        ({
            let out = spec_unary(token_views(tokens@), pos as int);
            &&& result_view(r.0) == out.result
            &&& r.1 as int == out.next
            &&& pos <= r.1 <= tokens@.len()
            &&& (r.0 matches Result::Ok(_) ==> pos < r.1)
        }),
    decreases tokens@.len() - pos, 2int, 0int,
{
    if pos < tokens.len() {
        let t = &tokens[pos];
        if matches!(t, Token::Bang { .. } | Token::Minus { .. }) {
            let op = t.clone();
            let operand = unary(tokens, pos + 1);
            match operand.0 {
                Result::Err(e) => {
                    return (Result::Err(e), operand.1);
                },
                Result::Ok(e) => {
                    return (
                        Result::Ok(Expr::Unary { op, expr: Box::new(e) }),
                        operand.1,
                    );
                },
            }
        }
    }
    primary(tokens, pos)
}

/// `factor`, executable; returns what [`spec_factor`] returns.
#[verifier::rlimit(50)]
fn factor(tokens: &Vec<Token>, pos: usize) -> (r: (Result<Expr, ParseError>, usize))
    requires
        pos <= tokens@.len(),
    ensures
        ({
            let out = spec_factor(token_views(tokens@), pos as int);
            &&& result_view(r.0) == out.result
            &&& r.1 as int == out.next
            &&& pos <= r.1 <= tokens@.len()
            &&& (r.0 matches Result::Ok(_) ==> pos < r.1)
        }),
    decreases tokens@.len() - pos, 3int, 1int,
{
    let ghost ts = token_views(tokens@);
    let first = unary(tokens, pos);
    let mut expr = match first.0 {
        Result::Ok(e) => e,
        Result::Err(e) => {
            return (Result::Err(e), first.1);
        },
    };
    let mut p = first.1;
    loop
        invariant
            pos <= tokens@.len(),
            ts == token_views(tokens@),
            pos < p <= tokens@.len(),
            spec_factor(ts, pos as int) == spec_factor_loop(ts, p as int, expr_view(expr)),
        decreases tokens@.len() - p, 3int, 0int,
    {
        if p >= tokens.len() {
            return (Result::Ok(expr), p);
        }
        let t = &tokens[p];
        if !matches!(t, Token::Slash { .. } | Token::Star { .. }) {
            return (Result::Ok(expr), p);
        }
        let op = t.clone();
        let right = unary(tokens, p + 1);
        match right.0 {
            Result::Err(e) => {
                return (Result::Err(e), right.1);
            },
            Result::Ok(r_expr) => {
                expr = Expr::Binary { left: Box::new(expr), op, right: Box::new(r_expr) };
                p = right.1;
            },
        }
    }
}

/// `term`, executable; returns what [`spec_term`] returns.
#[verifier::rlimit(50)]
fn term(tokens: &Vec<Token>, pos: usize) -> (r: (Result<Expr, ParseError>, usize))
    requires
        pos <= tokens@.len(),
    ensures
        ({
            let out = spec_term(token_views(tokens@), pos as int);
            &&& result_view(r.0) == out.result
            &&& r.1 as int == out.next
            &&& pos <= r.1 <= tokens@.len()
            &&& (r.0 matches Result::Ok(_) ==> pos < r.1)
        }),
    decreases tokens@.len() - pos, 4int, 1int,
{
    let ghost ts = token_views(tokens@);
    let first = factor(tokens, pos);
    let mut expr = match first.0 {
        Result::Ok(e) => e,
        Result::Err(e) => {
            return (Result::Err(e), first.1);
        },
    };
    let mut p = first.1;
    loop
        invariant
            pos <= tokens@.len(),
            ts == token_views(tokens@),
            pos < p <= tokens@.len(),
            spec_term(ts, pos as int) == spec_term_loop(ts, p as int, expr_view(expr)),
        decreases tokens@.len() - p, 4int, 0int,
    {
        if p >= tokens.len() {
            return (Result::Ok(expr), p);
        }
        let t = &tokens[p];
        if !matches!(t, Token::Minus { .. } | Token::Plus { .. }) {
            return (Result::Ok(expr), p);
        }
        let op = t.clone();
        let right = factor(tokens, p + 1);
        match right.0 {
            Result::Err(e) => {
                return (Result::Err(e), right.1);
            },
            Result::Ok(r_expr) => {
                expr = Expr::Binary { left: Box::new(expr), op, right: Box::new(r_expr) };
                p = right.1;
            },
        }
    }
}

/// `comparison`, executable; returns what [`spec_comparison`] returns.
#[verifier::rlimit(50)]
fn comparison(tokens: &Vec<Token>, pos: usize) -> (r: (Result<Expr, ParseError>, usize))
    requires
        pos <= tokens@.len(),
    ensures
        ({
            let out = spec_comparison(token_views(tokens@), pos as int);
            &&& result_view(r.0) == out.result
            &&& r.1 as int == out.next
            &&& pos <= r.1 <= tokens@.len()
            &&& (r.0 matches Result::Ok(_) ==> pos < r.1)
        }),
    decreases tokens@.len() - pos, 5int, 1int,
{
    let ghost ts = token_views(tokens@);
    let first = term(tokens, pos);
    let mut expr = match first.0 {
        Result::Ok(e) => e,
        Result::Err(e) => {
            return (Result::Err(e), first.1);
        },
    };
    let mut p = first.1;
    loop
        invariant
            pos <= tokens@.len(),
            ts == token_views(tokens@),
            pos < p <= tokens@.len(),
            spec_comparison(ts, pos as int) == spec_comparison_loop(ts, p as int, expr_view(expr)),
        decreases tokens@.len() - p, 5int, 0int,
    {
        if p >= tokens.len() {
            return (Result::Ok(expr), p);
        }
        let t = &tokens[p];
        if !matches!(
            t,
            Token::Greater { .. } | Token::GreaterEqual { .. } | Token::Less { .. }
                | Token::LessEqual { .. },
        ) {
            return (Result::Ok(expr), p);
        }
        let op = t.clone();
        let right = term(tokens, p + 1);
        match right.0 {
            Result::Err(e) => {
                return (Result::Err(e), right.1);
            },
            Result::Ok(r_expr) => {
                expr = Expr::Binary { left: Box::new(expr), op, right: Box::new(r_expr) };
                p = right.1;
            },
        }
    }
}

/// `equality`, executable; returns what [`spec_equality`] returns.
#[verifier::rlimit(50)]
fn equality(tokens: &Vec<Token>, pos: usize) -> (r: (Result<Expr, ParseError>, usize))
    requires
        pos <= tokens@.len(),
    ensures
        ({
            let out = spec_equality(token_views(tokens@), pos as int);
            &&& result_view(r.0) == out.result
            &&& r.1 as int == out.next
            &&& pos <= r.1 <= tokens@.len()
            &&& (r.0 matches Result::Ok(_) ==> pos < r.1)
        }),
    decreases tokens@.len() - pos, 6int, 1int,
{
    let ghost ts = token_views(tokens@);
    let first = comparison(tokens, pos);
    let mut expr = match first.0 {
        Result::Ok(e) => e,
        Result::Err(e) => {
            return (Result::Err(e), first.1);
        },
    };
    let mut p = first.1;
    loop
        invariant
            pos <= tokens@.len(),
            ts == token_views(tokens@),
            pos < p <= tokens@.len(),
            spec_equality(ts, pos as int) == spec_equality_loop(ts, p as int, expr_view(expr)),
        decreases tokens@.len() - p, 6int, 0int,
    {
        if p >= tokens.len() {
            return (Result::Ok(expr), p);
        }
        let t = &tokens[p];
        if !matches!(t, Token::BangEqual { .. } | Token::EqualEqual { .. }) {
            return (Result::Ok(expr), p);
        }
        let op = t.clone();
        let right = comparison(tokens, p + 1);
        match right.0 {
            Result::Err(e) => {
                return (Result::Err(e), right.1);
            },
            Result::Ok(r_expr) => {
                expr = Expr::Binary { left: Box::new(expr), op, right: Box::new(r_expr) };
                p = right.1;
            },
        }
    }
}

/// `expression`, executable; returns what [`spec_expression`] returns.
fn expression(tokens: &Vec<Token>, pos: usize) -> (r: (Result<Expr, ParseError>, usize))
    requires
        pos <= tokens@.len(),
    ensures
        ({
            let out = spec_expression(token_views(tokens@), pos as int);
            &&& result_view(r.0) == out.result
            &&& r.1 as int == out.next
            &&& pos <= r.1 <= tokens@.len()
            &&& (r.0 matches Result::Ok(_) ==> pos < r.1)
        }),
    decreases tokens@.len() - pos, 7int, 0int,
{
    equality(tokens, pos)
}

/// Parser state: the finalized token sequence and one cursor into it. The
/// cursor never moves backwards and the sequence is never changed.
pub struct Parser {
    tokens: Vec<Token>,
    current: usize,
}

impl Parser {
    /// The views of the token sequence being parsed.
    pub closed spec fn toks(&self) -> Seq<TokenV> {
        token_views(self.tokens@)
    }

    /// The cursor.
    pub closed spec fn pos(&self) -> int {
        self.current as int
    }

    /// Well-formedness: the cursor stays within the sequence.
    pub closed spec fn wf(&self) -> bool {
        self.current <= self.tokens@.len()
    }

    /// A parser over `tokens`, at the first token.
    pub fn new(tokens: Vec<Token>) -> (p: Parser)
        ensures
            p.wf(),
            p.toks() == token_views(tokens@),
            p.pos() == 0,
    {
        Parser { tokens, current: 0 }
    }

    /// Parses one expression from the cursor, leaving the cursor where
    /// parsing stopped. Returns the tree that [`spec_expression`] describes,
    /// or exactly the error it describes: `ExpectedExpression` when no
    /// primary production matches the lookahead, `UnclosedGrouping` when a
    /// `(` has no matching `)`.
    pub fn parse(&mut self) -> (r: Result<Expr, ParseError>)
        requires
            old(self).wf(),
        ensures
            final(self).wf(),
            final(self).toks() == old(self).toks(),
            ({
                let out = spec_expression(old(self).toks(), old(self).pos());
                &&& result_view(r) == out.result
                &&& final(self).pos() == out.next
            }),
    {
        let r = expression(&self.tokens, self.current);
        self.current = r.1;
        r.0
    }

    /// True when every token has been consumed.
    pub fn is_at_end(&self) -> (b: bool)
        ensures
            b == (self.pos() >= self.toks().len()),
    {
        self.current >= self.tokens.len()
    }

    /// The token under the cursor, without consuming it; `None` when the
    /// input is exhausted.
    pub fn peek(&self) -> (r: Option<Token>)
        requires
            self.wf(),
        ensures
            match r {
                Option::Some(t) => self.pos() < self.toks().len() && t@ == self.toks()[self.pos()],
                Option::None => self.pos() >= self.toks().len(),
            },
    {
        if self.current < self.tokens.len() {
            Option::Some(self.tokens[self.current].clone())
        } else {
            Option::None
        }
    }

    /// The token immediately behind the cursor; `None` when nothing has been
    /// consumed yet.
    pub fn previous(&self) -> (r: Option<Token>)
        requires
            self.wf(),
        ensures
            match r {
                Option::Some(t) => 1 <= self.pos() && t@ == self.toks()[self.pos() - 1],
                Option::None => self.pos() == 0,
            },
    {
        if self.current >= 1 {
            Option::Some(self.tokens[self.current - 1].clone())
        } else {
            Option::None
        }
    }

    /// Consumes and returns the token under the cursor; `None` (and no
    /// movement) when the input is exhausted.
    pub fn advance(&mut self) -> (r: Option<Token>)
        requires
            old(self).wf(),
        ensures
            final(self).wf(),
            final(self).toks() == old(self).toks(),
            match r {
                Option::Some(t) => old(self).pos() < old(self).toks().len() && t@ == old(
                    self,
                ).toks()[old(self).pos()] && final(self).pos() == old(self).pos() + 1,
                Option::None => old(self).pos() >= old(self).toks().len() && final(self).pos()
                    == old(self).pos(),
            },
    {
        if self.current < self.tokens.len() {
            let t = self.tokens[self.current].clone();
            self.current = self.current + 1;
            Option::Some(t)
        } else {
            Option::None
        }
    }

    /// Discards tokens after a parse error until a safe restart point: just
    /// past a semicolon, in front of a statement keyword, or at the end of
    /// the input. Always consumes at least one token when any is left, so
    /// repeated synchronization cannot loop forever.
    pub fn synchronize(&mut self)
        requires
            old(self).wf(),
        ensures
            final(self).wf(),
            final(self).toks() == old(self).toks(),
            final(self).pos() == sync_spec(old(self).toks(), old(self).pos()),
            old(self).pos() < old(self).toks().len() ==> old(self).pos() < final(self).pos(),
    {
        let ghost ts = self.toks();
        let _first = self.advance();
        let ghost p1: int = self.pos();
        loop
            invariant
                self.wf(),
                self.toks() == ts,
                p1 <= self.pos() <= ts.len(),
                1 <= p1 || p1 >= ts.len(),
                sync_loop(ts, p1) == sync_loop(ts, self.pos()),
            ensures
                self.pos() == sync_loop(ts, p1),
                self.toks() == ts,
                self.wf(),
                p1 <= self.pos(),
            decreases ts.len() - self.pos(),
        {
            if self.current >= self.tokens.len() {
                break;
            }
            let prev = &self.tokens[self.current - 1];
            if matches!(prev, Token::Semicolon { .. }) {
                break;
            }
            let t = &self.tokens[self.current];
            if matches!(
                t,
                Token::Class { .. } | Token::Fun { .. } | Token::For { .. } | Token::If { .. }
                    | Token::Print { .. } | Token::Return { .. } | Token::Var { .. }
                    | Token::While { .. },
            ) {
                break;
            }
            self.current = self.current + 1;
        }
    }
}

} // verus!
