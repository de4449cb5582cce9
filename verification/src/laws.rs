//! General properties of the front end, each stated over the specification
//! functions that the executable functions are proved against: scanning a
//! source of single-character punctuation, determinism of the whole
//! pipeline, the print/scan round trip for trees built from numeric, boolean
//! and nil literals, and the preservation of literal tokens through the
//! parse/print/re-scan chain.

use vstd::prelude::*;

use crate::ast_printer::print_expr;
use crate::exceptions::LexError;
use crate::expression::ExprV;
use crate::parser::{
    advanced, is_comparison_op, is_equality_op, is_factor_op, is_left_paren, is_literal_token,
    is_right_paren, is_term_op, is_unary_op, rem, spec_comparison, spec_comparison_loop,
    spec_equality, spec_equality_loop, spec_expression, spec_factor, spec_factor_loop,
    spec_primary, spec_term, spec_term_loop, spec_unary,
};
use crate::scanner::{digit_run_end, ident_run_end, opt_seq, scan_spec, scan_step};
use crate::token::{is_alnum, is_digit, token_text, TokenV};

verus! {

/// True of a character that can scan to a token of exactly one character.
pub open spec fn is_single_punct(c: char) -> bool {
    c == '(' || c == ')' || c == '{' || c == '}' || c == ',' || c == '.' || c == '-' || c == '+'
        || c == ';' || c == '*' || c == '!' || c == '=' || c == '<' || c == '>' || c == '/'
}

/// True when `a` directly followed by `b` would scan as one two-character
/// lexeme instead of two one-character tokens.
pub open spec fn combines(a: char, b: char) -> bool {
    ((a == '!' || a == '=' || a == '<' || a == '>') && b == '=') || (a == '/' && b == '/')
}

/// The single-character punctuation token that `c` scans to.
pub open spec fn punct_token(c: char, line: usize) -> TokenV {
    if c == '(' {
        TokenV::LeftParen { line }
    } else if c == ')' {
        TokenV::RightParen { line }
    } else if c == '{' {
        TokenV::LeftBrace { line }
    } else if c == '}' {
        TokenV::RightBrace { line }
    } else if c == ',' {
        TokenV::Comma { line }
    } else if c == '.' {
        TokenV::Dot { line }
    } else if c == '-' {
        TokenV::Minus { line }
    } else if c == '+' {
        TokenV::Plus { line }
    } else if c == ';' {
        TokenV::Semicolon { line }
    } else if c == '*' {
        TokenV::Star { line }
    } else if c == '!' {
        TokenV::Bang { line }
    } else if c == '=' {
        TokenV::Equal { line }
    } else if c == '<' {
        TokenV::Less { line }
    } else if c == '>' {
        TokenV::Greater { line }
    } else {
        TokenV::Slash { line }
    }
}

/// Scanning a source that consists solely of single-character punctuation
/// tokens (no two adjacent characters combine into a two-character lexeme)
/// yields exactly one token per character, in source order, each tagged with
/// the (unchanged) current line, followed by the end-of-input marker, and no
/// error.
pub proof fn lemma_scan_single_punctuation(s: Seq<char>, pos: int, line: usize)
    requires
        0 <= pos <= s.len(),
        forall|i: int| pos <= i < s.len() ==> is_single_punct(#[trigger] s[i]),
        forall|i: int| pos <= i < s.len() - 1 ==> !combines(#[trigger] s[i], s[i + 1]),
    ensures
        scan_spec(s, pos, line).errors =~= Seq::<LexError>::empty(),
        scan_spec(s, pos, line).tokens.len() == s.len() - pos + 1,
        forall|i: int|
            pos <= i < s.len() ==> scan_spec(s, pos, line).tokens[i - pos] == punct_token(
                s[i],
                line,
            ),
        scan_spec(s, pos, line).tokens[s.len() - pos] == (TokenV::Eof { line }),
    decreases s.len() - pos,
{
    if pos < s.len() {
        lemma_scan_single_punctuation(s, pos + 1, line);
        let st = scan_step(s, pos, line);
        assert(st.token == Some(punct_token(s[pos], line)));
        assert(scan_spec(s, pos, line).tokens =~= seq![punct_token(s[pos], line)] + scan_spec(
            s,
            pos + 1,
            line,
        ).tokens);
        assert(scan_spec(s, pos, line).errors =~= scan_spec(s, pos + 1, line).errors);
    }
}

/// The printed form of the expression parsed from `src`, when `src` scans
/// without lexical errors and parses without parse errors.
pub open spec fn pipeline_print(src: Seq<char>) -> Option<Seq<char>> {
    let scanned = scan_spec(src, 0, 1);
    if scanned.errors.len() == 0 {
        let parsed = spec_expression(scanned.tokens, 0);
        match parsed.result {
            Result::Ok(e) => Option::Some(print_expr(e)),
            Result::Err(_) => Option::None,
        }
    } else {
        Option::None
    }
}

/// The whole pipeline is a pure function of the source text: scanning,
/// parsing and printing the same source twice yields identical text (or the
/// same absence of it). The executable functions return exactly the
/// specification functions' outputs (see the contracts of
/// `Scanner::scan_tokens`, `Parser::parse` and `ast_printer`), so two
/// executable runs agree as well: there is no hidden state.
pub proof fn lemma_pipeline_deterministic(s1: Seq<char>, s2: Seq<char>)
    requires
        s1 == s2,
    ensures
        pipeline_print(s1) == pipeline_print(s2),
{
}

/// A maximal digit run: when `s[a..b)` holds only digits and `b` is the end
/// of the source or a non-digit, the run that starts at `a` ends at `b`.
pub proof fn lemma_digit_run(s: Seq<char>, a: int, b: int)
    requires
        0 <= a <= b <= s.len(),
        forall|i: int| a <= i < b ==> is_digit(#[trigger] s[i]),
        b == s.len() || !is_digit(s[b]),
    ensures
        digit_run_end(s, a) == b,
    decreases b - a,
{
    if a < b {
        lemma_digit_run(s, a + 1, b);
    }
}

/// A maximal alphanumeric run, as [`lemma_digit_run`].
pub proof fn lemma_alnum_run(s: Seq<char>, a: int, b: int)
    requires
        0 <= a <= b <= s.len(),
        forall|i: int| a <= i < b ==> is_alnum(#[trigger] s[i]),
        b == s.len() || !is_alnum(s[b]),
    ensures
        ident_run_end(s, a) == b,
    decreases b - a,
{
    if a < b {
        lemma_alnum_run(s, a + 1, b);
    }
}

/// True of a numeric, boolean or nil literal token whose digits are well
/// formed.
pub open spec fn lit_token_ok(t: TokenV) -> bool {
    match t {
        TokenV::True { .. } | TokenV::False { .. } | TokenV::Nil { .. } => true,
        TokenV::Number { whole, frac, .. } => whole.len() > 0 && (forall|i: int|
            0 <= i < whole.len() ==> is_digit(#[trigger] whole[i])) && (forall|i: int|
            0 <= i < frac.len() ==> is_digit(#[trigger] frac[i])),
        _ => false,
    }
}

/// True of an operator token that a parsed tree can carry at a binary node.
pub open spec fn binary_op_ok(t: TokenV) -> bool {
    is_equality_op(t) || is_comparison_op(t) || is_term_op(t) || is_factor_op(t)
}

/// True of a tree built solely from numeric, boolean and nil literals, with
/// the operators of the grammar: the shape of every tree the parser builds
/// from a literal-only source.
pub open spec fn lit_only(e: ExprV) -> bool
    decreases e,
{
    match e {
        ExprV::Literal { val } => lit_token_ok(val),
        ExprV::Unary { op, expr } => is_unary_op(op) && lit_only(*expr),
        ExprV::Binary { left, op, right } => binary_op_ok(op) && lit_only(*left) && lit_only(
            *right,
        ),
        ExprV::Grouping { expr } => lit_only(*expr),
    }
}

/// The same token on the given line.
pub open spec fn set_line(t: TokenV, line: usize) -> TokenV {
    match t {
        TokenV::LeftParen { .. } => TokenV::LeftParen { line },
        TokenV::RightParen { .. } => TokenV::RightParen { line },
        TokenV::Minus { .. } => TokenV::Minus { line },
        TokenV::Plus { .. } => TokenV::Plus { line },
        TokenV::Star { .. } => TokenV::Star { line },
        TokenV::Slash { .. } => TokenV::Slash { line },
        TokenV::Bang { .. } => TokenV::Bang { line },
        TokenV::BangEqual { .. } => TokenV::BangEqual { line },
        TokenV::EqualEqual { .. } => TokenV::EqualEqual { line },
        TokenV::Less { .. } => TokenV::Less { line },
        TokenV::LessEqual { .. } => TokenV::LessEqual { line },
        TokenV::Greater { .. } => TokenV::Greater { line },
        TokenV::GreaterEqual { .. } => TokenV::GreaterEqual { line },
        TokenV::True { .. } => TokenV::True { line },
        TokenV::False { .. } => TokenV::False { line },
        TokenV::Nil { .. } => TokenV::Nil { line },
        TokenV::Number { whole, frac, .. } => TokenV::Number { line, whole, frac },
        _ => t,
    }
}

/// The token sequence that the printed form of a tree spells out, every
/// token on the given line: the tree's parentheses, operators and literals
/// in print order.
pub open spec fn tree_tokens(e: ExprV, line: usize) -> Seq<TokenV>
    decreases e,
{
    match e {
        ExprV::Literal { val } => seq![set_line(val, line)],
        ExprV::Unary { op, expr } => seq![TokenV::LeftParen { line }, set_line(op, line)]
            + tree_tokens(*expr, line) + seq![TokenV::RightParen { line }],
        ExprV::Binary { left, op, right } => seq![TokenV::LeftParen { line }] + tree_tokens(
            *left,
            line,
        ) + seq![set_line(op, line)] + tree_tokens(*right, line) + seq![
            TokenV::RightParen { line },
        ],
        ExprV::Grouping { expr } => seq![TokenV::LeftParen { line }] + tree_tokens(*expr, line)
            + seq![TokenV::RightParen { line }],
    }
}

/// Scanning skips a space without producing anything.
pub proof fn lemma_scan_space(s: Seq<char>, pos: int, line: usize)
    requires
        0 <= pos < s.len(),
        s[pos] == ' ',
    ensures
        scan_spec(s, pos, line).tokens =~= scan_spec(s, pos + 1, line).tokens,
        scan_spec(s, pos, line).errors =~= scan_spec(s, pos + 1, line).errors,
{
}

/// True of the punctuation and operator tokens that a printed tree can
/// spell out.
pub open spec fn printable_op(t: TokenV) -> bool {
    match t {
        TokenV::LeftParen { .. } | TokenV::RightParen { .. } | TokenV::Minus { .. }
            | TokenV::Plus { .. } | TokenV::Star { .. } | TokenV::Slash { .. }
            | TokenV::Bang { .. } | TokenV::BangEqual { .. } | TokenV::EqualEqual { .. }
            | TokenV::Less { .. } | TokenV::LessEqual { .. } | TokenV::Greater { .. }
            | TokenV::GreaterEqual { .. } => true,
        _ => false,
    }
}

/// Scanning the text of one punctuation or operator token, followed by a
/// space or the end of the source, yields exactly that token (on the current
/// line) and goes on after its text.
pub proof fn lemma_scan_op_token(s: Seq<char>, pos: int, line: usize, t: TokenV)
    requires
        printable_op(t),
        0 <= pos,
        pos + token_text(t).len() <= s.len(),
        s.subrange(pos, pos + token_text(t).len()) == token_text(t),
        pos + token_text(t).len() == s.len() || s[pos + token_text(t).len()] == ' ',
    ensures
        scan_spec(s, pos, line).tokens =~= seq![set_line(t, line)] + scan_spec(
            s,
            pos + token_text(t).len(),
            line,
        ).tokens,
        scan_spec(s, pos, line).errors =~= scan_spec(s, pos + token_text(t).len(), line).errors,
{
    reveal_strlit("(");
    reveal_strlit(")");
    reveal_strlit("-");
    reveal_strlit("+");
    reveal_strlit("*");
    reveal_strlit("/");
    reveal_strlit("!");
    reveal_strlit("!=");
    reveal_strlit("==");
    reveal_strlit("<");
    reveal_strlit("<=");
    reveal_strlit(">");
    reveal_strlit(">=");
    let p = token_text(t);
    let n = p.len() as int;
    assert(s.subrange(pos, pos + n)[0] == p[0]);
    if n == 2 {
        assert(s.subrange(pos, pos + n)[1] == p[1]);
    }
    let st = scan_step(s, pos, line);
    assert(st.token == Some(set_line(t, line)));
    assert(st.next == pos + n);
    assert(scan_spec(s, pos, line).tokens == opt_seq(st.token) + scan_spec(
        s,
        pos + n,
        line,
    ).tokens);
    assert(opt_seq(st.token) =~= seq![set_line(t, line)]);
}

/// Scanning the text of one numeric or boolean literal token, followed by a
/// space or the end of the source, yields exactly that token (on the current
/// line) and goes on after its text.
pub proof fn lemma_scan_literal_token(s: Seq<char>, pos: int, line: usize, t: TokenV)
    requires
        lit_token_ok(t),
        0 <= pos,
        pos + token_text(t).len() <= s.len(),
        s.subrange(pos, pos + token_text(t).len()) == token_text(t),
        pos + token_text(t).len() == s.len() || s[pos + token_text(t).len()] == ' ',
    ensures
        scan_spec(s, pos, line).tokens =~= seq![set_line(t, line)] + scan_spec(
            s,
            pos + token_text(t).len(),
            line,
        ).tokens,
        scan_spec(s, pos, line).errors =~= scan_spec(s, pos + token_text(t).len(), line).errors,
{
    let p = token_text(t);
    let n = p.len() as int;
    let st = scan_step(s, pos, line);
    match t {
        TokenV::True { .. } | TokenV::False { .. } | TokenV::Nil { .. } => {
            reveal_strlit("and");
            reveal_strlit("class");
            reveal_strlit("else");
            reveal_strlit("false");
            reveal_strlit("for");
            reveal_strlit("fun");
            reveal_strlit("if");
            reveal_strlit("nil");
            reveal_strlit("or");
            reveal_strlit("print");
            reveal_strlit("return");
            reveal_strlit("super");
            reveal_strlit("this");
            reveal_strlit("true");
            reveal_strlit("var");
            reveal_strlit("while");
            assert forall|i: int| pos <= i < pos + n implies is_alnum(#[trigger] s[i]) by {
                assert(s.subrange(pos, pos + n)[i - pos] == p[i - pos]);
            }
            assert(s.subrange(pos, pos + n)[0] == p[0]);
            lemma_alnum_run(s, pos, pos + n);
            assert(s.subrange(pos, pos + n) == p);
            assert(p != "and"@);
            assert(p != "class"@);
            assert(p != "else"@);
            match t {
                TokenV::Nil { .. } => {
                    assert(p != "false"@);
                    assert(p != "for"@);
                    assert(p != "fun"@);
                    assert(p != "if"@);
                },
                TokenV::True { .. } => {
                    assert(p != "false"@);
                    assert(p != "for"@);
                    assert(p != "fun"@);
                    assert(p != "if"@);
                    assert(p != "nil"@);
                    assert(p != "or"@);
                    assert(p != "print"@);
                    assert(p != "return"@);
                    assert(p != "super"@);
                    assert(p[1] != 'h');
                    assert(p != "this"@);
                },
                _ => {},
            }
            assert(st.token == Some(set_line(t, line)));
            assert(st.next == pos + n);
        },
        TokenV::Number { whole, frac, .. } => {
            let wl = whole.len() as int;
            assert forall|i: int| pos <= i < pos + wl implies is_digit(#[trigger] s[i]) by {
                assert(s.subrange(pos, pos + n)[i - pos] == p[i - pos]);
                assert(p[i - pos] == whole[i - pos]);
            }
            assert forall|j: int| 0 <= j < wl implies s.subrange(pos, pos + wl)[j] == whole[j] by {
                assert(s.subrange(pos, pos + n)[j] == p[j]);
            }
            assert(s.subrange(pos, pos + wl) =~= whole);
            assert(s.subrange(pos, pos + n)[0] == p[0]);
            if frac.len() == 0 {
                assert(p == whole);
                assert(frac =~= Seq::<char>::empty());
                lemma_digit_run(s, pos, pos + wl);
                assert(st.token == Some(set_line(t, line)));
                assert(st.next == pos + n);
            } else {
                let fl = frac.len() as int;
                assert(s.subrange(pos, pos + n)[wl] == p[wl]);
                assert(p[wl] == '.');
                assert forall|i: int|
                    pos + wl + 1 <= i < pos + n implies is_digit(#[trigger] s[i]) by {
                    assert(s.subrange(pos, pos + n)[i - pos] == p[i - pos]);
                    assert(p[i - pos] == frac[i - pos - wl - 1]);
                }
                assert forall|j: int|
                    0 <= j < fl implies s.subrange(pos + wl + 1, pos + n)[j] == frac[j] by {
                    assert(s.subrange(pos, pos + n)[wl + 1 + j] == p[wl + 1 + j]);
                    assert(p[wl + 1 + j] == frac[j]);
                }
                assert(s.subrange(pos + wl + 1, pos + n) =~= frac);
                lemma_digit_run(s, pos, pos + wl);
                lemma_digit_run(s, pos + wl + 1, pos + n);
                assert(st.token == Some(set_line(t, line)));
                assert(st.next == pos + n);
            }
        },
        _ => {},
    }
    assert(scan_spec(s, pos, line).tokens == opt_seq(st.token) + scan_spec(
        s,
        pos + n,
        line,
    ).tokens);
    assert(opt_seq(st.token) =~= seq![set_line(t, line)]);
}


/// Transfers a segment equality: when `p` appears in `s` at `pos` and `q`
/// appears in `p` at `off`, then `q` appears in `s` at `pos + off`.
proof fn lemma_subrange_transfer(s: Seq<char>, pos: int, p: Seq<char>, off: int, q: Seq<char>)
    requires
        0 <= pos,
        pos + p.len() <= s.len(),
        s.subrange(pos, pos + p.len()) == p,
        0 <= off,
        off + q.len() <= p.len(),
        p.subrange(off, off + q.len()) == q,
    ensures
        s.subrange(pos + off, pos + off + q.len()) == q,
{
    assert forall|j: int|
        0 <= j < q.len() implies s.subrange(
        pos + off,
        pos + off + q.len() as int,
    )[j] == q[j] by {
        assert(s.subrange(pos, pos + p.len() as int)[off + j] == p[off + j]);
        assert(p.subrange(off, off + q.len() as int)[j] == q[j]);
    }
    assert(s.subrange(pos + off, pos + off + q.len() as int) =~= q);
}

/// Scanning the printed form of a literal-only tree, standing in `s` at
/// `pos` and followed by a space or the end of the source, yields exactly
/// the tree's token sequence and then goes on after the printed form,
/// recording no error along the way.
/// The `Unary` case of [`lemma_scan_printed`], given the child's property.
#[verifier::rlimit(100)]
proof fn lemma_scan_printed_unary(s: Seq<char>, pos: int, line: usize, op: TokenV, e1: ExprV)
    requires
        is_unary_op(op),
        0 <= pos,
        pos + print_expr(ExprV::Unary { op, expr: Box::new(e1) }).len() <= s.len(),
        s.subrange(pos, pos + print_expr(ExprV::Unary { op, expr: Box::new(e1) }).len())
            == print_expr(ExprV::Unary { op, expr: Box::new(e1) }),
        pos + print_expr(ExprV::Unary { op, expr: Box::new(e1) }).len() == s.len() || s[pos
            + print_expr(ExprV::Unary { op, expr: Box::new(e1) }).len()] == ' ',
        scan_spec(s, pos + 3 + token_text(op).len(), line).tokens =~= tree_tokens(e1, line)
            + scan_spec(
            s,
            pos + 3 + token_text(op).len() + print_expr(e1).len(),
            line,
        ).tokens,
        scan_spec(s, pos + 3 + token_text(op).len(), line).errors =~= scan_spec(
            s,
            pos + 3 + token_text(op).len() + print_expr(e1).len(),
            line,
        ).errors,
    ensures
        scan_spec(s, pos, line).tokens =~= tree_tokens(ExprV::Unary { op, expr: Box::new(e1) }, line)
            + scan_spec(
            s,
            pos + print_expr(ExprV::Unary { op, expr: Box::new(e1) }).len(),
            line,
        ).tokens,
        scan_spec(s, pos, line).errors =~= scan_spec(
            s,
            pos + print_expr(ExprV::Unary { op, expr: Box::new(e1) }).len(),
            line,
        ).errors,
{
    reveal_strlit("( ");
    reveal_strlit(" ");
    reveal_strlit(" )");
    reveal_strlit("(");
    reveal_strlit(")");
    let e = ExprV::Unary { op, expr: Box::new(e1) };
    let p = print_expr(e);
    let n = p.len() as int;
    let end = pos + n;
    let p1 = print_expr(e1);
    let l1 = p1.len() as int;
    let ot = token_text(op);
    let m = ot.len() as int;
    assert(n == 3 + m + l1 + 2);
    let a = pos + 3 + m;
    let q = a + l1;
    assert(p.subrange(0, 1) =~= "("@);
    assert(p.subrange(2, 2 + m) =~= ot);
    assert(p.subrange(3 + m, 3 + m + l1) =~= p1);
    assert(p.subrange(n - 1, n) =~= ")"@);
    lemma_subrange_transfer(s, pos, p, 0, "("@);
    lemma_subrange_transfer(s, pos, p, 2, ot);
    lemma_subrange_transfer(s, pos, p, n - 1, ")"@);
    assert(s.subrange(pos, pos + n)[1] == p[1]);
    assert(s.subrange(pos, pos + n)[2 + m] == p[2 + m]);
    assert(s.subrange(pos, pos + n)[3 + m + l1] == p[3 + m + l1]);
    assert(s[pos + 1] == ' ');
    assert(s[pos + 2 + m] == ' ');
    assert(s[q] == ' ');
    lemma_scan_op_token(s, pos, line, TokenV::LeftParen { line });
    lemma_scan_space(s, pos + 1, line);
    lemma_scan_op_token(s, pos + 2, line, op);
    lemma_scan_space(s, pos + 2 + m, line);
    lemma_scan_space(s, q, line);
    lemma_scan_op_token(s, q + 1, line, TokenV::RightParen { line });
    assert(scan_spec(s, pos, line).tokens =~= tree_tokens(e, line) + scan_spec(
        s,
        end,
        line,
    ).tokens);
    assert(scan_spec(s, pos, line).errors =~= scan_spec(s, end, line).errors);
}

/// The `Binary` case of [`lemma_scan_printed`], given both children's
/// properties.
#[verifier::rlimit(100)]
proof fn lemma_scan_printed_binary(
    s: Seq<char>,
    pos: int,
    line: usize,
    el: ExprV,
    op: TokenV,
    er: ExprV,
)
    requires
        binary_op_ok(op),
        0 <= pos,
        pos + print_expr(ExprV::Binary { left: Box::new(el), op, right: Box::new(er) }).len()
            <= s.len(),
        s.subrange(
            pos,
            pos + print_expr(ExprV::Binary { left: Box::new(el), op, right: Box::new(er) }).len(),
        ) == print_expr(ExprV::Binary { left: Box::new(el), op, right: Box::new(er) }),
        pos + print_expr(ExprV::Binary { left: Box::new(el), op, right: Box::new(er) }).len()
            == s.len() || s[pos + print_expr(
            ExprV::Binary { left: Box::new(el), op, right: Box::new(er) },
        ).len()] == ' ',
        scan_spec(s, pos + 2, line).tokens =~= tree_tokens(el, line) + scan_spec(
            s,
            pos + 2 + print_expr(el).len(),
            line,
        ).tokens,
        scan_spec(s, pos + 2, line).errors =~= scan_spec(
            s,
            pos + 2 + print_expr(el).len(),
            line,
        ).errors,
        scan_spec(
            s,
            pos + 4 + print_expr(el).len() + token_text(op).len(),
            line,
        ).tokens =~= tree_tokens(er, line) + scan_spec(
            s,
            pos + 4 + print_expr(el).len() + token_text(op).len() + print_expr(er).len(),
            line,
        ).tokens,
        scan_spec(s, pos + 4 + print_expr(el).len() + token_text(op).len(), line).errors
            =~= scan_spec(
            s,
            pos + 4 + print_expr(el).len() + token_text(op).len() + print_expr(er).len(),
            line,
        ).errors,
    ensures
        scan_spec(s, pos, line).tokens =~= tree_tokens(
            ExprV::Binary { left: Box::new(el), op, right: Box::new(er) },
            line,
        ) + scan_spec(
            s,
            pos + print_expr(ExprV::Binary { left: Box::new(el), op, right: Box::new(er) }).len(),
            line,
        ).tokens,
        scan_spec(s, pos, line).errors =~= scan_spec(
            s,
            pos + print_expr(ExprV::Binary { left: Box::new(el), op, right: Box::new(er) }).len(),
            line,
        ).errors,
{
    reveal_strlit("( ");
    reveal_strlit(" ");
    reveal_strlit(" )");
    reveal_strlit("(");
    reveal_strlit(")");
    let e = ExprV::Binary { left: Box::new(el), op, right: Box::new(er) };
    let p = print_expr(e);
    let n = p.len() as int;
    let end = pos + n;
    let pl = print_expr(el);
    let ll = pl.len() as int;
    let pr = print_expr(er);
    let rl = pr.len() as int;
    let ot = token_text(op);
    let m = ot.len() as int;
    assert(n == 2 + ll + 1 + m + 1 + rl + 2);
    let c = pos + 4 + ll + m;
    let q = c + rl;
    assert(p.subrange(0, 1) =~= "("@);
    assert(p.subrange(3 + ll, 3 + ll + m) =~= ot);
    assert(p.subrange(n - 1, n) =~= ")"@);
    lemma_subrange_transfer(s, pos, p, 0, "("@);
    lemma_subrange_transfer(s, pos, p, 3 + ll, ot);
    lemma_subrange_transfer(s, pos, p, n - 1, ")"@);
    assert(s.subrange(pos, pos + n)[1] == p[1]);
    assert(s.subrange(pos, pos + n)[2 + ll] == p[2 + ll]);
    assert(s.subrange(pos, pos + n)[3 + ll + m] == p[3 + ll + m]);
    assert(s.subrange(pos, pos + n)[4 + ll + m + rl] == p[4 + ll + m + rl]);
    assert(s[pos + 1] == ' ');
    assert(s[pos + 2 + ll] == ' ');
    assert(s[pos + 3 + ll + m] == ' ');
    assert(s[q] == ' ');
    lemma_scan_op_token(s, pos, line, TokenV::LeftParen { line });
    lemma_scan_space(s, pos + 1, line);
    lemma_scan_space(s, pos + 2 + ll, line);
    lemma_scan_op_token(s, pos + 3 + ll, line, op);
    lemma_scan_space(s, pos + 3 + ll + m, line);
    lemma_scan_space(s, q, line);
    lemma_scan_op_token(s, q + 1, line, TokenV::RightParen { line });
    assert(scan_spec(s, pos, line).tokens =~= tree_tokens(e, line) + scan_spec(
        s,
        end,
        line,
    ).tokens);
    assert(scan_spec(s, pos, line).errors =~= scan_spec(s, end, line).errors);
}

/// The `Grouping` case of [`lemma_scan_printed`], given the child's
/// property.
#[verifier::rlimit(100)]
proof fn lemma_scan_printed_grouping(s: Seq<char>, pos: int, line: usize, e1: ExprV)
    requires
        0 <= pos,
        pos + print_expr(ExprV::Grouping { expr: Box::new(e1) }).len() <= s.len(),
        s.subrange(pos, pos + print_expr(ExprV::Grouping { expr: Box::new(e1) }).len())
            == print_expr(ExprV::Grouping { expr: Box::new(e1) }),
        pos + print_expr(ExprV::Grouping { expr: Box::new(e1) }).len() == s.len() || s[pos
            + print_expr(ExprV::Grouping { expr: Box::new(e1) }).len()] == ' ',
        scan_spec(s, pos + 2, line).tokens =~= tree_tokens(e1, line) + scan_spec(
            s,
            pos + 2 + print_expr(e1).len(),
            line,
        ).tokens,
        scan_spec(s, pos + 2, line).errors =~= scan_spec(
            s,
            pos + 2 + print_expr(e1).len(),
            line,
        ).errors,
    ensures
        scan_spec(s, pos, line).tokens =~= tree_tokens(ExprV::Grouping { expr: Box::new(e1) }, line)
            + scan_spec(
            s,
            pos + print_expr(ExprV::Grouping { expr: Box::new(e1) }).len(),
            line,
        ).tokens,
        scan_spec(s, pos, line).errors =~= scan_spec(
            s,
            pos + print_expr(ExprV::Grouping { expr: Box::new(e1) }).len(),
            line,
        ).errors,
{
    reveal_strlit("( ");
    reveal_strlit(" ");
    reveal_strlit(" )");
    reveal_strlit("(");
    reveal_strlit(")");
    let e = ExprV::Grouping { expr: Box::new(e1) };
    let p = print_expr(e);
    let n = p.len() as int;
    let end = pos + n;
    let p1 = print_expr(e1);
    let l1 = p1.len() as int;
    assert(n == 2 + l1 + 2);
    let q = pos + 2 + l1;
    assert(p.subrange(0, 1) =~= "("@);
    assert(p.subrange(n - 1, n) =~= ")"@);
    lemma_subrange_transfer(s, pos, p, 0, "("@);
    lemma_subrange_transfer(s, pos, p, n - 1, ")"@);
    assert(s.subrange(pos, pos + n)[1] == p[1]);
    assert(s.subrange(pos, pos + n)[2 + l1] == p[2 + l1]);
    assert(s[pos + 1] == ' ');
    assert(s[q] == ' ');
    lemma_scan_op_token(s, pos, line, TokenV::LeftParen { line });
    lemma_scan_space(s, pos + 1, line);
    lemma_scan_space(s, q, line);
    lemma_scan_op_token(s, q + 1, line, TokenV::RightParen { line });
    assert(scan_spec(s, pos, line).tokens =~= tree_tokens(e, line) + scan_spec(
        s,
        end,
        line,
    ).tokens);
    assert(scan_spec(s, pos, line).errors =~= scan_spec(s, end, line).errors);
}

/// Scanning the printed form of a literal-only tree, standing in `s` at
/// `pos` and followed by a space or the end of the source, yields exactly
/// the tree's token sequence and then goes on after the printed form,
/// recording no error along the way.
pub proof fn lemma_scan_printed(s: Seq<char>, pos: int, line: usize, e: ExprV)
    requires
        lit_only(e),
        0 <= pos,
        pos + print_expr(e).len() <= s.len(),
        s.subrange(pos, pos + print_expr(e).len()) == print_expr(e),
        pos + print_expr(e).len() == s.len() || s[pos + print_expr(e).len()] == ' ',
    ensures
        scan_spec(s, pos, line).tokens =~= tree_tokens(e, line) + scan_spec(
            s,
            pos + print_expr(e).len(),
            line,
        ).tokens,
        scan_spec(s, pos, line).errors =~= scan_spec(s, pos + print_expr(e).len(), line).errors,
    decreases e,
{
    reveal_strlit("( ");
    reveal_strlit(" ");
    reveal_strlit(" )");
    let p = print_expr(e);
    let n = p.len() as int;
    match e {
        ExprV::Literal { val } => {
            lemma_scan_literal_token(s, pos, line, val);
        },
        ExprV::Unary { op, expr } => {
            let e1 = *expr;
            let p1 = print_expr(e1);
            let m = token_text(op).len() as int;
            let a = pos + 3 + m;
            assert(n == 3 + m + p1.len() + 2);
            assert(p.subrange(3 + m, 3 + m + p1.len() as int) =~= p1);
            lemma_subrange_transfer(s, pos, p, 3 + m, p1);
            assert(s.subrange(pos, pos + n)[3 + m + p1.len() as int] == p[3 + m + p1.len() as int]);
            assert(s[a + p1.len()] == ' ');
            lemma_scan_printed(s, a, line, e1);
            assert(e == (ExprV::Unary { op, expr: Box::new(e1) }));
            lemma_scan_printed_unary(s, pos, line, op, e1);
        },
        ExprV::Binary { left, op, right } => {
            let el = *left;
            let er = *right;
            let pl = print_expr(el);
            let ll = pl.len() as int;
            let pr = print_expr(er);
            let m = token_text(op).len() as int;
            assert(n == 2 + ll + 1 + m + 1 + pr.len() + 2);
            assert(p.subrange(2, 2 + ll) =~= pl);
            assert(p.subrange(4 + ll + m, 4 + ll + m + pr.len() as int) =~= pr);
            lemma_subrange_transfer(s, pos, p, 2, pl);
            lemma_subrange_transfer(s, pos, p, 4 + ll + m, pr);
            assert(s.subrange(pos, pos + n)[2 + ll] == p[2 + ll]);
            assert(s.subrange(pos, pos + n)[4 + ll + m + pr.len() as int] == p[4 + ll + m
                + pr.len() as int]);
            assert(s[pos + 2 + ll] == ' ');
            assert(s[pos + 4 + ll + m + pr.len()] == ' ');
            lemma_scan_printed(s, pos + 2, line, el);
            lemma_scan_printed(s, pos + 4 + ll + m, line, er);
            assert(e == (ExprV::Binary { left: Box::new(el), op, right: Box::new(er) }));
            lemma_scan_printed_binary(s, pos, line, el, op, er);
        },
        ExprV::Grouping { expr } => {
            let e1 = *expr;
            let p1 = print_expr(e1);
            assert(n == 2 + p1.len() + 2);
            assert(p.subrange(2, 2 + p1.len() as int) =~= p1);
            lemma_subrange_transfer(s, pos, p, 2, p1);
            assert(s.subrange(pos, pos + n)[2 + p1.len() as int] == p[2 + p1.len() as int]);
            assert(s[pos + 2 + p1.len()] == ' ');
            lemma_scan_printed(s, pos + 2, line, e1);
            assert(e == (ExprV::Grouping { expr: Box::new(e1) }));
            lemma_scan_printed_grouping(s, pos, line, e1);
        },
    }
}

/// Round trip for literal-only expressions: scanning the printed form of a
/// tree built solely from numeric and boolean literals yields exactly the
/// tree's parentheses, operators and literal tokens — every literal value
/// reproduced — followed by the end-of-input marker, and no error.
pub proof fn lemma_print_scan_roundtrip(e: ExprV)
    requires
        lit_only(e),
    ensures
        scan_spec(print_expr(e), 0, 1).errors =~= Seq::<LexError>::empty(),
        scan_spec(print_expr(e), 0, 1).tokens =~= tree_tokens(e, 1) + seq![
            TokenV::Eof { line: 1 },
        ],
{
    let p = print_expr(e);
    assert(p.subrange(0, p.len() as int) =~= p);
    lemma_scan_printed(p, 0, 1, e);
    assert(scan_spec(p, p.len() as int, 1).tokens =~= seq![TokenV::Eof { line: 1 }]);
    assert(scan_spec(p, p.len() as int, 1).errors =~= Seq::<LexError>::empty());
}



/// The literal tokens of a token sequence, in order.
pub open spec fn literals_of(ts: Seq<TokenV>) -> Seq<TokenV>
    decreases ts.len(),
{
    if ts.len() == 0 {
        Seq::empty()
    } else if is_literal_token(ts[0]) {
        seq![ts[0]] + literals_of(ts.subrange(1, ts.len() as int))
    } else {
        literals_of(ts.subrange(1, ts.len() as int))
    }
}

/// The same tokens, every one on the given line.
pub open spec fn set_lines(ts: Seq<TokenV>, line: usize) -> Seq<TokenV> {
    ts.map_values(|t: TokenV| set_line(t, line))
}

/// The literal tokens of a tree, in parse (and print) order.
pub open spec fn lits_of_tree(e: ExprV) -> Seq<TokenV>
    decreases e,
{
    match e {
        ExprV::Literal { val } => seq![val],
        ExprV::Unary { expr, .. } => lits_of_tree(*expr),
        ExprV::Binary { left, right, .. } => lits_of_tree(*left) + lits_of_tree(*right),
        ExprV::Grouping { expr } => lits_of_tree(*expr),
    }
}

/// [`literals_of`] distributes over concatenation.
pub proof fn lemma_literals_distribute(a: Seq<TokenV>, b: Seq<TokenV>)
    ensures
        literals_of(a + b) == literals_of(a) + literals_of(b),
    decreases a.len(),
{
    if a.len() == 0 {
        assert(a + b =~= b);
        assert(literals_of(a) + literals_of(b) =~= literals_of(b));
    } else {
        let a1 = a.subrange(1, a.len() as int);
        assert((a + b).subrange(1, (a + b).len() as int) =~= a1 + b);
        assert((a + b)[0] == a[0]);
        lemma_literals_distribute(a1, b);
        if is_literal_token(a[0]) {
            assert(seq![a[0]] + (literals_of(a1) + literals_of(b)) =~= (seq![a[0]] + literals_of(
                a1,
            )) + literals_of(b));
        }
    }
}

/// [`literals_of`] on a single token.
pub proof fn lemma_literals_singleton(t: TokenV)
    ensures
        literals_of(seq![t]) == if is_literal_token(t) {
            seq![t]
        } else {
            Seq::<TokenV>::empty()
        },
{
    assert(seq![t].subrange(1, 1) =~= Seq::<TokenV>::empty());
    assert(literals_of(Seq::<TokenV>::empty()) =~= Seq::<TokenV>::empty());
    if is_literal_token(t) {
        assert(seq![t] + Seq::<TokenV>::empty() =~= seq![t]);
    }
}

/// [`literals_of`] on one slice of a sequence, split at `b`.
pub proof fn lemma_lits_split(ts: Seq<TokenV>, a: int, b: int, c: int)
    requires
        0 <= a <= b <= c <= ts.len(),
    ensures
        literals_of(ts.subrange(a, c)) == literals_of(ts.subrange(a, b)) + literals_of(
            ts.subrange(b, c),
        ),
{
    assert(ts.subrange(a, c) =~= ts.subrange(a, b) + ts.subrange(b, c));
    lemma_literals_distribute(ts.subrange(a, b), ts.subrange(b, c));
}

/// [`literals_of`] on a slice of one token.
pub proof fn lemma_lits_one(ts: Seq<TokenV>, a: int)
    requires
        0 <= a < ts.len(),
    ensures
        literals_of(ts.subrange(a, a + 1)) == if is_literal_token(ts[a]) {
            seq![ts[a]]
        } else {
            Seq::<TokenV>::empty()
        },
{
    assert(ts.subrange(a, a + 1) =~= seq![ts[a]]);
    lemma_literals_singleton(ts[a]);
}

/// The literal tokens that a printed tree spells out are exactly the tree's
/// literal tokens, each on the given line.
pub proof fn lemma_tree_tokens_lits(e: ExprV, line: usize)
    requires
        lit_only(e),
    ensures
        literals_of(tree_tokens(e, line)) == set_lines(lits_of_tree(e), line),
    decreases e,
{
    let lp = TokenV::LeftParen { line };
    let rp = TokenV::RightParen { line };
    match e {
        ExprV::Literal { val } => {
            lemma_literals_singleton(set_line(val, line));
            assert(set_lines(seq![val], line) =~= seq![set_line(val, line)]);
        },
        ExprV::Unary { op, expr } => {
            lemma_tree_tokens_lits(*expr, line);
            let head = seq![lp, set_line(op, line)];
            lemma_literals_distribute(head, tree_tokens(*expr, line));
            lemma_literals_distribute(head + tree_tokens(*expr, line), seq![rp]);
            assert(head =~= seq![lp] + seq![set_line(op, line)]);
            lemma_literals_distribute(seq![lp], seq![set_line(op, line)]);
            lemma_literals_singleton(lp);
            lemma_literals_singleton(set_line(op, line));
            lemma_literals_singleton(rp);
            assert(literals_of(tree_tokens(e, line)) =~= set_lines(lits_of_tree(*expr), line));
        },
        ExprV::Binary { left, op, right } => {
            lemma_tree_tokens_lits(*left, line);
            lemma_tree_tokens_lits(*right, line);
            let tl = tree_tokens(*left, line);
            let tr = tree_tokens(*right, line);
            let opt = seq![set_line(op, line)];
            lemma_literals_distribute(seq![lp], tl);
            lemma_literals_distribute(seq![lp] + tl, opt);
            lemma_literals_distribute((seq![lp] + tl) + opt, tr);
            lemma_literals_distribute(((seq![lp] + tl) + opt) + tr, seq![rp]);
            lemma_literals_singleton(lp);
            lemma_literals_singleton(set_line(op, line));
            lemma_literals_singleton(rp);
            assert(set_lines(lits_of_tree(*left) + lits_of_tree(*right), line) =~= set_lines(
                lits_of_tree(*left),
                line,
            ) + set_lines(lits_of_tree(*right), line));
            assert(literals_of(tree_tokens(e, line)) =~= set_lines(lits_of_tree(e), line));
        },
        ExprV::Grouping { expr } => {
            lemma_tree_tokens_lits(*expr, line);
            let t1 = tree_tokens(*expr, line);
            lemma_literals_distribute(seq![lp], t1);
            lemma_literals_distribute(seq![lp] + t1, seq![rp]);
            lemma_literals_singleton(lp);
            lemma_literals_singleton(rp);
            assert(literals_of(tree_tokens(e, line)) =~= set_lines(lits_of_tree(e), line));
        },
    }
}



/// `spec_primary` consumes exactly the literal tokens that appear in its
/// tree, in order; and its tree is literal-only whenever the consumed
/// literal tokens are numeric, boolean or nil literals.
proof fn lemma_lits_primary(ts: Seq<TokenV>, pos: int)
    requires
        0 <= pos <= ts.len(),
    ensures
        ({
            let r = spec_primary(ts, pos);
            &&& pos <= r.next <= ts.len()
        &&& (r.result matches Result::Ok(e) ==> {
            &&& pos < r.next
            &&& lits_of_tree(e) == literals_of(ts.subrange(pos, r.next))
            &&& ((forall|i: int|
                pos <= i < r.next && is_literal_token(#[trigger] ts[i]) ==> lit_token_ok(
                    ts[i],
                )) ==> lit_only(e))
        })
        }),
    decreases rem(ts, pos), 1int, 0int,
{
    if 0 <= pos < ts.len() && is_literal_token(ts[pos]) {
        lemma_lits_one(ts, pos);
    } else if 0 <= pos < ts.len() && is_left_paren(ts[pos]) {
        lemma_lits_expression(ts, pos + 1);
        let inner = spec_expression(ts, pos + 1);
        match inner.result {
            Result::Err(_) => {},
            Result::Ok(_) => {
                if 0 <= inner.next < ts.len() && is_right_paren(ts[inner.next]) {
                    lemma_lits_one(ts, pos);
                    lemma_lits_one(ts, inner.next);
                    lemma_lits_split(ts, pos, pos + 1, inner.next);
                    lemma_lits_split(ts, pos, inner.next, inner.next + 1);
                    assert(Seq::<TokenV>::empty() + literals_of(ts.subrange(pos + 1, inner.next))
                        =~= literals_of(ts.subrange(pos + 1, inner.next)));
                    assert(literals_of(ts.subrange(pos, inner.next)) + Seq::<TokenV>::empty()
                        =~= literals_of(ts.subrange(pos, inner.next)));
                }
            },
        }
    }
}

/// As [`lemma_lits_primary`], for `spec_unary`.
proof fn lemma_lits_unary(ts: Seq<TokenV>, pos: int)
    requires
        0 <= pos <= ts.len(),
    ensures
        ({
            let r = spec_unary(ts, pos);
            &&& pos <= r.next <= ts.len()
        &&& (r.result matches Result::Ok(e) ==> {
            &&& pos < r.next
            &&& lits_of_tree(e) == literals_of(ts.subrange(pos, r.next))
            &&& ((forall|i: int|
                pos <= i < r.next && is_literal_token(#[trigger] ts[i]) ==> lit_token_ok(
                    ts[i],
                )) ==> lit_only(e))
        })
        }),
    decreases rem(ts, pos), 2int, 0int,
{
    if 0 <= pos < ts.len() && is_unary_op(ts[pos]) {
        lemma_lits_unary(ts, pos + 1);
        let rc = spec_unary(ts, pos + 1);
        match rc.result {
            Result::Err(_) => {},
            Result::Ok(_) => {
                lemma_lits_one(ts, pos);
                lemma_lits_split(ts, pos, pos + 1, rc.next);
                assert(Seq::<TokenV>::empty() + literals_of(ts.subrange(pos + 1, rc.next)) =~=
                    literals_of(ts.subrange(pos + 1, rc.next)));
            },
        }
    } else {
        lemma_lits_primary(ts, pos);
    }
}

/// As [`lemma_lits_primary`], for the `factor` operator fold.
#[verifier::rlimit(100)]
proof fn lemma_lits_factor_loop(ts: Seq<TokenV>, pos: int, acc: ExprV)
    requires
        0 <= pos <= ts.len(),
    ensures
        ({
            let r = spec_factor_loop(ts, pos, acc);
            &&& pos <= r.next <= ts.len()
        &&& (r.result matches Result::Ok(e) ==> {
            &&& lits_of_tree(e) == lits_of_tree(acc) + literals_of(ts.subrange(pos, r.next))
            &&& ((lit_only(acc) && (forall|i: int|
                pos <= i < r.next && is_literal_token(#[trigger] ts[i]) ==> lit_token_ok(
                    ts[i],
                ))) ==> lit_only(e))
        })
        }),
    decreases rem(ts, pos), 3int, 0int,
{
    if 0 <= pos < ts.len() && is_factor_op(ts[pos]) {
        lemma_lits_unary(ts, pos + 1);
        let rc = spec_unary(ts, pos + 1);
        match rc.result {
            Result::Err(_) => {},
            Result::Ok(rt) => {
                assert(advanced(ts, pos, rc.next) == rc.next);
                let acc2 = ExprV::Binary { left: Box::new(acc), op: ts[pos], right: Box::new(rt) };
                lemma_lits_factor_loop(ts, rc.next, acc2);
                let r = spec_factor_loop(ts, rc.next, acc2);
                match r.result {
                    Result::Err(_) => {},
                    Result::Ok(_) => {
                        lemma_lits_one(ts, pos);
                        lemma_lits_split(ts, pos, pos + 1, rc.next);
                        lemma_lits_split(ts, pos, rc.next, r.next);
                        assert(Seq::<TokenV>::empty() + literals_of(ts.subrange(pos + 1, rc.next))
                            =~= literals_of(ts.subrange(pos + 1, rc.next)));
                        assert((lits_of_tree(acc) + lits_of_tree(rt)) + literals_of(
                            ts.subrange(rc.next, r.next),
                        ) =~= lits_of_tree(acc) + (lits_of_tree(rt) + literals_of(
                            ts.subrange(rc.next, r.next),
                        )));
                    },
                }
            },
        }
    } else {
        assert(ts.subrange(pos, pos).len() == 0);
        assert(lits_of_tree(acc) + literals_of(ts.subrange(pos, pos)) =~= lits_of_tree(acc));
    }
}

/// As [`lemma_lits_primary`], for `spec_factor`.
proof fn lemma_lits_factor(ts: Seq<TokenV>, pos: int)
    requires
        0 <= pos <= ts.len(),
    ensures
        ({
            let r = spec_factor(ts, pos);
            &&& pos <= r.next <= ts.len()
        &&& (r.result matches Result::Ok(e) ==> {
            &&& pos < r.next
            &&& lits_of_tree(e) == literals_of(ts.subrange(pos, r.next))
            &&& ((forall|i: int|
                pos <= i < r.next && is_literal_token(#[trigger] ts[i]) ==> lit_token_ok(
                    ts[i],
                )) ==> lit_only(e))
        })
        }),
    decreases rem(ts, pos), 3int, 1int,
{
    lemma_lits_unary(ts, pos);
    let f = spec_unary(ts, pos);
    match f.result {
        Result::Err(_) => {},
        Result::Ok(left) => {
            assert(advanced(ts, pos, f.next) == f.next);
            lemma_lits_factor_loop(ts, f.next, left);
            let r = spec_factor_loop(ts, f.next, left);
            match r.result {
                Result::Err(_) => {},
                Result::Ok(_) => {
                    lemma_lits_split(ts, pos, f.next, r.next);
                },
            }
        },
    }
}

/// As [`lemma_lits_primary`], for the `term` operator fold.
#[verifier::rlimit(100)]
proof fn lemma_lits_term_loop(ts: Seq<TokenV>, pos: int, acc: ExprV)
    requires
        0 <= pos <= ts.len(),
    ensures
        ({
            let r = spec_term_loop(ts, pos, acc);
            &&& pos <= r.next <= ts.len()
        &&& (r.result matches Result::Ok(e) ==> {
            &&& lits_of_tree(e) == lits_of_tree(acc) + literals_of(ts.subrange(pos, r.next))
            &&& ((lit_only(acc) && (forall|i: int|
                pos <= i < r.next && is_literal_token(#[trigger] ts[i]) ==> lit_token_ok(
                    ts[i],
                ))) ==> lit_only(e))
        })
        }),
    decreases rem(ts, pos), 4int, 0int,
{
    if 0 <= pos < ts.len() && is_term_op(ts[pos]) {
        lemma_lits_factor(ts, pos + 1);
        let rc = spec_factor(ts, pos + 1);
        match rc.result {
            Result::Err(_) => {},
            Result::Ok(rt) => {
                assert(advanced(ts, pos, rc.next) == rc.next);
                let acc2 = ExprV::Binary { left: Box::new(acc), op: ts[pos], right: Box::new(rt) };
                lemma_lits_term_loop(ts, rc.next, acc2);
                let r = spec_term_loop(ts, rc.next, acc2);
                match r.result {
                    Result::Err(_) => {},
                    Result::Ok(_) => {
                        lemma_lits_one(ts, pos);
                        lemma_lits_split(ts, pos, pos + 1, rc.next);
                        lemma_lits_split(ts, pos, rc.next, r.next);
                        assert(Seq::<TokenV>::empty() + literals_of(ts.subrange(pos + 1, rc.next))
                            =~= literals_of(ts.subrange(pos + 1, rc.next)));
                        assert((lits_of_tree(acc) + lits_of_tree(rt)) + literals_of(
                            ts.subrange(rc.next, r.next),
                        ) =~= lits_of_tree(acc) + (lits_of_tree(rt) + literals_of(
                            ts.subrange(rc.next, r.next),
                        )));
                    },
                }
            },
        }
    } else {
        assert(ts.subrange(pos, pos).len() == 0);
        assert(lits_of_tree(acc) + literals_of(ts.subrange(pos, pos)) =~= lits_of_tree(acc));
    }
}

/// As [`lemma_lits_primary`], for `spec_term`.
proof fn lemma_lits_term(ts: Seq<TokenV>, pos: int)
    requires
        0 <= pos <= ts.len(),
    ensures
        ({
            let r = spec_term(ts, pos);
            &&& pos <= r.next <= ts.len()
        &&& (r.result matches Result::Ok(e) ==> {
            &&& pos < r.next
            &&& lits_of_tree(e) == literals_of(ts.subrange(pos, r.next))
            &&& ((forall|i: int|
                pos <= i < r.next && is_literal_token(#[trigger] ts[i]) ==> lit_token_ok(
                    ts[i],
                )) ==> lit_only(e))
        })
        }),
    decreases rem(ts, pos), 4int, 1int,
{
    lemma_lits_factor(ts, pos);
    let f = spec_factor(ts, pos);
    match f.result {
        Result::Err(_) => {},
        Result::Ok(left) => {
            assert(advanced(ts, pos, f.next) == f.next);
            lemma_lits_term_loop(ts, f.next, left);
            let r = spec_term_loop(ts, f.next, left);
            match r.result {
                Result::Err(_) => {},
                Result::Ok(_) => {
                    lemma_lits_split(ts, pos, f.next, r.next);
                },
            }
        },
    }
}

/// As [`lemma_lits_primary`], for the `comparison` operator fold.
#[verifier::rlimit(100)]
proof fn lemma_lits_comparison_loop(ts: Seq<TokenV>, pos: int, acc: ExprV)
    requires
        0 <= pos <= ts.len(),
    ensures
        ({
            let r = spec_comparison_loop(ts, pos, acc);
            &&& pos <= r.next <= ts.len()
        &&& (r.result matches Result::Ok(e) ==> {
            &&& lits_of_tree(e) == lits_of_tree(acc) + literals_of(ts.subrange(pos, r.next))
            &&& ((lit_only(acc) && (forall|i: int|
                pos <= i < r.next && is_literal_token(#[trigger] ts[i]) ==> lit_token_ok(
                    ts[i],
                ))) ==> lit_only(e))
        })
        }),
    decreases rem(ts, pos), 5int, 0int,
{
    if 0 <= pos < ts.len() && is_comparison_op(ts[pos]) {
        lemma_lits_term(ts, pos + 1);
        let rc = spec_term(ts, pos + 1);
        match rc.result {
            Result::Err(_) => {},
            Result::Ok(rt) => {
                assert(advanced(ts, pos, rc.next) == rc.next);
                let acc2 = ExprV::Binary { left: Box::new(acc), op: ts[pos], right: Box::new(rt) };
                lemma_lits_comparison_loop(ts, rc.next, acc2);
                let r = spec_comparison_loop(ts, rc.next, acc2);
                match r.result {
                    Result::Err(_) => {},
                    Result::Ok(_) => {
                        lemma_lits_one(ts, pos);
                        lemma_lits_split(ts, pos, pos + 1, rc.next);
                        lemma_lits_split(ts, pos, rc.next, r.next);
                        assert(Seq::<TokenV>::empty() + literals_of(ts.subrange(pos + 1, rc.next))
                            =~= literals_of(ts.subrange(pos + 1, rc.next)));
                        assert((lits_of_tree(acc) + lits_of_tree(rt)) + literals_of(
                            ts.subrange(rc.next, r.next),
                        ) =~= lits_of_tree(acc) + (lits_of_tree(rt) + literals_of(
                            ts.subrange(rc.next, r.next),
                        )));
                    },
                }
            },
        }
    } else {
        assert(ts.subrange(pos, pos).len() == 0);
        assert(lits_of_tree(acc) + literals_of(ts.subrange(pos, pos)) =~= lits_of_tree(acc));
    }
}

/// As [`lemma_lits_primary`], for `spec_comparison`.
proof fn lemma_lits_comparison(ts: Seq<TokenV>, pos: int)
    requires
        0 <= pos <= ts.len(),
    ensures
        ({
            let r = spec_comparison(ts, pos);
            &&& pos <= r.next <= ts.len()
        &&& (r.result matches Result::Ok(e) ==> {
            &&& pos < r.next
            &&& lits_of_tree(e) == literals_of(ts.subrange(pos, r.next))
            &&& ((forall|i: int|
                pos <= i < r.next && is_literal_token(#[trigger] ts[i]) ==> lit_token_ok(
                    ts[i],
                )) ==> lit_only(e))
        })
        }),
    decreases rem(ts, pos), 5int, 1int,
{
    lemma_lits_term(ts, pos);
    let f = spec_term(ts, pos);
    match f.result {
        Result::Err(_) => {},
        Result::Ok(left) => {
            assert(advanced(ts, pos, f.next) == f.next);
            lemma_lits_comparison_loop(ts, f.next, left);
            let r = spec_comparison_loop(ts, f.next, left);
            match r.result {
                Result::Err(_) => {},
                Result::Ok(_) => {
                    lemma_lits_split(ts, pos, f.next, r.next);
                },
            }
        },
    }
}

/// As [`lemma_lits_primary`], for the `equality` operator fold.
#[verifier::rlimit(100)]
proof fn lemma_lits_equality_loop(ts: Seq<TokenV>, pos: int, acc: ExprV)
    requires
        0 <= pos <= ts.len(),
    ensures
        ({
            let r = spec_equality_loop(ts, pos, acc);
            &&& pos <= r.next <= ts.len()
        &&& (r.result matches Result::Ok(e) ==> {
            &&& lits_of_tree(e) == lits_of_tree(acc) + literals_of(ts.subrange(pos, r.next))
            &&& ((lit_only(acc) && (forall|i: int|
                pos <= i < r.next && is_literal_token(#[trigger] ts[i]) ==> lit_token_ok(
                    ts[i],
                ))) ==> lit_only(e))
        })
        }),
    decreases rem(ts, pos), 6int, 0int,
{
    if 0 <= pos < ts.len() && is_equality_op(ts[pos]) {
        lemma_lits_comparison(ts, pos + 1);
        let rc = spec_comparison(ts, pos + 1);
        match rc.result {
            Result::Err(_) => {},
            Result::Ok(rt) => {
                assert(advanced(ts, pos, rc.next) == rc.next);
                let acc2 = ExprV::Binary { left: Box::new(acc), op: ts[pos], right: Box::new(rt) };
                lemma_lits_equality_loop(ts, rc.next, acc2);
                let r = spec_equality_loop(ts, rc.next, acc2);
                match r.result {
                    Result::Err(_) => {},
                    Result::Ok(_) => {
                        lemma_lits_one(ts, pos);
                        lemma_lits_split(ts, pos, pos + 1, rc.next);
                        lemma_lits_split(ts, pos, rc.next, r.next);
                        assert(Seq::<TokenV>::empty() + literals_of(ts.subrange(pos + 1, rc.next))
                            =~= literals_of(ts.subrange(pos + 1, rc.next)));
                        assert((lits_of_tree(acc) + lits_of_tree(rt)) + literals_of(
                            ts.subrange(rc.next, r.next),
                        ) =~= lits_of_tree(acc) + (lits_of_tree(rt) + literals_of(
                            ts.subrange(rc.next, r.next),
                        )));
                    },
                }
            },
        }
    } else {
        assert(ts.subrange(pos, pos).len() == 0);
        assert(lits_of_tree(acc) + literals_of(ts.subrange(pos, pos)) =~= lits_of_tree(acc));
    }
}

/// As [`lemma_lits_primary`], for `spec_equality`.
proof fn lemma_lits_equality(ts: Seq<TokenV>, pos: int)
    requires
        0 <= pos <= ts.len(),
    ensures
        ({
            let r = spec_equality(ts, pos);
            &&& pos <= r.next <= ts.len()
        &&& (r.result matches Result::Ok(e) ==> {
            &&& pos < r.next
            &&& lits_of_tree(e) == literals_of(ts.subrange(pos, r.next))
            &&& ((forall|i: int|
                pos <= i < r.next && is_literal_token(#[trigger] ts[i]) ==> lit_token_ok(
                    ts[i],
                )) ==> lit_only(e))
        })
        }),
    decreases rem(ts, pos), 6int, 1int,
{
    lemma_lits_comparison(ts, pos);
    let f = spec_comparison(ts, pos);
    match f.result {
        Result::Err(_) => {},
        Result::Ok(left) => {
            assert(advanced(ts, pos, f.next) == f.next);
            lemma_lits_equality_loop(ts, f.next, left);
            let r = spec_equality_loop(ts, f.next, left);
            match r.result {
                Result::Err(_) => {},
                Result::Ok(_) => {
                    lemma_lits_split(ts, pos, f.next, r.next);
                },
            }
        },
    }
}

/// As [`lemma_lits_primary`], for `spec_expression`: the parsed tree's
/// literal tokens are exactly the literal tokens among the consumed input
/// tokens, in order; and the tree is literal-only whenever those are
/// numeric, boolean or nil literals.
pub proof fn lemma_lits_expression(ts: Seq<TokenV>, pos: int)
    requires
        0 <= pos <= ts.len(),
    ensures
        ({
            let r = spec_expression(ts, pos);
            &&& pos <= r.next <= ts.len()
        &&& (r.result matches Result::Ok(e) ==> {
            &&& pos < r.next
            &&& lits_of_tree(e) == literals_of(ts.subrange(pos, r.next))
            &&& ((forall|i: int|
                pos <= i < r.next && is_literal_token(#[trigger] ts[i]) ==> lit_token_ok(
                    ts[i],
                )) ==> lit_only(e))
        })
        }),
    decreases rem(ts, pos), 7int, 0int,
{
    lemma_lits_equality(ts, pos);
}


/// P8 end to end, over the pipeline's specifications: when a token sequence
/// whose literal tokens are all numeric, boolean or nil literals parses as
/// an expression, the parsed tree is literal-only, its literal tokens are
/// exactly the literal tokens the parse consumed, in order — and re-scanning
/// the tree's printed form reproduces exactly those literal tokens, values
/// intact, each on line 1 (the printed text is one line). The executable
/// `scan_tokens`, `parse` and `ast_printer` return exactly these
/// specification functions' outputs, so the property carries over to the
/// executable pipeline.
pub proof fn lemma_pipeline_preserves_literals(ts: Seq<TokenV>)
    requires
        forall|i: int|
            0 <= i < ts.len() && is_literal_token(#[trigger] ts[i]) ==> lit_token_ok(ts[i]),
    ensures
        ({
            let r = spec_expression(ts, 0);
            r.result matches Result::Ok(e) ==> {
                &&& lit_only(e)
                &&& lits_of_tree(e) == literals_of(ts.subrange(0, r.next))
                &&& literals_of(scan_spec(print_expr(e), 0, 1).tokens) == set_lines(
                    lits_of_tree(e),
                    1,
                )
            }
        }),
{
    lemma_lits_expression(ts, 0);
    let r = spec_expression(ts, 0);
    match r.result {
        Result::Err(_) => {},
        Result::Ok(e) => {
            assert(lit_only(e));
            lemma_print_scan_roundtrip(e);
            lemma_tree_tokens_lits(e, 1);
            lemma_literals_distribute(tree_tokens(e, 1), seq![TokenV::Eof { line: 1 }]);
            lemma_literals_singleton(TokenV::Eof { line: 1 });
            assert(scan_spec(print_expr(e), 0, 1).tokens == tree_tokens(e, 1) + seq![
                TokenV::Eof { line: 1 },
            ]);
            assert(set_lines(lits_of_tree(e), 1) + Seq::<TokenV>::empty() =~= set_lines(
                lits_of_tree(e),
                1,
            ));
        },
    }
}

} // verus!
