//! The scanner: a single left-to-right pass over the source text that
//! produces the token sequence and a list of lexical errors. The whole pass
//! is specified by the recursive function [`scan_spec`], which consumes one
//! token (or one error, or one piece of ignored text) per step; the
//! executable scanner is proved to return exactly `scan_spec`'s output.
//!
//! A lexical error never stops the scan: the offending input is skipped, the
//! error is recorded, and scanning continues, so one pass reports every
//! lexical error in the source.

use vstd::prelude::*;
use vstd::string::*;

use crate::exceptions::LexError;
use crate::token::{
    is_alnum, is_alpha, is_digit, NumberValue, Token, TokenV,
};

verus! {

/// The views of a token sequence.
pub open spec fn token_views(ts: Seq<Token>) -> Seq<TokenV> {
    ts.map_values(|t: Token| t@)
}

/// A sequence holding the content of an option: empty for `None`.
pub open spec fn opt_seq<T>(o: Option<T>) -> Seq<T> {
    match o {
        Option::None => Seq::empty(),
        Option::Some(x) => seq![x],
    }
}

/// The number of newline characters in `s[from..to)`.
pub open spec fn count_nl(s: Seq<char>, from: int, to: int) -> int
    decreases to - from,
{
    if from >= to {
        0
    } else {
        count_nl(s, from, to - 1) + if s[to - 1] == '\n' {
            1int
        } else {
            0int
        }
    }
}

/// The first position at or after `i` holding a non-digit, or the length of
/// `s` when digits run to the end.
pub open spec fn digit_run_end(s: Seq<char>, i: int) -> int
    decreases s.len() - i,
{
    if i < 0 || i >= s.len() {
        i
    } else if !is_digit(s[i]) {
        i
    } else {
        digit_run_end(s, i + 1)
    }
}

/// The first position at or after `i` holding neither a letter, digit nor
/// underscore, or the length of `s`.
pub open spec fn ident_run_end(s: Seq<char>, i: int) -> int
    decreases s.len() - i,
{
    if i < 0 || i >= s.len() {
        i
    } else if !is_alnum(s[i]) {
        i
    } else {
        ident_run_end(s, i + 1)
    }
}

/// The first position at or after `i` holding a newline, or the length of
/// `s` when the comment runs to the end.
pub open spec fn comment_end(s: Seq<char>, i: int) -> int
    decreases s.len() - i,
{
    if i < 0 || i >= s.len() {
        s.len() as int
    } else if s[i] == '\n' {
        i
    } else {
        comment_end(s, i + 1)
    }
}

/// The first position at or after `i` holding a closing quote, or the length
/// of `s` when the string literal is unterminated.
pub open spec fn string_end(s: Seq<char>, i: int) -> int
    decreases s.len() - i,
{
    if i < 0 || i >= s.len() {
        s.len() as int
    } else if s[i] == '"' {
        i
    } else {
        string_end(s, i + 1)
    }
}

/// The effect of scanning one lexeme: at most one token, at most one error,
/// the cursor position after the lexeme, and the line counter after it.
pub struct ScanStep {
    pub token: Option<TokenV>,
    pub error: Option<LexError>,
    pub next: int,
    pub line: usize,
}

/// The keyword table: a maximal alphanumeric run is a keyword token when its
/// text matches one of the reserved words exactly, and an identifier
/// carrying its text otherwise.
pub open spec fn keyword_or_ident(text: Seq<char>, line: usize) -> TokenV {
    if text == "and"@ {
        TokenV::And { line }
    } else if text == "class"@ {
        TokenV::Class { line }
    } else if text == "else"@ {
        TokenV::Else { line }
    } else if text == "false"@ {
        TokenV::False { line }
    } else if text == "for"@ {
        TokenV::For { line }
    } else if text == "fun"@ {
        TokenV::Fun { line }
    } else if text == "if"@ {
        TokenV::If { line }
    } else if text == "nil"@ {
        TokenV::Nil { line }
    } else if text == "or"@ {
        TokenV::Or { line }
    } else if text == "print"@ {
        TokenV::Print { line }
    } else if text == "return"@ {
        TokenV::Return { line }
    } else if text == "super"@ {
        TokenV::Super { line }
    } else if text == "this"@ {
        TokenV::This { line }
    } else if text == "true"@ {
        TokenV::True { line }
    } else if text == "var"@ {
        TokenV::Var { line }
    } else if text == "while"@ {
        TokenV::While { line }
    } else {
        TokenV::Identifier { line, text }
    }
}

/// One step that produces a token.
pub open spec fn step_token(t: TokenV, next: int, line: usize) -> ScanStep {
    ScanStep { token: Option::Some(t), error: Option::None, next, line }
}

/// One step that produces nothing (whitespace, newline, comment).
pub open spec fn step_skip(next: int, line: usize) -> ScanStep {
    ScanStep { token: Option::None, error: Option::None, next, line }
}

/// One step that records an error.
pub open spec fn step_error(e: LexError, next: int, line: usize) -> ScanStep {
    ScanStep { token: Option::None, error: Option::Some(e), next, line }
}

/// The step taken by a number literal starting at `pos`: a maximal digit
/// run, then a fractional digit run only when a `.` is directly followed by
/// a digit (so a trailing `.` is left unconsumed).
pub open spec fn number_step(s: Seq<char>, pos: int, line: usize) -> ScanStep {
    let w = digit_run_end(s, pos);
    if w + 1 < s.len() && s[w] == '.' && is_digit(s[w + 1]) {
        let f = digit_run_end(s, w + 1);
        step_token(
            TokenV::Number { line, whole: s.subrange(pos, w), frac: s.subrange(w + 1, f) },
            f,
            line,
        )
    } else {
        step_token(
            TokenV::Number { line, whole: s.subrange(pos, w), frac: Seq::empty() },
            w,
            line,
        )
    }
}

/// The step taken by a string literal whose opening quote stands at `pos`:
/// everything up to the next `"` is the decoded value. The token records the
/// line on which the literal's scan began; embedded newlines still advance
/// the line counter for what follows. A literal still open at the end of the
/// source is an `UnterminatedString` error, tagged with the line on which it
/// is detected.
pub open spec fn string_step(s: Seq<char>, pos: int, line: usize) -> ScanStep {
    let close = string_end(s, pos + 1);
    let l2 = (line + count_nl(s, pos + 1, close)) as usize;
    if close < s.len() {
        step_token(TokenV::Str { line, value: s.subrange(pos + 1, close) }, close + 1, l2)
    } else {
        step_error(
            LexError::UnterminatedString { line: l2, column: s.len() as usize },
            s.len() as int,
            l2,
        )
    }
}

/// The step taken by an identifier or keyword starting at `pos`: a maximal
/// run of letters, digits and underscores, looked up in the keyword table.
pub open spec fn ident_step(s: Seq<char>, pos: int, line: usize) -> ScanStep {
    let e = ident_run_end(s, pos);
    step_token(keyword_or_ident(s.subrange(pos, e), line), e, line)
}

/// The effect of scanning the single lexeme that starts at `pos` (which must
/// be within `s`). Dispatches on the first character exactly as the scanner
/// does.
pub open spec fn scan_step(s: Seq<char>, pos: int, line: usize) -> ScanStep {
    let c = s[pos];
    if c == '(' {
        step_token(TokenV::LeftParen { line }, pos + 1, line)
    } else if c == ')' {
        step_token(TokenV::RightParen { line }, pos + 1, line)
    } else if c == '{' {
        step_token(TokenV::LeftBrace { line }, pos + 1, line)
    } else if c == '}' {
        step_token(TokenV::RightBrace { line }, pos + 1, line)
    } else if c == ',' {
        step_token(TokenV::Comma { line }, pos + 1, line)
    } else if c == '.' {
        step_token(TokenV::Dot { line }, pos + 1, line)
    } else if c == '-' {
        step_token(TokenV::Minus { line }, pos + 1, line)
    } else if c == '+' {
        step_token(TokenV::Plus { line }, pos + 1, line)
    } else if c == ';' {
        step_token(TokenV::Semicolon { line }, pos + 1, line)
    } else if c == '*' {
        step_token(TokenV::Star { line }, pos + 1, line)
    } else if c == '!' {
        if pos + 1 < s.len() && s[pos + 1] == '=' {
            step_token(TokenV::BangEqual { line }, pos + 2, line)
        } else {
            step_token(TokenV::Bang { line }, pos + 1, line)
        }
    } else if c == '=' {
        if pos + 1 < s.len() && s[pos + 1] == '=' {
            step_token(TokenV::EqualEqual { line }, pos + 2, line)
        } else {
            step_token(TokenV::Equal { line }, pos + 1, line)
        }
    } else if c == '<' {
        if pos + 1 < s.len() && s[pos + 1] == '=' {
            step_token(TokenV::LessEqual { line }, pos + 2, line)
        } else {
            step_token(TokenV::Less { line }, pos + 1, line)
        }
    } else if c == '>' {
        if pos + 1 < s.len() && s[pos + 1] == '=' {
            step_token(TokenV::GreaterEqual { line }, pos + 2, line)
        } else {
            step_token(TokenV::Greater { line }, pos + 1, line)
        }
    } else if c == '/' {
        if pos + 1 < s.len() && s[pos + 1] == '/' {
            step_skip(comment_end(s, pos + 2), line)
        } else {
            step_token(TokenV::Slash { line }, pos + 1, line)
        }
    } else if c == '"' {
        string_step(s, pos, line)
    } else if c == ' ' || c == '\r' || c == '\t' {
        step_skip(pos + 1, line)
    } else if c == '\n' {
        step_skip(pos + 1, (line + 1) as usize)
    } else if is_digit(c) {
        number_step(s, pos, line)
    } else if is_alpha(c) {
        ident_step(s, pos, line)
    } else {
        step_error(
            LexError::UnexpectedChar { line, column: (pos + 1) as usize },
            pos + 1,
            line,
        )
    }
}

/// The output of a whole scan: the token sequence (ending in the
/// end-of-input marker) and every lexical error, in source order.
pub struct ScanOut {
    pub tokens: Seq<TokenV>,
    pub errors: Seq<LexError>,
}

/// The scan of `s` from position `pos` with line counter `line`: one
/// [`scan_step`] per lexeme until the source is exhausted, then the
/// end-of-input marker.
pub open spec fn scan_spec(s: Seq<char>, pos: int, line: usize) -> ScanOut
    decreases s.len() - pos,
{
    if pos < 0 || pos >= s.len() {
        ScanOut { tokens: seq![TokenV::Eof { line }], errors: Seq::empty() }
    } else {
        let st = scan_step(s, pos, line);
        let bumped = if st.next > pos {
            st.next
        } else {
            pos + 1
        };
        let next = if bumped > s.len() {
            s.len() as int
        } else {
            bumped
        };
        let rest = scan_spec(s, next, st.line);
        ScanOut {
            tokens: opt_seq(st.token) + rest.tokens,
            errors: opt_seq(st.error) + rest.errors,
        }
    }
}

/// Decides [`is_digit`] on a character.
fn is_digit_c(c: char) -> (b: bool)
    ensures
        b == is_digit(c),
{
    '0' <= c && c <= '9'
}

/// Decides [`is_alpha`] on a character.
fn is_alpha_c(c: char) -> (b: bool)
    ensures
        b == is_alpha(c),
{
    ('a' <= c && c <= 'z') || ('A' <= c && c <= 'Z') || c == '_'
}

/// Decides [`is_alnum`] on a character.
fn is_alnum_c(c: char) -> (b: bool)
    ensures
        b == is_alnum(c),
{
    is_digit_c(c) || is_alpha_c(c)
}

/// Appends a token, maintaining the view of the token buffer.
fn push_token(tokens: &mut Vec<Token>, t: Token)
    ensures
        final(tokens)@ == old(tokens)@.push(t),
        token_views(final(tokens)@) == token_views(old(tokens)@) + opt_seq(Some(t@)),
{
    let ghost t0 = tokens@;
    let ghost tv = t@;
    tokens.push(t);
    proof {
        assert(token_views(tokens@) =~= token_views(t0) + opt_seq(Some(tv)));
    }
}

/// Appends an error, maintaining the view of the error buffer.
fn push_error(errors: &mut Vec<LexError>, e: LexError)
    ensures
        final(errors)@ == old(errors)@ + opt_seq(Some(e)),
{
    let ghost e0 = errors@;
    errors.push(e);
    proof {
        assert(errors@ =~= e0 + opt_seq(Some(e)));
    }
}

/// Looks a maximal alphanumeric run up in the keyword table; see
/// [`keyword_or_ident`].
fn keyword_token(text: &str, line: usize) -> (t: Token)
    ensures
        t@ == keyword_or_ident(text@, line),
{
    let owned: String = text.to_owned();
    if owned == String::from_str("and") {
        Token::And { line }
    } else if owned == String::from_str("class") {
        Token::Class { line }
    } else if owned == String::from_str("else") {
        Token::Else { line }
    } else if owned == String::from_str("false") {
        Token::False { line }
    } else if owned == String::from_str("for") {
        Token::For { line }
    } else if owned == String::from_str("fun") {
        Token::Fun { line }
    } else if owned == String::from_str("if") {
        Token::If { line }
    } else if owned == String::from_str("nil") {
        Token::Nil { line }
    } else if owned == String::from_str("or") {
        Token::Or { line }
    } else if owned == String::from_str("print") {
        Token::Print { line }
    } else if owned == String::from_str("return") {
        Token::Return { line }
    } else if owned == String::from_str("super") {
        Token::Super { line }
    } else if owned == String::from_str("this") {
        Token::This { line }
    } else if owned == String::from_str("true") {
        Token::True { line }
    } else if owned == String::from_str("var") {
        Token::Var { line }
    } else if owned == String::from_str("while") {
        Token::While { line }
    } else {
        Token::Identifier { line, text: owned }
    }
}

/// Scanner state: the source (as text and as its character sequence), the
/// start of the lexeme being scanned, the cursor, and the line counter.
pub struct Scanner {
    source: String,
    chars: Vec<char>,
    start: usize,
    current: usize,
    line: usize,
}

impl Scanner {
    /// The source as a character sequence.
    pub closed spec fn src(&self) -> Seq<char> {
        self.chars@
    }

    /// The cursor: the position of the next unconsumed character.
    pub closed spec fn cursor(&self) -> int {
        self.current as int
    }

    /// The current 1-based line.
    pub closed spec fn line_no(&self) -> usize {
        self.line
    }

    /// Well-formedness: the character buffer mirrors the text, the cursor
    /// pair is ordered and in bounds, and the 1-based line counter cannot
    /// have passed more newlines than the cursor has consumed characters.
    pub closed spec fn wf(&self) -> bool {
        &&& self.chars@ == self.source@
        &&& self.start <= self.current <= self.chars@.len()
        &&& self.chars@.len() < usize::MAX
        &&& 1 <= self.line <= self.current + 1
    }

    /// A fresh scanner over `source`, at the start of line 1.
    pub fn new(source: String) -> (res: Scanner)
        requires
            source@.len() < usize::MAX,
        ensures
            res.wf(),
            res.src() == source@,
            res.cursor() == 0,
            res.line_no() == 1,
    {
        let n: usize = source.as_str().unicode_len();
        let mut chars: Vec<char> = Vec::new();
        let mut i: usize = 0;
        while i < n
            invariant
                i <= n,
                n == source@.len(),
                chars@ == source@.subrange(0, i as int),
            decreases n - i,
        {
            let c = source.as_str().get_char(i);
            chars.push(c);
            proof {
                assert(chars@ =~= source@.subrange(0, i + 1 as int));
            }
            i = i + 1;
        }
        proof {
            assert(chars@ =~= source@);
        }
        Scanner { source, chars, start: 0, current: 0, line: 1 }
    }

    /// True when the cursor has reached the end of the source.
    fn is_at_end(&self) -> (b: bool)
        ensures
            b == (self.cursor() >= self.src().len()),
    {
        self.current >= self.chars.len()
    }

    /// The character under the cursor, or NUL at the end of the source.
    fn peek(&self) -> (c: char)
        requires
            self.wf(),
        ensures
            c == if self.cursor() < self.src().len() {
                self.src()[self.cursor()]
            } else {
                '\0'
            },
    {
        if self.current >= self.chars.len() {
            '\0'
        } else {
            self.chars[self.current]
        }
    }

    /// The character after the cursor, or NUL when none exists. Used only to
    /// confirm that a `.` continues a number literal.
    fn peek_next(&self) -> (c: char)
        requires
            self.wf(),
        ensures
            c == if self.cursor() + 1 < self.src().len() {
                self.src()[self.cursor() + 1]
            } else {
                '\0'
            },
    {
        if self.current + 1 >= self.chars.len() {
            '\0'
        } else {
            self.chars[self.current + 1]
        }
    }

    /// Consumes and returns the character under the cursor.
    fn advance(&mut self) -> (c: char)
        requires
            old(self).wf(),
            old(self).cursor() < old(self).src().len(),
        ensures
            final(self).wf(),
            c == old(self).src()[old(self).cursor()],
            final(self).cursor() == old(self).cursor() + 1,
            final(self).src() == old(self).src(),
            final(self).line_no() == old(self).line_no(),
            final(self).start == old(self).start,
    {
        let c = self.chars[self.current];
        self.current = self.current + 1;
        c
    }

    /// Consumes a line comment: everything up to (but not including) the
    /// next newline, or to the end of the source.
    fn comment(&mut self)
        requires
            old(self).wf(),
        ensures
            final(self).wf(),
            final(self).src() == old(self).src(),
            final(self).line_no() == old(self).line_no(),
            final(self).start == old(self).start,
            final(self).cursor() == comment_end(old(self).src(), old(self).cursor()),
            old(self).cursor() <= final(self).cursor(),
    {
        let ghost s = self.src();
        let ghost c0: int = self.cursor();
        loop
            invariant
                self.wf(),
                self.src() == s,
                self.line_no() == old(self).line_no(),
                self.start == old(self).start,
                c0 <= self.cursor() <= s.len(),
                comment_end(s, c0) == comment_end(s, self.cursor()),
            ensures
                self.cursor() == comment_end(s, c0),
            decreases s.len() - self.cursor(),
        {
            if self.current >= self.chars.len() {
                break;
            }
            if self.chars[self.current] == '\n' {
                break;
            }
            self.current = self.current + 1;
        }
    }

    /// Consumes the rest of a string literal whose opening quote the scanner
    /// has just consumed, and records the token (tagged with the line on
    /// which the literal began) or the error; see [`string_step`].
    fn string(&mut self, tokens: &mut Vec<Token>, errors: &mut Vec<LexError>)
        requires
            old(self).wf(),
            old(self).cursor() == old(self).start + 1,
            old(self).start < old(self).src().len(),
        ensures
            final(self).wf(),
            final(self).src() == old(self).src(),
            final(self).start == old(self).start,
            old(self).cursor() <= final(self).cursor(),
            ({
                let st = string_step(old(self).src(), old(self).start as int, old(self).line_no());
                &&& final(self).cursor() == st.next
                &&& final(self).line_no() == st.line
                &&& token_views(final(tokens)@) == token_views(old(tokens)@) + opt_seq(st.token)
                &&& final(errors)@ == old(errors)@ + opt_seq(st.error)
            }),
    {
        let ghost s = self.src();
        let ghost p: int = self.start as int;
        let ghost l0: usize = self.line_no();
        let start_line = self.line;
        loop
            invariant
                self.wf(),
                self.src() == s,
                self.start == old(self).start,
                p == self.start as int,
                p + 1 <= self.cursor() <= s.len(),
                string_end(s, p + 1) == string_end(s, self.cursor()),
                self.line_no() as int == l0 + count_nl(s, p + 1, self.cursor()),
            ensures
                self.cursor() == string_end(s, p + 1),
            decreases s.len() - self.cursor(),
        {
            if self.current >= self.chars.len() {
                break;
            }
            let c = self.chars[self.current];
            if c == '"' {
                break;
            }
            if c == '\n' {
                self.line = self.line + 1;
            }
            self.current = self.current + 1;
        }
        if self.current >= self.chars.len() {
            push_error(
                errors,
                LexError::UnterminatedString { line: self.line, column: self.current },
            );
        } else {
            let _close = self.advance();
            let value = self.source.as_str().substring_char(
                self.start + 1,
                self.current - 1,
            ).to_owned();
            push_token(tokens, Token::Str { line: start_line, value });
        }
    }

    /// Consumes the rest of a number literal whose first digit the scanner
    /// has just consumed, and records the token; see [`number_step`].
    fn number(&mut self, tokens: &mut Vec<Token>)
        requires
            old(self).wf(),
            old(self).cursor() == old(self).start + 1,
            old(self).start < old(self).src().len(),
            is_digit(old(self).src()[old(self).start as int]),
        ensures
            final(self).wf(),
            final(self).src() == old(self).src(),
            final(self).start == old(self).start,
            final(self).line_no() == old(self).line_no(),
            old(self).cursor() <= final(self).cursor(),
            ({
                let st = number_step(old(self).src(), old(self).start as int, old(self).line_no());
                &&& final(self).cursor() == st.next
                &&& token_views(final(tokens)@) == token_views(old(tokens)@) + opt_seq(st.token)
            }),
    {
        let ghost s = self.src();
        let ghost p: int = self.start as int;
        loop
            invariant
                self.wf(),
                self.src() == s,
                self.start == old(self).start,
                self.line_no() == old(self).line_no(),
                p == self.start as int,
                p + 1 <= self.cursor() <= s.len(),
                digit_run_end(s, p) == digit_run_end(s, self.cursor()),
            ensures
                self.cursor() == digit_run_end(s, p),
            decreases s.len() - self.cursor(),
        {
            if self.current >= self.chars.len() {
                break;
            }
            if !is_digit_c(self.chars[self.current]) {
                break;
            }
            self.current = self.current + 1;
        }
        let w = self.current;
        let pk = self.peek();
        let pk_next = self.peek_next();
        if pk == '.' && is_digit_c(pk_next) {
            let _dot = self.advance();
            loop
                invariant
                    self.wf(),
                    self.src() == s,
                    self.start == old(self).start,
                    self.line_no() == old(self).line_no(),
                    p == self.start as int,
                    w + 1 <= self.cursor() <= s.len(),
                    digit_run_end(s, w + 1) == digit_run_end(s, self.cursor()),
                ensures
                    self.cursor() == digit_run_end(s, w + 1),
                decreases s.len() - self.cursor(),
            {
                if self.current >= self.chars.len() {
                    break;
                }
                if !is_digit_c(self.chars[self.current]) {
                    break;
                }
                self.current = self.current + 1;
            }
            let whole = self.source.as_str().substring_char(self.start, w).to_owned();
            let frac = self.source.as_str().substring_char(w + 1, self.current).to_owned();
            push_token(
                tokens,
                Token::Number { line: self.line, value: NumberValue { whole, frac } },
            );
        } else {
            let whole = self.source.as_str().substring_char(self.start, w).to_owned();
            push_token(
                tokens,
                Token::Number {
                    line: self.line,
                    value: NumberValue { whole, frac: String::new() },
                },
            );
        }
    }

    /// Consumes the rest of an identifier or keyword whose first character
    /// the scanner has just consumed, and records the token; see
    /// [`ident_step`].
    fn identifier(&mut self, tokens: &mut Vec<Token>)
        requires
            old(self).wf(),
            old(self).cursor() == old(self).start + 1,
            old(self).start < old(self).src().len(),
            is_alpha(old(self).src()[old(self).start as int]),
        ensures
            final(self).wf(),
            final(self).src() == old(self).src(),
            final(self).start == old(self).start,
            final(self).line_no() == old(self).line_no(),
            old(self).cursor() <= final(self).cursor(),
            ({
                let st = ident_step(old(self).src(), old(self).start as int, old(self).line_no());
                &&& final(self).cursor() == st.next
                &&& token_views(final(tokens)@) == token_views(old(tokens)@) + opt_seq(st.token)
            }),
    {
        let ghost s = self.src();
        let ghost p: int = self.start as int;
        loop
            invariant
                self.wf(),
                self.src() == s,
                self.start == old(self).start,
                self.line_no() == old(self).line_no(),
                p == self.start as int,
                p + 1 <= self.cursor() <= s.len(),
                ident_run_end(s, p + 1) == ident_run_end(s, self.cursor()),
            ensures
                self.cursor() == ident_run_end(s, p + 1),
            decreases s.len() - self.cursor(),
        {
            if self.current >= self.chars.len() {
                break;
            }
            if !is_alnum_c(self.chars[self.current]) {
                break;
            }
            self.current = self.current + 1;
        }
        proof {
            assert(ident_run_end(s, p) == ident_run_end(s, p + 1));
        }
        let text = self.source.as_str().substring_char(self.start, self.current);
        let tok = keyword_token(text, self.line);
        push_token(tokens, tok);
    }

    /// Consumes the character under the cursor when it equals `expected`.
    fn match_char(&mut self, expected: char) -> (b: bool)
        requires
            old(self).wf(),
        ensures
            final(self).wf(),
            b == (old(self).cursor() < old(self).src().len()
                && old(self).src()[old(self).cursor()] == expected),
            final(self).cursor() == old(self).cursor() + if b {
                1int
            } else {
                0int
            },
            final(self).src() == old(self).src(),
            final(self).line_no() == old(self).line_no(),
            final(self).start == old(self).start,
    {
        if self.current >= self.chars.len() {
            return false;
        }
        if self.chars[self.current] != expected {
            return false;
        }
        self.current = self.current + 1;
        true
    }

    /// Scans the single lexeme that starts at the cursor, appending its
    /// token or its error; the effect is exactly one [`scan_step`].
    fn scan_token(&mut self, tokens: &mut Vec<Token>, errors: &mut Vec<LexError>)
        requires
            old(self).wf(),
            old(self).cursor() < old(self).src().len(),
        ensures
            final(self).wf(),
            final(self).src() == old(self).src(),
            ({
                let st = scan_step(old(self).src(), old(self).cursor(), old(self).line_no());
                &&& old(self).cursor() < st.next <= old(self).src().len()
                &&& final(self).cursor() == st.next
                &&& final(self).line_no() == st.line
                &&& token_views(final(tokens)@) == token_views(old(tokens)@) + opt_seq(st.token)
                &&& final(errors)@ == old(errors)@ + opt_seq(st.error)
            }),
    {
        self.start = self.current;
        let line = self.line;
        let c = self.advance();
        match c {
            '(' => push_token(tokens, Token::LeftParen { line }),
            ')' => push_token(tokens, Token::RightParen { line }),
            '{' => push_token(tokens, Token::LeftBrace { line }),
            '}' => push_token(tokens, Token::RightBrace { line }),
            ',' => push_token(tokens, Token::Comma { line }),
            '.' => push_token(tokens, Token::Dot { line }),
            '-' => push_token(tokens, Token::Minus { line }),
            '+' => push_token(tokens, Token::Plus { line }),
            ';' => push_token(tokens, Token::Semicolon { line }),
            '*' => push_token(tokens, Token::Star { line }),
            '!' => {
                if self.match_char('=') {
                    push_token(tokens, Token::BangEqual { line });
                } else {
                    push_token(tokens, Token::Bang { line });
                }
            },
            '=' => {
                if self.match_char('=') {
                    push_token(tokens, Token::EqualEqual { line });
                } else {
                    push_token(tokens, Token::Equal { line });
                }
            },
            '<' => {
                if self.match_char('=') {
                    push_token(tokens, Token::LessEqual { line });
                } else {
                    push_token(tokens, Token::Less { line });
                }
            },
            '>' => {
                if self.match_char('=') {
                    push_token(tokens, Token::GreaterEqual { line });
                } else {
                    push_token(tokens, Token::Greater { line });
                }
            },
            '/' => {
                if self.match_char('/') {
                    self.comment();
                } else {
                    push_token(tokens, Token::Slash { line });
                }
            },
            '"' => self.string(tokens, errors),
            ' ' | '\r' | '\t' => (),
            '\n' => {
                self.line = self.line + 1;
            },
            _ => {
                if is_digit_c(c) {
                    self.number(tokens);
                } else if is_alpha_c(c) {
                    self.identifier(tokens);
                } else {
                    push_error(
                        errors,
                        LexError::UnexpectedChar { line, column: self.current },
                    );
                }
            },
        }
        proof {
            let st = scan_step(old(self).src(), old(self).cursor(), old(self).line_no());
            assert(token_views(tokens@) =~= token_views(old(tokens)@) + opt_seq(st.token));
            assert(errors@ =~= old(errors)@ + opt_seq(st.error));
        }
    }

    /// Scans the whole remaining source: one token per lexeme, every lexical
    /// error recorded, and the end-of-input marker appended last. The result
    /// is exactly the output of [`scan_spec`] from the scanner's state.
    pub fn scan_tokens(&mut self) -> (r: (Vec<Token>, Vec<LexError>))
        requires
            old(self).wf(),
        ensures
            final(self).wf(),
            final(self).src() == old(self).src(),
            old(self).cursor() <= final(self).cursor(),
            final(self).cursor() == old(self).src().len(),
            token_views(r.0@) == scan_spec(
                old(self).src(),
                old(self).cursor(),
                old(self).line_no(),
            ).tokens,
            r.1@ == scan_spec(old(self).src(), old(self).cursor(), old(self).line_no()).errors,
    {
        let ghost s0 = self.src();
        let ghost c0: int = self.cursor();
        let ghost l0: usize = self.line_no();
        let mut tokens: Vec<Token> = Vec::new();
        let mut errors: Vec<LexError> = Vec::new();
        proof {
            assert(token_views(tokens@) =~= Seq::<TokenV>::empty());
            assert(Seq::<TokenV>::empty() + scan_spec(s0, c0, l0).tokens =~= scan_spec(
                s0,
                c0,
                l0,
            ).tokens);
            assert(Seq::<LexError>::empty() + scan_spec(s0, c0, l0).errors =~= scan_spec(
                s0,
                c0,
                l0,
            ).errors);
        }
        while !self.is_at_end()
            invariant
                self.wf(),
                self.src() == s0,
                c0 <= self.cursor(),
                scan_spec(s0, c0, l0).tokens == token_views(tokens@) + scan_spec(
                    s0,
                    self.cursor(),
                    self.line_no(),
                ).tokens,
                scan_spec(s0, c0, l0).errors == errors@ + scan_spec(
                    s0,
                    self.cursor(),
                    self.line_no(),
                ).errors,
            decreases s0.len() - self.cursor(),
        {
            let ghost cur_pre: int = self.cursor();
            let ghost line_pre: usize = self.line_no();
            let ghost t_pre = tokens@;
            let ghost e_pre = errors@;
            self.scan_token(&mut tokens, &mut errors);
            proof {
                let st = scan_step(s0, cur_pre, line_pre);
                assert(scan_spec(s0, cur_pre, line_pre).tokens == opt_seq(st.token) + scan_spec(
                    s0,
                    st.next,
                    st.line,
                ).tokens);
                assert(token_views(t_pre) + (opt_seq(st.token) + scan_spec(
                    s0,
                    st.next,
                    st.line,
                ).tokens) =~= (token_views(t_pre) + opt_seq(st.token)) + scan_spec(
                    s0,
                    st.next,
                    st.line,
                ).tokens);
                assert(e_pre + (opt_seq(st.error) + scan_spec(s0, st.next, st.line).errors) =~= (
                e_pre + opt_seq(st.error)) + scan_spec(s0, st.next, st.line).errors);
            }
        }
        let eof = Token::Eof { line: self.line };
        let ghost t_end = tokens@;
        tokens.push(eof);
        proof {
            assert(scan_spec(s0, self.cursor(), self.line_no()).tokens == seq![
                TokenV::Eof { line: self.line_no() },
            ]);
            assert(token_views(tokens@) =~= token_views(t_end) + seq![
                TokenV::Eof { line: self.line_no() },
            ]);
            assert(errors@ + scan_spec(s0, self.cursor(), self.line_no()).errors =~= errors@);
        }
        (tokens, errors)
    }
}

} // verus!
