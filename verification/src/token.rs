//! The token model: the lexical categories of the language, each tagged with
//! the 1-based source line on which its scan began. Literal-bearing variants
//! carry a decoded value: the digits of a number literal, the contents of a
//! string literal, the text of an identifier.
//!
//! `Token` is the executable type; `TokenV` is its mathematical view, with
//! `Seq<char>` in place of `String`, so that specifications can build and
//! compare tokens.

use vstd::prelude::*;
use vstd::string::*;

verus! {

/// The decoded value of a number literal: the digit run before the decimal
/// point and the (possibly empty) digit run after it. The representation is
/// exact; no rounding takes place while scanning.
#[derive(Debug, PartialEq, Eq)]
pub struct NumberValue {
    /// Digits of the whole part, as scanned (at least one).
    pub whole: String,
    /// Digits of the fractional part; empty when the literal had no `.`.
    pub frac: String,
}

impl NumberValue {
    /// A number value is well formed when the whole part is a nonempty digit
    /// run and the fractional part is a digit run.
    pub open spec fn wf(&self) -> bool {
        &&& self.whole@.len() > 0
        &&& forall|i: int| 0 <= i < self.whole@.len() ==> is_digit(#[trigger] self.whole@[i])
        &&& forall|i: int| 0 <= i < self.frac@.len() ==> is_digit(#[trigger] self.frac@[i])
    }
}

impl Clone for NumberValue {
    fn clone(&self) -> (res: Self)
        ensures
            res == *self,
    {
        NumberValue { whole: self.whole.clone(), frac: self.frac.clone() }
    }
}

/// One lexical unit. Every variant records the 1-based line on which its
/// scan began, a string literal that spans lines included.
#[derive(Debug, PartialEq, Eq)]
#[allow(inconsistent_fields)]
pub enum Token {
    LeftParen { line: usize },
    RightParen { line: usize },
    LeftBrace { line: usize },
    RightBrace { line: usize },
    Comma { line: usize },
    Dot { line: usize },
    Minus { line: usize },
    Plus { line: usize },
    Semicolon { line: usize },
    Star { line: usize },
    Slash { line: usize },
    Bang { line: usize },
    BangEqual { line: usize },
    Equal { line: usize },
    EqualEqual { line: usize },
    Less { line: usize },
    LessEqual { line: usize },
    Greater { line: usize },
    GreaterEqual { line: usize },
    Identifier { line: usize, text: String },
    Str { line: usize, value: String },
    Number { line: usize, value: NumberValue },
    And { line: usize },
    Class { line: usize },
    Else { line: usize },
    False { line: usize },
    For { line: usize },
    Fun { line: usize },
    If { line: usize },
    Nil { line: usize },
    Or { line: usize },
    Print { line: usize },
    Return { line: usize },
    Super { line: usize },
    This { line: usize },
    True { line: usize },
    Var { line: usize },
    While { line: usize },
    Eof { line: usize },
}

/// The mathematical view of a token: the same categories, with character
/// sequences in place of owned strings.
pub enum TokenV {
    LeftParen { line: usize },
    RightParen { line: usize },
    LeftBrace { line: usize },
    RightBrace { line: usize },
    Comma { line: usize },
    Dot { line: usize },
    Minus { line: usize },
    Plus { line: usize },
    Semicolon { line: usize },
    Star { line: usize },
    Slash { line: usize },
    Bang { line: usize },
    BangEqual { line: usize },
    Equal { line: usize },
    EqualEqual { line: usize },
    Less { line: usize },
    LessEqual { line: usize },
    Greater { line: usize },
    GreaterEqual { line: usize },
    Identifier { line: usize, text: Seq<char> },
    Str { line: usize, value: Seq<char> },
    Number { line: usize, whole: Seq<char>, frac: Seq<char> },
    And { line: usize },
    Class { line: usize },
    Else { line: usize },
    False { line: usize },
    For { line: usize },
    Fun { line: usize },
    If { line: usize },
    Nil { line: usize },
    Or { line: usize },
    Print { line: usize },
    Return { line: usize },
    Super { line: usize },
    This { line: usize },
    True { line: usize },
    Var { line: usize },
    While { line: usize },
    Eof { line: usize },
}

impl View for Token {
    type V = TokenV;

    open spec fn view(&self) -> TokenV {
        match self {
            Token::LeftParen { line } => TokenV::LeftParen { line: *line },
            Token::RightParen { line } => TokenV::RightParen { line: *line },
            Token::LeftBrace { line } => TokenV::LeftBrace { line: *line },
            Token::RightBrace { line } => TokenV::RightBrace { line: *line },
            Token::Comma { line } => TokenV::Comma { line: *line },
            Token::Dot { line } => TokenV::Dot { line: *line },
            Token::Minus { line } => TokenV::Minus { line: *line },
            Token::Plus { line } => TokenV::Plus { line: *line },
            Token::Semicolon { line } => TokenV::Semicolon { line: *line },
            Token::Star { line } => TokenV::Star { line: *line },
            Token::Slash { line } => TokenV::Slash { line: *line },
            Token::Bang { line } => TokenV::Bang { line: *line },
            Token::BangEqual { line } => TokenV::BangEqual { line: *line },
            Token::Equal { line } => TokenV::Equal { line: *line },
            Token::EqualEqual { line } => TokenV::EqualEqual { line: *line },
            Token::Less { line } => TokenV::Less { line: *line },
            Token::LessEqual { line } => TokenV::LessEqual { line: *line },
            Token::Greater { line } => TokenV::Greater { line: *line },
            Token::GreaterEqual { line } => TokenV::GreaterEqual { line: *line },
            Token::Identifier { line, text } => TokenV::Identifier { line: *line, text: text@ },
            Token::Str { line, value } => TokenV::Str { line: *line, value: value@ },
            Token::Number { line, value } => TokenV::Number {
                line: *line,
                whole: value.whole@,
                frac: value.frac@,
            },
            Token::And { line } => TokenV::And { line: *line },
            Token::Class { line } => TokenV::Class { line: *line },
            Token::Else { line } => TokenV::Else { line: *line },
            Token::False { line } => TokenV::False { line: *line },
            Token::For { line } => TokenV::For { line: *line },
            Token::Fun { line } => TokenV::Fun { line: *line },
            Token::If { line } => TokenV::If { line: *line },
            Token::Nil { line } => TokenV::Nil { line: *line },
            Token::Or { line } => TokenV::Or { line: *line },
            Token::Print { line } => TokenV::Print { line: *line },
            Token::Return { line } => TokenV::Return { line: *line },
            Token::Super { line } => TokenV::Super { line: *line },
            Token::This { line } => TokenV::This { line: *line },
            Token::True { line } => TokenV::True { line: *line },
            Token::Var { line } => TokenV::Var { line: *line },
            Token::While { line } => TokenV::While { line: *line },
            Token::Eof { line } => TokenV::Eof { line: *line },
        }
    }
}

impl Clone for Token {
    fn clone(&self) -> (res: Self)
        ensures
            res == *self,
    {
        match self {
            Token::LeftParen { line } => Token::LeftParen { line: *line },
            Token::RightParen { line } => Token::RightParen { line: *line },
            Token::LeftBrace { line } => Token::LeftBrace { line: *line },
            Token::RightBrace { line } => Token::RightBrace { line: *line },
            Token::Comma { line } => Token::Comma { line: *line },
            Token::Dot { line } => Token::Dot { line: *line },
            Token::Minus { line } => Token::Minus { line: *line },
            Token::Plus { line } => Token::Plus { line: *line },
            Token::Semicolon { line } => Token::Semicolon { line: *line },
            Token::Star { line } => Token::Star { line: *line },
            Token::Slash { line } => Token::Slash { line: *line },
            Token::Bang { line } => Token::Bang { line: *line },
            Token::BangEqual { line } => Token::BangEqual { line: *line },
            Token::Equal { line } => Token::Equal { line: *line },
            Token::EqualEqual { line } => Token::EqualEqual { line: *line },
            Token::Less { line } => Token::Less { line: *line },
            Token::LessEqual { line } => Token::LessEqual { line: *line },
            Token::Greater { line } => Token::Greater { line: *line },
            Token::GreaterEqual { line } => Token::GreaterEqual { line: *line },
            Token::Identifier { line, text } => Token::Identifier {
                line: *line,
                text: text.clone(),
            },
            Token::Str { line, value } => Token::Str { line: *line, value: value.clone() },
            Token::Number { line, value } => Token::Number { line: *line, value: value.clone() },
            Token::And { line } => Token::And { line: *line },
            Token::Class { line } => Token::Class { line: *line },
            Token::Else { line } => Token::Else { line: *line },
            Token::False { line } => Token::False { line: *line },
            Token::For { line } => Token::For { line: *line },
            Token::Fun { line } => Token::Fun { line: *line },
            Token::If { line } => Token::If { line: *line },
            Token::Nil { line } => Token::Nil { line: *line },
            Token::Or { line } => Token::Or { line: *line },
            Token::Print { line } => Token::Print { line: *line },
            Token::Return { line } => Token::Return { line: *line },
            Token::Super { line } => Token::Super { line: *line },
            Token::This { line } => Token::This { line: *line },
            Token::True { line } => Token::True { line: *line },
            Token::Var { line } => Token::Var { line: *line },
            Token::While { line } => Token::While { line: *line },
            Token::Eof { line } => Token::Eof { line: *line },
        }
    }
}

/// True of a decimal digit.
pub open spec fn is_digit(c: char) -> bool {
    '0' <= c && c <= '9'
}

/// True of a character that may start an identifier or keyword.
pub open spec fn is_alpha(c: char) -> bool {
    ('a' <= c && c <= 'z') || ('A' <= c && c <= 'Z') || c == '_'
}

/// True of a character that may continue an identifier or keyword.
pub open spec fn is_alnum(c: char) -> bool {
    is_digit(c) || is_alpha(c)
}

/// The line recorded in a token.
pub open spec fn line_of(t: TokenV) -> usize {
    match t {
        TokenV::LeftParen { line } => line,
        TokenV::RightParen { line } => line,
        TokenV::LeftBrace { line } => line,
        TokenV::RightBrace { line } => line,
        TokenV::Comma { line } => line,
        TokenV::Dot { line } => line,
        TokenV::Minus { line } => line,
        TokenV::Plus { line } => line,
        TokenV::Semicolon { line } => line,
        TokenV::Star { line } => line,
        TokenV::Slash { line } => line,
        TokenV::Bang { line } => line,
        TokenV::BangEqual { line } => line,
        TokenV::Equal { line } => line,
        TokenV::EqualEqual { line } => line,
        TokenV::Less { line } => line,
        TokenV::LessEqual { line } => line,
        TokenV::Greater { line } => line,
        TokenV::GreaterEqual { line } => line,
        TokenV::Identifier { line, .. } => line,
        TokenV::Str { line, .. } => line,
        TokenV::Number { line, .. } => line,
        TokenV::And { line } => line,
        TokenV::Class { line } => line,
        TokenV::Else { line } => line,
        TokenV::False { line } => line,
        TokenV::For { line } => line,
        TokenV::Fun { line } => line,
        TokenV::If { line } => line,
        TokenV::Nil { line } => line,
        TokenV::Or { line } => line,
        TokenV::Print { line } => line,
        TokenV::Return { line } => line,
        TokenV::Super { line } => line,
        TokenV::This { line } => line,
        TokenV::True { line } => line,
        TokenV::Var { line } => line,
        TokenV::While { line } => line,
        TokenV::Eof { line } => line,
    }
}

/// The canonical text of a token: the lexeme of a fixed token, the decoded
/// digits of a number, the contents of a string literal, the text of an
/// identifier. The end-of-input marker has no text.
pub open spec fn token_text(t: TokenV) -> Seq<char> {
    match t {
        TokenV::LeftParen { .. } => "("@,
        TokenV::RightParen { .. } => ")"@,
        TokenV::LeftBrace { .. } => "{"@,
        TokenV::RightBrace { .. } => "}"@,
        TokenV::Comma { .. } => ","@,
        TokenV::Dot { .. } => "."@,
        TokenV::Minus { .. } => "-"@,
        TokenV::Plus { .. } => "+"@,
        TokenV::Semicolon { .. } => ";"@,
        TokenV::Star { .. } => "*"@,
        TokenV::Slash { .. } => "/"@,
        TokenV::Bang { .. } => "!"@,
        TokenV::BangEqual { .. } => "!="@,
        TokenV::Equal { .. } => "="@,
        TokenV::EqualEqual { .. } => "=="@,
        TokenV::Less { .. } => "<"@,
        TokenV::LessEqual { .. } => "<="@,
        TokenV::Greater { .. } => ">"@,
        TokenV::GreaterEqual { .. } => ">="@,
        TokenV::Identifier { text, .. } => text,
        TokenV::Str { value, .. } => value,
        TokenV::Number { whole, frac, .. } => number_text(whole, frac),
        TokenV::And { .. } => "and"@,
        TokenV::Class { .. } => "class"@,
        TokenV::Else { .. } => "else"@,
        TokenV::False { .. } => "false"@,
        TokenV::For { .. } => "for"@,
        TokenV::Fun { .. } => "fun"@,
        TokenV::If { .. } => "if"@,
        TokenV::Nil { .. } => "nil"@,
        TokenV::Or { .. } => "or"@,
        TokenV::Print { .. } => "print"@,
        TokenV::Return { .. } => "return"@,
        TokenV::Super { .. } => "super"@,
        TokenV::This { .. } => "this"@,
        TokenV::True { .. } => "true"@,
        TokenV::Var { .. } => "var"@,
        TokenV::While { .. } => "while"@,
        TokenV::Eof { .. } => Seq::empty(),
    }
}

/// The text of a number literal: the whole digits, then `.` and the
/// fractional digits when there are any.
pub open spec fn number_text(whole: Seq<char>, frac: Seq<char>) -> Seq<char> {
    if frac.len() == 0 {
        whole
    } else {
        whole + seq!['.'] + frac
    }
}

impl Token {
    /// The line recorded in this token.
    pub fn line(&self) -> (l: usize)
        ensures
            l == line_of(self@),
    {
        match self {
            Token::LeftParen { line } => *line,
            Token::RightParen { line } => *line,
            Token::LeftBrace { line } => *line,
            Token::RightBrace { line } => *line,
            Token::Comma { line } => *line,
            Token::Dot { line } => *line,
            Token::Minus { line } => *line,
            Token::Plus { line } => *line,
            Token::Semicolon { line } => *line,
            Token::Star { line } => *line,
            Token::Slash { line } => *line,
            Token::Bang { line } => *line,
            Token::BangEqual { line } => *line,
            Token::Equal { line } => *line,
            Token::EqualEqual { line } => *line,
            Token::Less { line } => *line,
            Token::LessEqual { line } => *line,
            Token::Greater { line } => *line,
            Token::GreaterEqual { line } => *line,
            Token::Identifier { line, .. } => *line,
            Token::Str { line, .. } => *line,
            Token::Number { line, .. } => *line,
            Token::And { line } => *line,
            Token::Class { line } => *line,
            Token::Else { line } => *line,
            Token::False { line } => *line,
            Token::For { line } => *line,
            Token::Fun { line } => *line,
            Token::If { line } => *line,
            Token::Nil { line } => *line,
            Token::Or { line } => *line,
            Token::Print { line } => *line,
            Token::Return { line } => *line,
            Token::Super { line } => *line,
            Token::This { line } => *line,
            Token::True { line } => *line,
            Token::Var { line } => *line,
            Token::While { line } => *line,
            Token::Eof { line } => *line,
        }
    }

    /// The canonical text of this token; see [`token_text`].
    pub fn text(&self) -> (s: String)
        ensures
            s@ == token_text(self@),
    {
        match self {
            Token::LeftParen { .. } => String::from_str("("),
            Token::RightParen { .. } => String::from_str(")"),
            Token::LeftBrace { .. } => String::from_str("{"),
            Token::RightBrace { .. } => String::from_str("}"),
            Token::Comma { .. } => String::from_str(","),
            Token::Dot { .. } => String::from_str("."),
            Token::Minus { .. } => String::from_str("-"),
            Token::Plus { .. } => String::from_str("+"),
            Token::Semicolon { .. } => String::from_str(";"),
            Token::Star { .. } => String::from_str("*"),
            Token::Slash { .. } => String::from_str("/"),
            Token::Bang { .. } => String::from_str("!"),
            Token::BangEqual { .. } => String::from_str("!="),
            Token::Equal { .. } => String::from_str("="),
            Token::EqualEqual { .. } => String::from_str("=="),
            Token::Less { .. } => String::from_str("<"),
            Token::LessEqual { .. } => String::from_str("<="),
            Token::Greater { .. } => String::from_str(">"),
            Token::GreaterEqual { .. } => String::from_str(">="),
            Token::Identifier { text, .. } => text.clone(),
            Token::Str { value, .. } => value.clone(),
            Token::Number { value, .. } => {
                let mut s = value.whole.clone();
                if !value.frac.as_str().is_empty() {
                    proof {
                        reveal_strlit(".");
                        assert("."@ =~= seq!['.']);
                    }
                    s.append(".");
                    s.append(value.frac.as_str());
                    proof {
                        assert(s@ =~= number_text(value.whole@, value.frac@));
                    }
                }
                s
            },
            Token::And { .. } => String::from_str("and"),
            Token::Class { .. } => String::from_str("class"),
            Token::Else { .. } => String::from_str("else"),
            Token::False { .. } => String::from_str("false"),
            Token::For { .. } => String::from_str("for"),
            Token::Fun { .. } => String::from_str("fun"),
            Token::If { .. } => String::from_str("if"),
            Token::Nil { .. } => String::from_str("nil"),
            Token::Or { .. } => String::from_str("or"),
            Token::Print { .. } => String::from_str("print"),
            Token::Return { .. } => String::from_str("return"),
            Token::Super { .. } => String::from_str("super"),
            Token::This { .. } => String::from_str("this"),
            Token::True { .. } => String::from_str("true"),
            Token::Var { .. } => String::from_str("var"),
            Token::While { .. } => String::from_str("while"),
            Token::Eof { .. } => String::new(),
        }
    }
}

} // verus!
