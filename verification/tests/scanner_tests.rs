use lox_front::exceptions::LexError;
use lox_front::scanner::Scanner;
use lox_front::token::{NumberValue, Token};

fn scan(source: &str) -> (Vec<Token>, Vec<LexError>) {
    let mut scanner = Scanner::new(source.to_string());
    scanner.scan_tokens()
}

fn num(whole: &str, frac: &str) -> NumberValue {
    NumberValue { whole: whole.to_string(), frac: frac.to_string() }
}

#[test]
fn scans_single_punctuation_one_token_per_char() {
    let (tokens, errors) = scan("(){},.-+;*");
    assert!(errors.is_empty());
    assert_eq!(
        tokens,
        vec![
            Token::LeftParen { line: 1 },
            Token::RightParen { line: 1 },
            Token::LeftBrace { line: 1 },
            Token::RightBrace { line: 1 },
            Token::Comma { line: 1 },
            Token::Dot { line: 1 },
            Token::Minus { line: 1 },
            Token::Plus { line: 1 },
            Token::Semicolon { line: 1 },
            Token::Star { line: 1 },
            Token::Eof { line: 1 },
        ]
    );
}

#[test]
fn scans_punctuation_across_lines_with_correct_lines() {
    let (tokens, errors) = scan("(\n)");
    assert!(errors.is_empty());
    assert_eq!(
        tokens,
        vec![
            Token::LeftParen { line: 1 },
            Token::RightParen { line: 2 },
            Token::Eof { line: 2 },
        ]
    );
}

#[test]
fn comment_then_number_on_line_two() {
    let (tokens, errors) = scan("// comment\n123");
    assert!(errors.is_empty());
    assert_eq!(
        tokens,
        vec![
            Token::Number { line: 2, value: num("123", "") },
            Token::Eof { line: 2 },
        ]
    );
}

#[test]
fn unterminated_string_is_an_error_and_no_token() {
    let (tokens, errors) = scan("\"abc");
    assert_eq!(errors, vec![LexError::UnterminatedString { line: 1, column: 4 }]);
    assert_eq!(tokens, vec![Token::Eof { line: 1 }]);
}

#[test]
fn string_literal_value_is_between_the_quotes() {
    let (tokens, errors) = scan("\"abc\"");
    assert!(errors.is_empty());
    assert_eq!(
        tokens,
        vec![
            Token::Str { line: 1, value: "abc".to_string() },
            Token::Eof { line: 1 },
        ]
    );
}

#[test]
fn multi_line_string_advances_the_line_counter() {
    let (tokens, errors) = scan("\"a\nb\"+");
    assert!(errors.is_empty());
    // The string token keeps the line its scan began on; the embedded
    // newline still advances the counter for what follows.
    assert_eq!(
        tokens,
        vec![
            Token::Str { line: 1, value: "a\nb".to_string() },
            Token::Plus { line: 2 },
            Token::Eof { line: 2 },
        ]
    );
}

#[test]
fn two_character_operators_combine() {
    let (tokens, errors) = scan("!= == <= >= ! = < >");
    assert!(errors.is_empty());
    assert_eq!(
        tokens,
        vec![
            Token::BangEqual { line: 1 },
            Token::EqualEqual { line: 1 },
            Token::LessEqual { line: 1 },
            Token::GreaterEqual { line: 1 },
            Token::Bang { line: 1 },
            Token::Equal { line: 1 },
            Token::Less { line: 1 },
            Token::Greater { line: 1 },
            Token::Eof { line: 1 },
        ]
    );
}

#[test]
fn slash_alone_is_a_token_comment_runs_to_line_end() {
    let (tokens, errors) = scan("/ // rest is ignored");
    assert!(errors.is_empty());
    assert_eq!(tokens, vec![Token::Slash { line: 1 }, Token::Eof { line: 1 }]);
}

#[test]
fn number_with_fraction_and_trailing_dot() {
    let (tokens, errors) = scan("12.5 7.");
    assert!(errors.is_empty());
    assert_eq!(
        tokens,
        vec![
            Token::Number { line: 1, value: num("12", "5") },
            Token::Number { line: 1, value: num("7", "") },
            Token::Dot { line: 1 },
            Token::Eof { line: 1 },
        ]
    );
}

#[test]
fn keywords_and_identifiers_use_maximal_munch() {
    let (tokens, errors) = scan("foo and orchid _x1");
    assert!(errors.is_empty());
    assert_eq!(
        tokens,
        vec![
            Token::Identifier { line: 1, text: "foo".to_string() },
            Token::And { line: 1 },
            Token::Identifier { line: 1, text: "orchid".to_string() },
            Token::Identifier { line: 1, text: "_x1".to_string() },
            Token::Eof { line: 1 },
        ]
    );
}

#[test]
fn every_keyword_is_recognized() {
    let (tokens, errors) = scan(
        "and class else false for fun if nil or print return super this true var while",
    );
    assert!(errors.is_empty());
    assert_eq!(
        tokens,
        vec![
            Token::And { line: 1 },
            Token::Class { line: 1 },
            Token::Else { line: 1 },
            Token::False { line: 1 },
            Token::For { line: 1 },
            Token::Fun { line: 1 },
            Token::If { line: 1 },
            Token::Nil { line: 1 },
            Token::Or { line: 1 },
            Token::Print { line: 1 },
            Token::Return { line: 1 },
            Token::Super { line: 1 },
            Token::This { line: 1 },
            Token::True { line: 1 },
            Token::Var { line: 1 },
            Token::While { line: 1 },
            Token::Eof { line: 1 },
        ]
    );
}

#[test]
fn unexpected_character_is_recorded_and_scanning_continues() {
    let (tokens, errors) = scan("@1");
    assert_eq!(errors, vec![LexError::UnexpectedChar { line: 1, column: 1 }]);
    assert_eq!(
        tokens,
        vec![
            Token::Number { line: 1, value: num("1", "") },
            Token::Eof { line: 1 },
        ]
    );
}

#[test]
fn several_lexical_errors_are_all_reported() {
    let (tokens, errors) = scan("@\n#");
    assert_eq!(
        errors,
        vec![
            LexError::UnexpectedChar { line: 1, column: 1 },
            LexError::UnexpectedChar { line: 2, column: 3 },
        ]
    );
    assert_eq!(tokens, vec![Token::Eof { line: 2 }]);
}

#[test]
fn empty_source_scans_to_end_of_input_marker() {
    let (tokens, errors) = scan("");
    assert!(errors.is_empty());
    assert_eq!(tokens, vec![Token::Eof { line: 1 }]);
}
