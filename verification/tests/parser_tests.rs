use lox_front::ast_printer::ast_printer;
use lox_front::exceptions::ParseError;
use lox_front::expression::Expr;
use lox_front::parser::Parser;
use lox_front::scanner::Scanner;
use lox_front::token::Token;

fn scan_ok(source: &str) -> Vec<Token> {
    let mut scanner = Scanner::new(source.to_string());
    let (tokens, errors) = scanner.scan_tokens();
    assert!(errors.is_empty());
    tokens
}

fn parse_source(source: &str) -> Result<Expr, ParseError> {
    let mut parser = Parser::new(scan_ok(source));
    parser.parse()
}

fn printed(source: &str) -> String {
    ast_printer(parse_source(source).unwrap())
}

#[test]
fn precedence_multiplication_binds_tighter() {
    assert_eq!(printed("1 + 2 * 3"), "( 1 + ( 2 * 3 ) )");
}

#[test]
fn subtraction_is_left_associative() {
    assert_eq!(printed("1 - 2 - 3"), "( ( 1 - 2 ) - 3 )");
}

#[test]
fn unary_is_right_recursive() {
    assert_eq!(printed("!!true"), "( ! ( ! true ) )");
    assert_eq!(printed("-123"), "( - 123 )");
}

#[test]
fn equality_binds_looser_than_comparison() {
    assert_eq!(printed("1 < 2 == true"), "( ( 1 < 2 ) == true )");
}

#[test]
fn grouping_overrides_precedence() {
    assert_eq!(printed("(1 + 2) * 3"), "( ( ( 1 + 2 ) ) * 3 )");
}

#[test]
fn missing_close_paren_then_synchronize_reaches_end() {
    let mut parser = Parser::new(scan_ok("(1 + 2"));
    let result = parser.parse();
    assert_eq!(result.unwrap_err(), ParseError::UnclosedGrouping { line: 1 });
    parser.synchronize();
    assert!(parser.is_at_end());
}

#[test]
fn unclosed_group_reports_line_of_offending_token() {
    let mut parser = Parser::new(scan_ok("(1 + 2\n;"));
    let result = parser.parse();
    assert_eq!(result.unwrap_err(), ParseError::UnclosedGrouping { line: 2 });
}

#[test]
fn expected_expression_when_no_primary_matches() {
    let mut parser = Parser::new(scan_ok("+"));
    assert_eq!(parser.parse().unwrap_err(), ParseError::ExpectedExpression { line: 1 });
}

#[test]
fn expected_expression_on_empty_input() {
    let mut parser = Parser::new(scan_ok(""));
    assert_eq!(parser.parse().unwrap_err(), ParseError::ExpectedExpression { line: 1 });
}

#[test]
fn synchronize_stops_after_semicolon_and_before_keyword() {
    let mut parser = Parser::new(scan_ok("+ 1 ; 2"));
    assert!(parser.parse().is_err());
    parser.synchronize();
    // Stopped just past the semicolon: the number 2 is next.
    let next = parser.peek().unwrap();
    assert!(matches!(next, Token::Number { .. }));

    let mut parser2 = Parser::new(scan_ok("+ 1 var x"));
    assert!(parser2.parse().is_err());
    parser2.synchronize();
    let next2 = parser2.peek().unwrap();
    assert!(matches!(next2, Token::Var { .. }));
}

#[test]
fn parse_is_deterministic_over_repeated_runs() {
    let source = "1 + 2 * (3 - 4) <= 5 == !true";
    let first = ast_printer(parse_source(source).unwrap());
    let second = ast_printer(parse_source(source).unwrap());
    assert_eq!(first, second);
}

#[test]
fn reformatting_printed_literals_reproduces_their_values() {
    let source = "12.5 + true * 400";
    let text = printed(source);
    assert_eq!(text, "( 12.5 + ( true * 400 ) )");
    // Re-scan the printed form and compare the literal values, ignoring
    // whitespace and structure.
    let rescanned = scan_ok(&text);
    let literals: Vec<&Token> = rescanned
        .iter()
        .filter(|t| matches!(t, Token::Number { .. } | Token::True { .. }))
        .collect();
    let originals = scan_ok(source);
    let original_literals: Vec<&Token> = originals
        .iter()
        .filter(|t| matches!(t, Token::Number { .. } | Token::True { .. }))
        .collect();
    assert_eq!(literals.len(), original_literals.len());
    for (a, b) in literals.iter().zip(original_literals.iter()) {
        match (a, b) {
            (Token::Number { value: va, .. }, Token::Number { value: vb, .. }) => {
                assert_eq!(va, vb);
            }
            (Token::True { .. }, Token::True { .. }) => {}
            _ => panic!("literal kinds diverged"),
        }
    }
}

#[test]
fn parse_leaves_cursor_after_the_expression() {
    let mut parser = Parser::new(scan_ok("1 2"));
    let first = parser.parse().unwrap();
    assert_eq!(ast_printer(first), "1");
    let next = parser.peek().unwrap();
    assert!(matches!(next, Token::Number { .. }));
}

#[test]
fn parser_primitives_report_absence_instead_of_panicking() {
    let mut parser = Parser::new(Vec::new());
    assert!(parser.peek().is_none());
    assert!(parser.previous().is_none());
    assert!(parser.advance().is_none());
    assert!(parser.is_at_end());
    parser.synchronize();
    assert!(parser.is_at_end());
}
