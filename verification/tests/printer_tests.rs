use lox_front::ast_printer::ast_printer;
use lox_front::expression::Expr::{Binary, Grouping, Literal, Unary};
use lox_front::token::NumberValue;
use lox_front::token::Token::{Minus, Number, Star};

fn num(whole: &str, frac: &str) -> NumberValue {
    NumberValue { whole: whole.to_string(), frac: frac.to_string() }
}

#[test]
fn test_ast_printer() {
    let expression = Binary {
        left: Box::new(Unary {
            op: Minus { line: 1 },
            expr: Box::new(Literal {
                val: Number {
                    line: 1,
                    value: num("123", ""),
                },
            }),
        }),
        op: Star { line: 1 },
        right: Box::new(Grouping {
            expr: Box::new(Literal {
                val: Number {
                    line: 1,
                    value: num("45", "67"),
                },
            }),
        }),
    };

    println!("{}", ast_printer(expression));
}

#[test]
fn printer_renders_parenthesized_form() {
    let expression = Binary {
        left: Box::new(Unary {
            op: Minus { line: 1 },
            expr: Box::new(Literal { val: Number { line: 1, value: num("123", "") } }),
        }),
        op: Star { line: 1 },
        right: Box::new(Grouping {
            expr: Box::new(Literal { val: Number { line: 1, value: num("45", "67") } }),
        }),
    };
    assert_eq!(ast_printer(expression), "( ( - 123 ) * ( 45.67 ) )");
}

#[test]
fn printer_renders_number_without_fraction_bare() {
    let e = Literal { val: Number { line: 3, value: num("400", "") } };
    assert_eq!(ast_printer(e), "400");
}

#[test]
fn printer_renders_string_literal_contents() {
    let e = Literal {
        val: lox_front::token::Token::Str { line: 1, value: "hi there".to_string() },
    };
    assert_eq!(ast_printer(e), "hi there");
}

#[test]
fn printer_renders_keyword_literals() {
    let t = Literal { val: lox_front::token::Token::True { line: 1 } };
    assert_eq!(ast_printer(t), "true");
    let n = Literal { val: lox_front::token::Token::Nil { line: 1 } };
    assert_eq!(ast_printer(n), "nil");
}
