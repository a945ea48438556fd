use strix::ast::AstPrinter;
use strix::expr::Expr;
use strix::num::Number;
use strix::parser::Parser;
use strix::scanner::scan;
use strix::tokenizer::Literal;
use strix::tokenizer::Token;
use strix::tokenizer::TokenType;

#[test]
fn pretty_print_ast() {
    // Represents the expression: -123 * (45.67)
    let expression = Expr::new_binary(
        Box::new(Expr::new_unary(
            Token::new(TokenType::Minus, "-".to_string(), None, 1),
            Box::new(Expr::new_literal(Literal::Num(Number::Finite {
                neg: false,
                mag: 123_000_000,
            }))),
        )),
        Token::new(TokenType::Star, "*".to_string(), None, 1),
        Box::new(Expr::new_grouping(Box::new(Expr::new_literal(
            Literal::Num(Number::Finite {
                neg: false,
                mag: 45_670_000,
            }),
        )))),
    );

    let mut printer = AstPrinter::new();
    let result = printer.print(expression);

    assert_eq!(result, "(* (- 123) (group 45.67))".to_string())
}

#[test]
fn print_of_parsed_grouping() {
    let (tokens, errors) = scan("-123 * (45.67)");
    assert!(errors.is_empty());
    let mut parser = Parser::from(tokens);
    let expr = parser.parse().unwrap();
    let mut printer = AstPrinter::new();
    assert_eq!(printer.print(expr), "(* (- 123) (group 45.67))");
}

#[test]
fn print_literals() {
    let mut printer = AstPrinter::new();
    assert_eq!(printer.print(Expr::new_literal(Literal::Nil)), "nil");
    assert_eq!(
        printer.print(Expr::new_literal(Literal::Bool(true))),
        "true"
    );
    assert_eq!(
        printer.print(Expr::new_literal(Literal::Bool(false))),
        "false"
    );
    assert_eq!(
        printer.print(Expr::new_literal(Literal::Str("owl".to_string()))),
        "owl"
    );
    assert_eq!(
        printer.print(Expr::new_literal(Literal::Num(Number::Nan))),
        "NaN"
    );
    assert_eq!(
        printer.print(Expr::new_literal(Literal::Num(Number::Infinite {
            neg: true
        }))),
        "-inf"
    );
}

#[test]
fn number_texts() {
    assert_eq!(
        Number::Finite {
            neg: false,
            mag: 0
        }
        .to_text(),
        "0"
    );
    assert_eq!(
        Number::Finite {
            neg: true,
            mag: 3_500_000
        }
        .to_text(),
        "-3.5"
    );
    assert_eq!(
        Number::Finite {
            neg: false,
            mag: 50_000
        }
        .to_text(),
        "0.05"
    );
    assert_eq!(Number::from_u64(123).to_text(), "123");
    assert_eq!(Number::Infinite { neg: false }.to_text(), "inf");
}
