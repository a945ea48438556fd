use strix::ast::AstPrinter;
use strix::interpreter::Interpreter;
use strix::num::Number;
use strix::parser::Parser;
use strix::scanner::scan;
use strix::strix::Strix;
use strix::tokenizer::Literal;

fn eval_value(src: &str) -> Literal {
    let (tokens, errors) = scan(src);
    assert!(errors.is_empty(), "scan errors: {:?}", errors);
    let mut parser = Parser::from(tokens);
    let expr = parser.parse().unwrap();
    Interpreter::new().interpret(&expr).unwrap()
}

fn lit_same(a: &Literal, b: &Literal) -> bool {
    match (a, b) {
        (Literal::Nil, Literal::Nil) => true,
        (Literal::Str(x), Literal::Str(y)) => x == y,
        (Literal::Num(x), Literal::Num(y)) => x == y,
        (Literal::Bool(x), Literal::Bool(y)) => x == y,
        _ => false,
    }
}

#[test]
fn print_round_trips_through_the_parser() {
    // The printed form of a parsed literal is valid source again, and
    // re-parses to a tree that evaluates to the same value. Operator nodes
    // print in prefix form, which the infix grammar does not re-parse:
    // "1 - 2 - 3" prints as "(- (- 1 2) 3)", and that text is a parse error.
    let sources = ["123", "45.67", "true", "false", "nil"];
    for src in sources {
        let first = eval_value(src);
        let (tokens, errors) = scan(src);
        assert!(errors.is_empty());
        let mut parser = Parser::from(tokens);
        let expr = parser.parse().unwrap();
        let printed = AstPrinter::new().print(expr);
        let second = eval_value(&printed);
        assert!(
            lit_same(&first, &second),
            "round trip of {:?} via {:?}: {:?} vs {:?}",
            src,
            printed,
            first,
            second
        );
    }
}

#[test]
fn run_evaluates_and_tracks_static_errors() {
    let mut driver = Strix::new();
    let (out, errors) = driver.run("1 + 2 * 3".to_string());
    assert!(errors.is_empty());
    assert_eq!(out.unwrap(), "7");
    assert!(!driver.had_error());

    let (bad, errors) = driver.run("(1".to_string());
    assert!(errors.is_empty());
    assert!(bad.is_err());
    assert!(driver.had_error());
    driver.reset();
    assert!(!driver.had_error());

    let (out, errors) = driver.run("@ 7".to_string());
    assert_eq!(errors.len(), 1);
    assert_eq!(out.unwrap(), "7");
    assert!(driver.had_error());
}

#[test]
fn run_reports_a_runtime_error_without_the_static_flag() {
    let mut driver = Strix::new();
    let (out, errors) = driver.run("1 + \"a\"".to_string());
    assert!(errors.is_empty());
    match out {
        Err(e) => assert!(e
            .message()
            .contains("two numbers or two strings")),
        other => panic!("expected a runtime error, got {:?}", other),
    }
    assert!(!driver.had_error());
}

#[test]
fn pipeline_value_of_a_mixed_expression() {
    match eval_value("-(3) + 2 * (4 - 1)") {
        Literal::Num(n) => assert_eq!(
            n,
            Number::Finite {
                neg: false,
                mag: 3_000_000
            }
        ),
        other => panic!("expected a number, got {:?}", other),
    }
}
