use strix::expr::Expr;
use strix::interpreter::Interpreter;
use strix::num::Number;
use strix::parser::Parser;
use strix::scanner::scan;
use strix::err::StrixError;
use strix::tokenizer::Literal;
use strix::tokenizer::Token;
use strix::tokenizer::TokenType;

fn eval_src(src: &str) -> Result<Literal, StrixError> {
    let (tokens, errors) = scan(src);
    assert!(errors.is_empty(), "scan errors: {:?}", errors);
    let mut parser = Parser::from(tokens);
    let expr = parser.parse().unwrap();
    Interpreter::new().interpret(&expr)
}

fn eval_num(src: &str) -> Number {
    match eval_src(src).unwrap() {
        Literal::Num(n) => n,
        other => panic!("expected a number from {:?}, got {:?}", src, other),
    }
}

fn finite(neg: bool, mag: u64) -> Number {
    Number::Finite { neg, mag }
}

#[test]
fn subtraction_is_left_associative() {
    // 1 - 2 - 3 is (1 - 2) - 3 = -4, not 1 - (2 - 3) = 2.
    assert_eq!(eval_num("1 - 2 - 3"), finite(true, 4_000_000));
}

#[test]
fn multiplication_binds_tighter_than_addition() {
    assert_eq!(eval_num("2 + 3 * 4"), finite(false, 14_000_000));
}

#[test]
fn evaluation_is_deterministic() {
    let (tokens, _) = scan("(1 + 2) * 3 - 4 / 2");
    let mut parser = Parser::from(tokens);
    let expr = parser.parse().unwrap();
    let mut interpreter = Interpreter::new();
    let first = match interpreter.interpret(&expr).unwrap() {
        Literal::Num(n) => n,
        other => panic!("expected a number, got {:?}", other),
    };
    let second = match interpreter.interpret(&expr).unwrap() {
        Literal::Num(n) => n,
        other => panic!("expected a number, got {:?}", other),
    };
    assert_eq!(first, second);
    assert_eq!(first, finite(false, 7_000_000));
}

#[test]
fn bang_of_nil_is_true() {
    let expr = Expr::new_unary(
        Token::new(TokenType::Bang, "!".to_string(), None, 0),
        Box::new(Expr::new_literal(Literal::Nil)),
    );
    let v = Interpreter::new().interpret(&expr).unwrap();
    assert!(matches!(v, Literal::Bool(true)));
}

#[test]
fn bang_of_zero_is_false() {
    // Zero is truthy, so its negation is false.
    let expr = Expr::new_unary(
        Token::new(TokenType::Bang, "!".to_string(), None, 0),
        Box::new(Expr::new_literal(Literal::Num(finite(false, 0)))),
    );
    let v = Interpreter::new().interpret(&expr).unwrap();
    assert!(matches!(v, Literal::Bool(false)));
}

#[test]
fn plus_on_string_and_number_is_a_type_error() {
    let expr = Expr::new_binary(
        Box::new(Expr::new_literal(Literal::Str("a".to_string()))),
        Token::new(TokenType::Plus, "+".to_string(), None, 0),
        Box::new(Expr::new_literal(Literal::Num(Number::from_u64(1)))),
    );
    match Interpreter::new().interpret(&expr) {
        Err(StrixError::InterpreterError(_, m)) => {
            assert!(m.contains("two numbers or two strings"));
        }
        other => panic!("expected an interpreter error, got {:?}", other),
    }
}

#[test]
fn unary_minus_needs_a_number() {
    let expr = Expr::new_unary(
        Token::new(TokenType::Minus, "-".to_string(), None, 0),
        Box::new(Expr::new_literal(Literal::Str("a".to_string()))),
    );
    match Interpreter::new().interpret(&expr) {
        Err(StrixError::InterpreterError(_, m)) => {
            assert_eq!(m, "The operator must be a number");
        }
        other => panic!("expected an interpreter error, got {:?}", other),
    }
}

#[test]
fn comparison_needs_numbers() {
    let (tokens, _) = scan("1 < \"a\"");
    let mut parser = Parser::from(tokens);
    let expr = parser.parse().unwrap();
    match Interpreter::new().interpret(&expr) {
        Err(StrixError::InterpreterError(_, m)) => {
            assert_eq!(m, "Operands must be numbers.");
        }
        other => panic!("expected an interpreter error, got {:?}", other),
    }
}

#[test]
fn string_concatenation() {
    match eval_src("\"foo\" + \"bar\"").unwrap() {
        Literal::Str(s) => assert_eq!(s, "foobar"),
        other => panic!("expected a string, got {:?}", other),
    }
}

#[test]
fn division_by_zero_is_infinity_not_an_error() {
    assert_eq!(eval_num("1 / 0"), Number::Infinite { neg: false });
    assert_eq!(eval_num("-1 / 0"), Number::Infinite { neg: true });
    assert_eq!(eval_num("0 / 0"), Number::Nan);
}

#[test]
fn nan_equals_nothing() {
    let v = eval_src("0 / 0 == 0 / 0").unwrap();
    assert!(matches!(v, Literal::Bool(false)));
}

#[test]
fn opposite_infinities_cancel_to_nan() {
    assert_eq!(eval_num("1 / 0 - 1 / 0"), Number::Nan);
    assert_eq!(eval_num("1 / 0 + 1 / 0"), Number::Infinite { neg: false });
}

#[test]
fn equality_semantics() {
    assert!(matches!(
        eval_src("nil == nil").unwrap(),
        Literal::Bool(true)
    ));
    assert!(matches!(
        eval_src("nil == false").unwrap(),
        Literal::Bool(false)
    ));
    assert!(matches!(
        eval_src("1 == \"1\"").unwrap(),
        Literal::Bool(false)
    ));
    assert!(matches!(
        eval_src("\"ab\" == \"ab\"").unwrap(),
        Literal::Bool(true)
    ));
    assert!(matches!(
        eval_src("1 != 2").unwrap(),
        Literal::Bool(true)
    ));
}

#[test]
fn comparisons_yield_booleans() {
    assert!(matches!(eval_src("1 < 2").unwrap(), Literal::Bool(true)));
    assert!(matches!(eval_src("2 <= 2").unwrap(), Literal::Bool(true)));
    assert!(matches!(eval_src("1 > 2").unwrap(), Literal::Bool(false)));
    assert!(matches!(eval_src("2 >= 3").unwrap(), Literal::Bool(false)));
}

#[test]
fn division_keeps_fraction_digits() {
    assert_eq!(eval_num("7 / 2"), finite(false, 3_500_000));
}

#[test]
fn stacked_unaries() {
    assert!(matches!(
        eval_src("!!true").unwrap(),
        Literal::Bool(true)
    ));
    assert_eq!(eval_num("--3"), finite(false, 3_000_000));
}

#[test]
fn grouping_overrides_precedence() {
    assert_eq!(eval_num("(2 + 3) * 4"), finite(false, 20_000_000));
}
