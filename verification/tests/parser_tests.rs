use strix::ast::AstPrinter;
use strix::err::StrixError;
use strix::parser::Parser;
use strix::scanner::scan;
use strix::tokenizer::TokenType;

fn parse_to_text(src: &str) -> Result<String, StrixError> {
    let (tokens, errors) = scan(src);
    assert!(errors.is_empty(), "scan errors: {:?}", errors);
    let mut parser = Parser::from(tokens);
    parser.parse().map(|e| AstPrinter::new().print(e))
}

#[test]
fn binary_levels_fold_left() {
    assert_eq!(parse_to_text("1 - 2 - 3").unwrap(), "(- (- 1 2) 3)");
    assert_eq!(parse_to_text("1 / 2 * 3").unwrap(), "(* (/ 1 2) 3)");
    assert_eq!(parse_to_text("1 == 2 != 3").unwrap(), "(!= (== 1 2) 3)");
    assert_eq!(parse_to_text("1 < 2 <= 3").unwrap(), "(<= (< 1 2) 3)");
}

#[test]
fn precedence_states_itself_in_the_tree() {
    assert_eq!(parse_to_text("2 + 3 * 4").unwrap(), "(+ 2 (* 3 4))");
    assert_eq!(parse_to_text("1 < 2 + 3").unwrap(), "(< 1 (+ 2 3))");
    assert_eq!(parse_to_text("1 == 2 < 3").unwrap(), "(== 1 (< 2 3))");
}

#[test]
fn unary_is_right_recursive() {
    assert_eq!(parse_to_text("!!true").unwrap(), "(! (! true))");
    assert_eq!(parse_to_text("--1").unwrap(), "(- (- 1))");
}

#[test]
fn primary_literals() {
    assert_eq!(parse_to_text("nil").unwrap(), "nil");
    assert_eq!(parse_to_text("true").unwrap(), "true");
    assert_eq!(parse_to_text("false").unwrap(), "false");
    assert_eq!(parse_to_text("\"owl\"").unwrap(), "owl");
}

#[test]
fn missing_close_paren_is_reported() {
    match parse_to_text("(1 + 2") {
        Err(StrixError::ParserError(t, m)) => {
            assert_eq!(t.token_type, TokenType::Eof);
            assert_eq!(m, "Expect ')' after expression.");
        }
        other => panic!("expected a parser error, got {:?}", other),
    }
}

#[test]
fn unexpected_token_is_reported() {
    match parse_to_text(")") {
        Err(StrixError::ParserError(t, m)) => {
            assert_eq!(t.token_type, TokenType::RightParen);
            assert_eq!(m, "Expected expression.");
        }
        other => panic!("expected a parser error, got {:?}", other),
    }
}

#[test]
fn parser_error_message_framing() {
    let err = parse_to_text(")").unwrap_err();
    assert_eq!(err.message(), "[line 0] Error at ')': Expected expression.");
    let at_end = parse_to_text("1 +").unwrap_err();
    assert_eq!(
        at_end.message(),
        "[line 0] Error at the end: Expected expression."
    );
}
