use strix::num::Number;
use strix::scanner::scan;
use strix::tokenizer::get_keyword_token;
use strix::tokenizer::Literal;
use strix::tokenizer::TokenType;

fn kinds(src: &str) -> Vec<TokenType> {
    let (tokens, _) = scan(src);
    tokens.iter().map(|t| t.token_type).collect()
}

#[test]
fn empty_source_is_one_eof() {
    let (tokens, errors) = scan("");
    assert_eq!(tokens.len(), 1);
    assert_eq!(tokens[0].token_type, TokenType::Eof);
    assert!(errors.is_empty());
}

#[test]
fn last_token_is_the_only_eof() {
    let (tokens, errors) = scan("1 + (2 * 3) // done");
    assert!(errors.is_empty());
    assert_eq!(tokens.last().unwrap().token_type, TokenType::Eof);
    let eofs = tokens
        .iter()
        .filter(|t| t.token_type == TokenType::Eof)
        .count();
    assert_eq!(eofs, 1);
}

#[test]
fn punctuation_and_operators() {
    assert_eq!(
        kinds("(){},.-+;*/"),
        vec![
            TokenType::LeftParen,
            TokenType::RightParen,
            TokenType::LeftBrace,
            TokenType::RightBrace,
            TokenType::Comma,
            TokenType::Dot,
            TokenType::Minus,
            TokenType::Plus,
            TokenType::Semicolon,
            TokenType::Star,
            TokenType::Slash,
            TokenType::Eof,
        ]
    );
}

#[test]
fn two_char_operators_are_greedy() {
    assert_eq!(
        kinds("! != = == < <= > >="),
        vec![
            TokenType::Bang,
            TokenType::BangEqual,
            TokenType::Equal,
            TokenType::EqualEqual,
            TokenType::Less,
            TokenType::LessEqual,
            TokenType::Greater,
            TokenType::GreaterEqual,
            TokenType::Eof,
        ]
    );
}

#[test]
fn line_comment_emits_no_token() {
    let (tokens, errors) = scan("1 // everything here is skipped\n2");
    assert!(errors.is_empty());
    assert_eq!(tokens.len(), 3);
    assert_eq!(tokens[0].token_type, TokenType::Number);
    assert_eq!(tokens[1].token_type, TokenType::Number);
    assert_eq!(tokens[1].line, 1);
    assert_eq!(tokens[2].token_type, TokenType::Eof);
}

#[test]
fn keywords_and_identifiers() {
    assert_eq!(
        kinds("and class else false for fun if nil or print return super this true var while foo"),
        vec![
            TokenType::And,
            TokenType::Class,
            TokenType::Else,
            TokenType::False,
            TokenType::For,
            TokenType::Fun,
            TokenType::If,
            TokenType::Nil,
            TokenType::Or,
            TokenType::Print,
            TokenType::Return,
            TokenType::Super,
            TokenType::This,
            TokenType::True,
            TokenType::Var,
            TokenType::While,
            TokenType::Identifier,
            TokenType::Eof,
        ]
    );
}

#[test]
fn keyword_table_lookup() {
    assert_eq!(get_keyword_token("while"), Some(TokenType::While));
    assert_eq!(get_keyword_token("or"), Some(TokenType::Or));
    assert_eq!(get_keyword_token("orchid"), None);
    assert_eq!(get_keyword_token(""), None);
}

#[test]
fn number_literal_with_fraction() {
    let (tokens, errors) = scan("45.67");
    assert!(errors.is_empty());
    assert_eq!(tokens[0].token_type, TokenType::Number);
    assert_eq!(tokens[0].lexeme, "45.67");
    match tokens[0].literal.as_ref().unwrap() {
        Literal::Num(n) => assert_eq!(
            *n,
            Number::Finite {
                neg: false,
                mag: 45_670_000
            }
        ),
        other => panic!("expected a number literal, got {:?}", other),
    }
}

#[test]
fn trailing_dot_is_not_part_of_the_number() {
    assert_eq!(
        kinds("123."),
        vec![TokenType::Number, TokenType::Dot, TokenType::Eof]
    );
}

#[test]
fn string_literal_excludes_quotes_and_tracks_lines() {
    let (tokens, errors) = scan("\"a\nb\"");
    assert!(errors.is_empty());
    assert_eq!(tokens[0].token_type, TokenType::String);
    assert_eq!(tokens[0].lexeme, "\"a\nb\"");
    assert_eq!(tokens[0].line, 1);
    match tokens[0].literal.as_ref().unwrap() {
        Literal::Str(s) => assert_eq!(s, "a\nb"),
        other => panic!("expected a string literal, got {:?}", other),
    }
}

#[test]
fn unexpected_character_recovers() {
    // One error for `@`, and the rest of the input still tokenizes.
    let (tokens, errors) = scan("@ 1");
    assert_eq!(errors.len(), 1);
    match &errors[0] {
        strix::err::StrixError::ScannerError(line, m) => {
            assert_eq!(*line, 0);
            assert_eq!(m, "Unexpected character.");
        }
        other => panic!("expected a scanner error, got {:?}", other),
    }
    assert_eq!(
        kinds("@ 1"),
        vec![TokenType::Number, TokenType::Eof]
    );
}

#[test]
fn unterminated_string_is_one_error_and_no_token() {
    let (tokens, errors) = scan("\"abc");
    assert_eq!(errors.len(), 1);
    match &errors[0] {
        strix::err::StrixError::ScannerError(_, m) => assert_eq!(m, "Unterminated string."),
        other => panic!("expected a scanner error, got {:?}", other),
    }
    assert_eq!(tokens.len(), 1);
    assert_eq!(tokens[0].token_type, TokenType::Eof);
}

#[test]
fn oversized_number_literal_overflows_to_infinity() {
    let (tokens, errors) = scan("99999999999999999999999999999");
    assert!(errors.is_empty());
    assert_eq!(tokens[0].token_type, TokenType::Number);
    match tokens[0].literal.as_ref().unwrap() {
        Literal::Num(n) => assert_eq!(*n, Number::Infinite { neg: false }),
        other => panic!("expected a number literal, got {:?}", other),
    }
}

#[test]
fn fraction_digits_past_the_sixth_are_dropped() {
    let (tokens, _) = scan("1.23456789");
    match tokens[0].literal.as_ref().unwrap() {
        Literal::Num(n) => assert_eq!(
            *n,
            Number::Finite {
                neg: false,
                mag: 1_234_567
            }
        ),
        other => panic!("expected a number literal, got {:?}", other),
    }
}

#[test]
fn newlines_advance_the_line_counter() {
    let (tokens, _) = scan("1\n2\n\n3");
    assert_eq!(tokens[0].line, 0);
    assert_eq!(tokens[1].line, 1);
    assert_eq!(tokens[2].line, 3);
    assert_eq!(tokens[3].line, 3);
}

#[test]
fn unterminated_string_error_carries_the_final_line() {
    let (_, errors) = scan("\"a\nbc");
    match &errors[0] {
        strix::err::StrixError::ScannerError(line, _) => assert_eq!(*line, 1),
        other => panic!("expected a scanner error, got {:?}", other),
    }
}

#[test]
fn scanner_error_message_text() {
    let (_, errors) = scan("@");
    assert_eq!(errors[0].message(), "[line 0] Error: Unexpected character.");
}
