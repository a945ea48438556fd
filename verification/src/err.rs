//! The error type shared by the scanner, the parser and the interpreter,
//! with line-accurate display text.

use vstd::prelude::*;

use crate::num::dec_str;
use crate::num::dec_string;
use crate::tokenizer::Token;
use crate::tokenizer::TokenType;
use crate::tokenizer::TokenV;

verus! {

/// A failure of one pipeline stage. A scanner error carries the line it was
/// found on; parser and interpreter errors carry the token whose presence
/// triggered them.
#[derive(Debug)]
pub enum StrixError {
    ParserError(Token, String),
    ScannerError(usize, String),
    InterpreterError(Token, String),
}

/// The mathematical model of a `StrixError`.
pub enum StrixErrorV {
    ParserError(TokenV, Seq<char>),
    ScannerError(nat, Seq<char>),
    InterpreterError(TokenV, Seq<char>),
}

impl View for StrixError {
    type V = StrixErrorV;

    open spec fn view(&self) -> StrixErrorV {
        match self {
            StrixError::ParserError(t, m) => StrixErrorV::ParserError(t@, m@),
            StrixError::ScannerError(l, m) => StrixErrorV::ScannerError(*l as nat, m@),
            StrixError::InterpreterError(t, m) => StrixErrorV::InterpreterError(t@, m@),
        }
    }
}

impl Clone for StrixError {
    fn clone(&self) -> (r: Self)
        ensures
            r@ == self@,
    {
        match self {
            StrixError::ParserError(t, m) => StrixError::ParserError(t.clone(), m.clone()),
            StrixError::ScannerError(l, m) => StrixError::ScannerError(*l, m.clone()),
            StrixError::InterpreterError(t, m) => StrixError::InterpreterError(
                t.clone(),
                m.clone(),
            ),
        }
    }
}

/// The models of a sequence of errors.
pub open spec fn errs_v(es: Seq<StrixError>) -> Seq<StrixErrorV> {
    es.map_values(|e: StrixError| e@)
}

/// The display text of an error that carries a token: the error is framed
/// "at the end" when the token is the end-of-input sentinel, else at the
/// token's lexeme.
pub open spec fn spec_token_error_text(t: TokenV, m: Seq<char>) -> Seq<char> {
    if t.token_type == TokenType::Eof {
        "[line "@ + dec_str(t.line) + "] Error at the end: "@ + m
    } else {
        "[line "@ + dec_str(t.line) + "] Error at '"@ + t.lexeme + "': "@ + m
    }
}

/// The display text of an error.
pub open spec fn spec_error_text(e: StrixErrorV) -> Seq<char> {
    match e {
        StrixErrorV::ParserError(t, m) => spec_token_error_text(t, m),
        StrixErrorV::InterpreterError(t, m) => spec_token_error_text(t, m),
        StrixErrorV::ScannerError(l, m) => "[line "@ + dec_str(l) + "] Error: "@ + m,
    }
}

impl StrixError {
    /// Renders the error's display text.
    pub fn message(&self) -> (s: String)
        ensures
            s@ == spec_error_text(self@),
    {
        match self {
            StrixError::ParserError(t, m) => token_error_message(t, m),
            StrixError::InterpreterError(t, m) => token_error_message(t, m),
            StrixError::ScannerError(l, m) => {
                let mut s = String::from_str("[line ");
                let line = dec_string(usize_to_u64(*l));
                s.append(line.as_str());
                s.append("] Error: ");
                s.append(m.as_str());
                proof {
                    assert(s@ =~= spec_error_text(self@));
                }
                s
            },
        }
    }
}

/// Renders the display text of an error that carries a token.
fn token_error_message(t: &Token, m: &String) -> (s: String)
    ensures
        s@ == spec_token_error_text(t@, m@),
{
    let mut s = String::from_str("[line ");
    let line = dec_string(usize_to_u64(t.line));
    s.append(line.as_str());
    if t.token_type == TokenType::Eof {
        s.append("] Error at the end: ");
        s.append(m.as_str());
    } else {
        s.append("] Error at '");
        s.append(t.lexeme.as_str());
        s.append("': ");
        s.append(m.as_str());
    }
    proof {
        assert(s@ =~= spec_token_error_text(t@, m@));
    }
    s
}

/// Widens a line number to the width the decimal renderer takes.
fn usize_to_u64(n: usize) -> (r: u64)
    ensures
        r == n,
{
    n as u64
}

} // verus!
