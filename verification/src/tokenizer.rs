//! Token categories, literal values, the token record produced by the
//! scanner, and the reserved-word table.

use vstd::prelude::*;

use crate::num::Number;

verus! {

/// The closed set of token categories.
#[derive(Debug, Clone, Copy, PartialEq, Eq, Structural)]
pub enum TokenType {
    // Single-character tokens.
    LeftParen,
    RightParen,
    LeftBrace,
    RightBrace,
    Comma,
    Dot,
    Minus,
    Plus,
    Semicolon,
    Slash,
    Star,

    // One or two character tokens.
    Bang,
    BangEqual,
    Equal,
    EqualEqual,
    Greater,
    GreaterEqual,
    Less,
    LessEqual,

    // Literals.
    Identifier,
    String,
    Number,

    // Keywords.
    And,
    Class,
    Else,
    False,
    Fun,
    For,
    If,
    Nil,
    Or,
    Print,
    Return,
    Super,
    This,
    True,
    Var,
    While,

    Eof,
}

/// A literal payload or runtime value: text, number, boolean, or nil.
#[derive(Debug)]
pub enum Literal {
    Str(String),
    Num(Number),
    Bool(bool),
    Nil,
}

/// The mathematical model of a `Literal`: text is a sequence of characters.
pub enum LitV {
    Str(Seq<char>),
    Num(Number),
    Bool(bool),
    Nil,
}

impl View for Literal {
    type V = LitV;

    open spec fn view(&self) -> LitV {
        match self {
            Literal::Str(s) => LitV::Str(s@),
            Literal::Num(n) => LitV::Num(*n),
            Literal::Bool(b) => LitV::Bool(*b),
            Literal::Nil => LitV::Nil,
        }
    }
}

impl Clone for Literal {
    fn clone(&self) -> (r: Self)
        ensures
            r@ == self@,
    {
        match self {
            Literal::Str(s) => Literal::Str(s.clone()),
            Literal::Num(n) => Literal::Num(*n),
            Literal::Bool(b) => Literal::Bool(*b),
            Literal::Nil => Literal::Nil,
        }
    }
}

/// One token: its category, the exact source text it was scanned from, an
/// optional literal payload, and the line it was found on.
#[derive(Debug)]
pub struct Token {
    pub token_type: TokenType,
    pub lexeme: String,
    pub literal: Option<Literal>,
    pub line: usize,
}

/// The mathematical model of a `Token`.
pub struct TokenV {
    pub token_type: TokenType,
    pub lexeme: Seq<char>,
    pub literal: Option<LitV>,
    pub line: nat,
}

impl View for Token {
    type V = TokenV;

    open spec fn view(&self) -> TokenV {
        TokenV {
            token_type: self.token_type,
            lexeme: self.lexeme@,
            literal: match self.literal {
                Some(l) => Some(l@),
                None => None,
            },
            line: self.line as nat,
        }
    }
}

impl Clone for Token {
    fn clone(&self) -> (r: Self)
        ensures
            r@ == self@,
    {
        Token {
            token_type: self.token_type,
            lexeme: self.lexeme.clone(),
            literal: match &self.literal {
                Some(l) => Some(l.clone()),
                None => None,
            },
            line: self.line,
        }
    }
}

impl Token {
    pub fn new(token_type: TokenType, lexeme: String, literal: Option<Literal>, line: usize) -> (r:
        Self)
        ensures
            r@ == (TokenV {
                token_type,
                lexeme: lexeme@,
                literal: match literal {
                    Some(l) => Some(l@),
                    None => None,
                },
                line: line as nat,
            }),
    {
        Token { token_type, lexeme, literal, line }
    }
}

/// The models of a sequence of tokens.
pub open spec fn toks_v(ts: Seq<Token>) -> Seq<TokenV> {
    ts.map_values(|t: Token| t@)
}

/// The reserved-word table: the token category of a keyword, or `None` when
/// the word is an ordinary identifier.
pub open spec fn spec_keyword(s: Seq<char>) -> Option<TokenType> {
    if s == "and"@ {
        Some(TokenType::And)
    } else if s == "class"@ {
        Some(TokenType::Class)
    } else if s == "else"@ {
        Some(TokenType::Else)
    } else if s == "false"@ {
        Some(TokenType::False)
    } else if s == "for"@ {
        Some(TokenType::For)
    } else if s == "fun"@ {
        Some(TokenType::Fun)
    } else if s == "if"@ {
        Some(TokenType::If)
    } else if s == "nil"@ {
        Some(TokenType::Nil)
    } else if s == "or"@ {
        Some(TokenType::Or)
    } else if s == "print"@ {
        Some(TokenType::Print)
    } else if s == "return"@ {
        Some(TokenType::Return)
    } else if s == "super"@ {
        Some(TokenType::Super)
    } else if s == "this"@ {
        Some(TokenType::This)
    } else if s == "true"@ {
        Some(TokenType::True)
    } else if s == "var"@ {
        Some(TokenType::Var)
    } else if s == "while"@ {
        Some(TokenType::While)
    } else {
        None
    }
}

/// Character-by-character equality of two string slices.
pub(crate) fn str_eq(a: &str, b: &str) -> (r: bool)
    ensures
        r == (a@ == b@),
{
    let na = a.unicode_len();
    let nb = b.unicode_len();
    if na != nb {
        return false;
    }
    let mut i: usize = 0;
    while i < na
        invariant
            na == a@.len(),
            na == b@.len(),
            0 <= i <= na,
            forall|j: int| 0 <= j < i ==> a@[j] == b@[j],
        decreases na - i,
    {
        if a.get_char(i) != b.get_char(i) {
            return false;
        }
        i = i + 1;
    }
    proof {
        assert(a@ =~= b@);
    }
    true
}

/// Looks a scanned word up in the reserved-word table.
pub fn get_keyword_token(keyword: &str) -> (r: Option<TokenType>)
    ensures
        r == spec_keyword(keyword@),
{
    if str_eq(keyword, "and") {
        Some(TokenType::And)
    } else if str_eq(keyword, "class") {
        Some(TokenType::Class)
    } else if str_eq(keyword, "else") {
        Some(TokenType::Else)
    } else if str_eq(keyword, "false") {
        Some(TokenType::False)
    } else if str_eq(keyword, "for") {
        Some(TokenType::For)
    } else if str_eq(keyword, "fun") {
        Some(TokenType::Fun)
    } else if str_eq(keyword, "if") {
        Some(TokenType::If)
    } else if str_eq(keyword, "nil") {
        Some(TokenType::Nil)
    } else if str_eq(keyword, "or") {
        Some(TokenType::Or)
    } else if str_eq(keyword, "print") {
        Some(TokenType::Print)
    } else if str_eq(keyword, "return") {
        Some(TokenType::Return)
    } else if str_eq(keyword, "super") {
        Some(TokenType::Super)
    } else if str_eq(keyword, "this") {
        Some(TokenType::This)
    } else if str_eq(keyword, "true") {
        Some(TokenType::True)
    } else if str_eq(keyword, "var") {
        Some(TokenType::Var)
    } else if str_eq(keyword, "while") {
        Some(TokenType::While)
    } else {
        None
    }
}

} // verus!
