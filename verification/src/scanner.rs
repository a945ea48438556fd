//! The scanner: a single forward pass over the source characters that
//! produces the token sequence and a side channel of per-character errors,
//! never aborting. The whole pass is specified by `spec_scan`, one dispatch
//! at a time by `scan_step`.

use vstd::prelude::*;

use crate::err::StrixError;
use crate::err::StrixErrorV;
use crate::num::Number;
use crate::tokenizer::get_keyword_token;
use crate::tokenizer::spec_keyword;
use crate::tokenizer::LitV;
use crate::tokenizer::Literal;
use crate::tokenizer::Token;
use crate::tokenizer::TokenType;
use crate::tokenizer::TokenV;

verus! {

/// Decimal digit, by code point.
pub open spec fn is_digit(c: char) -> bool {
    48 <= c as u32 <= 57
}

/// Letter, by code point (the basic Latin alphabet).
pub open spec fn is_alpha(c: char) -> bool {
    (97 <= c as u32 <= 122) || (65 <= c as u32 <= 90)
}

/// Letter or digit.
pub open spec fn is_alnum(c: char) -> bool {
    is_alpha(c) || is_digit(c)
}

/// The numeric value of a digit character.
pub open spec fn digit_val(c: char) -> int {
    c as u32 - 48
}

/// The first position at or after `i` that does not hold a digit.
pub open spec fn digits_end(s: Seq<char>, i: int) -> int
    decreases s.len() - i,
{
    if 0 <= i < s.len() && is_digit(s[i]) {
        digits_end(s, i + 1)
    } else {
        i
    }
}

/// The first position at or after `i` that does not hold a letter or digit.
pub open spec fn alnum_end(s: Seq<char>, i: int) -> int
    decreases s.len() - i,
{
    if 0 <= i < s.len() && is_alnum(s[i]) {
        alnum_end(s, i + 1)
    } else {
        i
    }
}

/// The position of the next newline at or after `i`, or the end of input.
pub open spec fn line_comment_end(s: Seq<char>, i: int) -> int
    decreases s.len() - i,
{
    if 0 <= i < s.len() && s[i] != '\n' {
        line_comment_end(s, i + 1)
    } else {
        i
    }
}

/// The position of the next double quote at or after `i`, or the end of input.
pub open spec fn quote_end(s: Seq<char>, i: int) -> int
    decreases s.len() - i,
{
    if 0 <= i < s.len() && s[i] != '"' {
        quote_end(s, i + 1)
    } else {
        i
    }
}

/// How many newlines `s` holds in `[lo, hi)`.
pub open spec fn count_nl(s: Seq<char>, lo: int, hi: int) -> nat
    decreases hi - lo,
{
    if lo >= hi {
        0
    } else {
        count_nl(s, lo, hi - 1) + (if s[hi - 1] == '\n' {
            1nat
        } else {
            0nat
        })
    }
}

/// The value of the digit run `s[lo..hi)` read as a decimal numeral.
pub open spec fn digits_val(s: Seq<char>, lo: int, hi: int) -> int
    decreases hi - lo,
{
    if lo >= hi {
        0
    } else {
        digits_val(s, lo, hi - 1) * 10 + digit_val(s[hi - 1])
    }
}

/// Ten to the `k`.
pub open spec fn pow10(k: nat) -> int
    decreases k,
{
    if k == 0 {
        1
    } else {
        10 * pow10((k - 1) as nat)
    }
}

/// The runtime number of the numeric literal `s[i..ext)`: the whole part is
/// the digit run from `i`, the fraction the first six digits after the dot
/// (further fraction digits are dropped); a mantissa beyond the magnitude
/// range overflows to infinity.
pub open spec fn number_value(s: Seq<char>, i: int, ext: int) -> Number {
    let d1 = digits_end(s, i);
    let whole = digits_val(s, i, d1);
    let frac6 = if ext <= d1 {
        0int
    } else {
        let flen = ext - (d1 + 1);
        let k = if flen > 6 {
            6int
        } else {
            flen
        };
        digits_val(s, d1 + 1, d1 + 1 + k) * pow10((6 - k) as nat)
    };
    let mant = whole * (crate::num::SCALE as int) + frac6;
    if mant > u64::MAX {
        Number::Infinite { neg: false }
    } else {
        Number::Finite { neg: false, mag: mant as u64 }
    }
}

/// A token model without a literal payload.
pub open spec fn mk_tok(kind: TokenType, lexeme: Seq<char>, line: nat) -> TokenV {
    TokenV { token_type: kind, lexeme, literal: None, line }
}

/// The result of one scanner dispatch: the next cursor position, the line
/// counter after the step, and at most one token or one error.
pub struct ScanStepV {
    pub next: int,
    pub line: nat,
    pub token: Option<TokenV>,
    pub error: Option<StrixErrorV>,
}

/// One scanner dispatch at position `i` (which must hold a character):
/// punctuation and one/two-character operators become single tokens, `//`
/// consumes a comment, whitespace is skipped, newlines count lines, quotes
/// open string literals, digits open numbers, letters open identifiers or
/// keywords, and anything else is an error.
pub open spec fn scan_step(s: Seq<char>, i: int, line: nat) -> ScanStepV
    recommends
        0 <= i < s.len(),
{
    let c = s[i];
    if c == '(' {
        ScanStepV {
            next: i + 1,
            line,
            token: Some(mk_tok(TokenType::LeftParen, s.subrange(i, i + 1), line)),
            error: None,
        }
    } else if c == ')' {
        ScanStepV {
            next: i + 1,
            line,
            token: Some(mk_tok(TokenType::RightParen, s.subrange(i, i + 1), line)),
            error: None,
        }
    } else if c == '{' {
        ScanStepV {
            next: i + 1,
            line,
            token: Some(mk_tok(TokenType::LeftBrace, s.subrange(i, i + 1), line)),
            error: None,
        }
    } else if c == '}' {
        ScanStepV {
            next: i + 1,
            line,
            token: Some(mk_tok(TokenType::RightBrace, s.subrange(i, i + 1), line)),
            error: None,
        }
    } else if c == ',' {
        ScanStepV {
            next: i + 1,
            line,
            token: Some(mk_tok(TokenType::Comma, s.subrange(i, i + 1), line)),
            error: None,
        }
    } else if c == '.' {
        ScanStepV {
            next: i + 1,
            line,
            token: Some(mk_tok(TokenType::Dot, s.subrange(i, i + 1), line)),
            error: None,
        }
    } else if c == '-' {
        ScanStepV {
            next: i + 1,
            line,
            token: Some(mk_tok(TokenType::Minus, s.subrange(i, i + 1), line)),
            error: None,
        }
    } else if c == '+' {
        ScanStepV {
            next: i + 1,
            line,
            token: Some(mk_tok(TokenType::Plus, s.subrange(i, i + 1), line)),
            error: None,
        }
    } else if c == ';' {
        ScanStepV {
            next: i + 1,
            line,
            token: Some(mk_tok(TokenType::Semicolon, s.subrange(i, i + 1), line)),
            error: None,
        }
    } else if c == '*' {
        ScanStepV {
            next: i + 1,
            line,
            token: Some(mk_tok(TokenType::Star, s.subrange(i, i + 1), line)),
            error: None,
        }
    } else if c == '!' {
        if i + 1 < s.len() && s[i + 1] == '=' {
            ScanStepV {
                next: i + 2,
                line,
                token: Some(mk_tok(TokenType::BangEqual, s.subrange(i, i + 2), line)),
                error: None,
            }
        } else {
            ScanStepV {
                next: i + 1,
                line,
                token: Some(mk_tok(TokenType::Bang, s.subrange(i, i + 1), line)),
                error: None,
            }
        }
    } else if c == '=' {
        if i + 1 < s.len() && s[i + 1] == '=' {
            ScanStepV {
                next: i + 2,
                line,
                token: Some(mk_tok(TokenType::EqualEqual, s.subrange(i, i + 2), line)),
                error: None,
            }
        } else {
            ScanStepV {
                next: i + 1,
                line,
                token: Some(mk_tok(TokenType::Equal, s.subrange(i, i + 1), line)),
                error: None,
            }
        }
    } else if c == '<' {
        if i + 1 < s.len() && s[i + 1] == '=' {
            ScanStepV {
                next: i + 2,
                line,
                token: Some(mk_tok(TokenType::LessEqual, s.subrange(i, i + 2), line)),
                error: None,
            }
        } else {
            ScanStepV {
                next: i + 1,
                line,
                token: Some(mk_tok(TokenType::Less, s.subrange(i, i + 1), line)),
                error: None,
            }
        }
    } else if c == '>' {
        if i + 1 < s.len() && s[i + 1] == '=' {
            ScanStepV {
                next: i + 2,
                line,
                token: Some(mk_tok(TokenType::GreaterEqual, s.subrange(i, i + 2), line)),
                error: None,
            }
        } else {
            ScanStepV {
                next: i + 1,
                line,
                token: Some(mk_tok(TokenType::Greater, s.subrange(i, i + 1), line)),
                error: None,
            }
        }
    } else if c == '/' {
        if i + 1 < s.len() && s[i + 1] == '/' {
            ScanStepV { next: line_comment_end(s, i + 2), line, token: None, error: None }
        } else {
            ScanStepV {
                next: i + 1,
                line,
                token: Some(mk_tok(TokenType::Slash, s.subrange(i, i + 1), line)),
                error: None,
            }
        }
    } else if c == ' ' || c == '\r' || c == '\t' {
        ScanStepV { next: i + 1, line, token: None, error: None }
    } else if c == '\n' {
        ScanStepV { next: i + 1, line: line + 1, token: None, error: None }
    } else if c == '"' {
        let e = quote_end(s, i + 1);
        let l2 = line + count_nl(s, i + 1, e);
        if e == s.len() {
            ScanStepV {
                next: e,
                line: l2,
                token: None,
                error: Some(StrixErrorV::ScannerError(l2, "Unterminated string."@)),
            }
        } else {
            ScanStepV {
                next: e + 1,
                line: l2,
                token: Some(
                    TokenV {
                        token_type: TokenType::String,
                        lexeme: s.subrange(i, e + 1),
                        literal: Some(LitV::Str(s.subrange(i + 1, e))),
                        line: l2,
                    },
                ),
                error: None,
            }
        }
    } else if is_digit(c) {
        let d1 = digits_end(s, i);
        let ext = if d1 < s.len() && s[d1] == '.' && d1 + 1 < s.len() && is_digit(s[d1 + 1]) {
            digits_end(s, d1 + 1)
        } else {
            d1
        };
        ScanStepV {
            next: ext,
            line,
            token: Some(
                TokenV {
                    token_type: TokenType::Number,
                    lexeme: s.subrange(i, ext),
                    literal: Some(LitV::Num(number_value(s, i, ext))),
                    line,
                },
            ),
            error: None,
        }
    } else if is_alpha(c) {
        let e = alnum_end(s, i);
        let word = s.subrange(i, e);
        let kind = match spec_keyword(word) {
            Some(k) => k,
            None => TokenType::Identifier,
        };
        ScanStepV { next: e, line, token: Some(mk_tok(kind, word, line)), error: None }
    } else {
        ScanStepV {
            next: i + 1,
            line,
            token: None,
            error: Some(StrixErrorV::ScannerError(line, "Unexpected character."@)),
        }
    }
}

/// The full scan from position `i` on: every token and error of the source's
/// remainder, in order, and the final line counter. The end-of-input token is
/// not part of it.
pub struct ScanV {
    pub tokens: Seq<TokenV>,
    pub errors: Seq<StrixErrorV>,
    pub line: nat,
}

/// Glues one dispatch to the scan of the rest. The cursor advance is clamped
/// to stay inside the source, which every dispatch in fact satisfies.
pub open spec fn spec_scan(s: Seq<char>, i: int, line: nat) -> ScanV
    decreases s.len() - i,
{
    if !(0 <= i < s.len()) {
        ScanV { tokens: Seq::empty(), errors: Seq::empty(), line }
    } else {
        let st = scan_step(s, i, line);
        let n = if st.next <= i {
            i + 1
        } else if st.next > s.len() {
            s.len() as int
        } else {
            st.next
        };
        let rest = spec_scan(s, n, st.line);
        let toks = match st.token {
            Some(t) => seq![t] + rest.tokens,
            None => rest.tokens,
        };
        let errs = match st.error {
            Some(e) => seq![e] + rest.errors,
            None => rest.errors,
        };
        ScanV { tokens: toks, errors: errs, line: rest.line }
    }
}

/// No dispatch ever produces an end-of-input token: `scan` alone appends the
/// single sentinel.
pub proof fn lemma_scan_no_eof(s: Seq<char>, i: int, line: nat)
    ensures
        forall|j: int|
            0 <= j < spec_scan(s, i, line).tokens.len() ==> #[trigger] spec_scan(
                s,
                i,
                line,
            ).tokens[j].token_type != TokenType::Eof,
    decreases s.len() - i,
{
    if 0 <= i < s.len() {
        let st = scan_step(s, i, line);
        let n = if st.next <= i {
            i + 1
        } else if st.next > s.len() {
            s.len() as int
        } else {
            st.next
        };
        lemma_scan_no_eof(s, n, st.line);
    }
}

/// A digit run is made of digits and ends inside the source.
proof fn lemma_digits_end_bounds(s: Seq<char>, i: int)
    requires
        0 <= i <= s.len(),
    ensures
        i <= digits_end(s, i) <= s.len(),
        forall|j: int| i <= j < digits_end(s, i) ==> is_digit(#[trigger] s[j]),
    decreases s.len() - i,
{
    if i < s.len() && is_digit(s[i]) {
        lemma_digits_end_bounds(s, i + 1);
    }
}

/// A word run is made of letters and digits and ends inside the source.
proof fn lemma_alnum_end_bounds(s: Seq<char>, i: int)
    requires
        0 <= i <= s.len(),
    ensures
        i <= alnum_end(s, i) <= s.len(),
    decreases s.len() - i,
{
    if i < s.len() && is_alnum(s[i]) {
        lemma_alnum_end_bounds(s, i + 1);
    }
}

/// A numeral's value is not negative and is bounded by ten to its width.
proof fn lemma_digits_val_bounds(s: Seq<char>, lo: int, hi: int)
    requires
        forall|j: int| lo <= j < hi ==> is_digit(#[trigger] s[j]),
    ensures
        0 <= digits_val(s, lo, hi),
        lo <= hi ==> digits_val(s, lo, hi) < pow10((hi - lo) as nat),
    decreases hi - lo,
{
    if lo < hi {
        lemma_digits_val_bounds(s, lo, hi - 1);
    }
}

fn is_digit_exec(c: char) -> (r: bool)
    ensures
        r == is_digit(c),
{
    let u = c as u32;
    48 <= u && u <= 57
}

fn is_alpha_exec(c: char) -> (r: bool)
    ensures
        r == is_alpha(c),
{
    let u = c as u32;
    (97 <= u && u <= 122) || (65 <= u && u <= 90)
}

fn is_alnum_exec(c: char) -> (r: bool)
    ensures
        r == is_alnum(c),
{
    is_alpha_exec(c) || is_digit_exec(c)
}

fn digits_end_exec(s: &str, n: usize, i: usize) -> (r: usize)
    requires
        n == s@.len(),
        i <= n,
    ensures
        r == digits_end(s@, i as int),
        i <= r <= n,
    decreases n - i,
{
    let mut j: usize = i;
    while j < n && is_digit_exec(s.get_char(j))
        invariant
            n == s@.len(),
            i <= j <= n,
            digits_end(s@, i as int) == digits_end(s@, j as int),
        decreases n - j,
    {
        j = j + 1;
    }
    j
}

fn alnum_end_exec(s: &str, n: usize, i: usize) -> (r: usize)
    requires
        n == s@.len(),
        i <= n,
    ensures
        r == alnum_end(s@, i as int),
        i <= r <= n,
{
    let mut j: usize = i;
    while j < n && is_alnum_exec(s.get_char(j))
        invariant
            n == s@.len(),
            i <= j <= n,
            alnum_end(s@, i as int) == alnum_end(s@, j as int),
        decreases n - j,
    {
        j = j + 1;
    }
    j
}

fn comment_end_exec(s: &str, n: usize, i: usize) -> (r: usize)
    requires
        n == s@.len(),
        i <= n,
    ensures
        r == line_comment_end(s@, i as int),
        i <= r <= n,
{
    let mut j: usize = i;
    while j < n && s.get_char(j) != '\n'
        invariant
            n == s@.len(),
            i <= j <= n,
            line_comment_end(s@, i as int) == line_comment_end(s@, j as int),
        decreases n - j,
    {
        j = j + 1;
    }
    j
}

/// Finds the closing quote of a string body opened just before `i`, counting
/// the newlines passed on the way.
fn string_body_exec(s: &str, n: usize, i: usize) -> (r: (usize, usize))
    requires
        n == s@.len(),
        i <= n,
    ensures
        r.0 == quote_end(s@, i as int),
        i <= r.0 <= n,
        r.1 == count_nl(s@, i as int, r.0 as int),
        r.1 <= r.0 - i,
{
    let mut j: usize = i;
    let mut nl: usize = 0;
    while j < n && s.get_char(j) != '"'
        invariant
            n == s@.len(),
            i <= j <= n,
            quote_end(s@, i as int) == quote_end(s@, j as int),
            nl == count_nl(s@, i as int, j as int),
            nl <= j - i,
        decreases n - j,
    {
        if s.get_char(j) == '\n' {
            nl = nl + 1;
        }
        j = j + 1;
    }
    (j, nl)
}

/// The numeric value of one digit character.
fn char_digit(c: char) -> (d: u64)
    requires
        is_digit(c),
    ensures
        d == digit_val(c),
        d <= 9,
{
    (c as u32 - 48) as u64
}

/// Reads the numeral `s[lo..hi)` as a decimal value; `None` when the value
/// does not fit the magnitude width.
fn digits_value_exec(s: &str, n: usize, lo: usize, hi: usize) -> (r: Option<u64>)
    requires
        n == s@.len(),
        lo <= hi <= n,
        forall|j: int| lo <= j < hi ==> is_digit(#[trigger] s@[j]),
    ensures
        match r {
            Some(v) => v == digits_val(s@, lo as int, hi as int),
            None => digits_val(s@, lo as int, hi as int) > u64::MAX,
        },
{
    let mut acc: u64 = 0;
    let mut over: bool = false;
    let mut j: usize = lo;
    while j < hi
        invariant
            n == s@.len(),
            lo <= j <= hi <= n,
            forall|k: int| lo <= k < hi ==> is_digit(#[trigger] s@[k]),
            !over ==> acc == digits_val(s@, lo as int, j as int),
            over ==> digits_val(s@, lo as int, j as int) > u64::MAX,
        decreases hi - j,
    {
        let d = char_digit(s.get_char(j));
        proof {
            lemma_digits_val_bounds(s@, lo as int, j as int);
        }
        if !over {
            match acc.checked_mul(10) {
                Some(x) => match x.checked_add(d) {
                    Some(y) => {
                        acc = y;
                    },
                    None => {
                        over = true;
                    },
                },
                None => {
                    over = true;
                },
            }
        }
        j = j + 1;
    }
    if over {
        None
    } else {
        Some(acc)
    }
}

/// Ten to the `k`, for the fraction widths the scanner uses.
fn pow10_exec(k: u64) -> (r: u64)
    requires
        k <= 6,
    ensures
        r == pow10(k as nat),
        1 <= r <= 1000000,
{
    proof {
        reveal_with_fuel(pow10, 8);
    }
    if k == 0 {
        1
    } else if k == 1 {
        10
    } else if k == 2 {
        100
    } else if k == 3 {
        1000
    } else if k == 4 {
        10000
    } else if k == 5 {
        100000
    } else {
        1000000
    }
}

/// The result of one executable scanner dispatch.
struct ScanStep {
    next: usize,
    line: usize,
    token: Option<Token>,
    error: Option<StrixError>,
}

/// The model of an optional token.
pub open spec fn opt_tok_v(o: Option<Token>) -> Option<TokenV> {
    match o {
        Some(t) => Some(t@),
        None => None,
    }
}

/// The model of an optional error.
pub open spec fn opt_err_v(o: Option<StrixError>) -> Option<StrixErrorV> {
    match o {
        Some(e) => Some(e@),
        None => None,
    }
}

/// One executable scanner dispatch, equal to `scan_step` at the same cursor.
fn scan_token(s: &str, n: usize, i: usize, line: usize) -> (r: ScanStep)
    requires
        n == s@.len(),
        i < n,
        line <= i,
    ensures
        ({
            let st = scan_step(s@, i as int, line as nat);
            &&& r.next == st.next
            &&& r.line as nat == st.line
            &&& opt_tok_v(r.token) == st.token
            &&& opt_err_v(r.error) == st.error
        }),
        i < r.next <= n,
        r.line <= r.next,
{
    let c = s.get_char(i);
    match c {
        '(' => one_char_token(s, n, i, line, TokenType::LeftParen),
        ')' => one_char_token(s, n, i, line, TokenType::RightParen),
        '{' => one_char_token(s, n, i, line, TokenType::LeftBrace),
        '}' => one_char_token(s, n, i, line, TokenType::RightBrace),
        ',' => one_char_token(s, n, i, line, TokenType::Comma),
        '.' => one_char_token(s, n, i, line, TokenType::Dot),
        '-' => one_char_token(s, n, i, line, TokenType::Minus),
        '+' => one_char_token(s, n, i, line, TokenType::Plus),
        ';' => one_char_token(s, n, i, line, TokenType::Semicolon),
        '*' => one_char_token(s, n, i, line, TokenType::Star),
        '!' => {
            if i + 1 < n && s.get_char(i + 1) == '=' {
                two_char_token(s, n, i, line, TokenType::BangEqual)
            } else {
                one_char_token(s, n, i, line, TokenType::Bang)
            }
        },
        '=' => {
            if i + 1 < n && s.get_char(i + 1) == '=' {
                two_char_token(s, n, i, line, TokenType::EqualEqual)
            } else {
                one_char_token(s, n, i, line, TokenType::Equal)
            }
        },
        '<' => {
            if i + 1 < n && s.get_char(i + 1) == '=' {
                two_char_token(s, n, i, line, TokenType::LessEqual)
            } else {
                one_char_token(s, n, i, line, TokenType::Less)
            }
        },
        '>' => {
            if i + 1 < n && s.get_char(i + 1) == '=' {
                two_char_token(s, n, i, line, TokenType::GreaterEqual)
            } else {
                one_char_token(s, n, i, line, TokenType::Greater)
            }
        },
        '/' => {
            if i + 1 < n && s.get_char(i + 1) == '/' {
                let e = comment_end_exec(s, n, i + 2);
                ScanStep { next: e, line, token: None, error: None }
            } else {
                one_char_token(s, n, i, line, TokenType::Slash)
            }
        },
        ' ' => ScanStep { next: i + 1, line, token: None, error: None },
        '\r' => ScanStep { next: i + 1, line, token: None, error: None },
        '\t' => ScanStep { next: i + 1, line, token: None, error: None },
        '\n' => ScanStep { next: i + 1, line: line + 1, token: None, error: None },
        '"' => {
            let (e, nl) = string_body_exec(s, n, i + 1);
            let l2 = line + nl;
            if e == n {
                ScanStep {
                    next: e,
                    line: l2,
                    token: None,
                    error: Some(
                        StrixError::ScannerError(l2, String::from_str("Unterminated string.")),
                    ),
                }
            } else {
                let lexeme = String::from_str(s.substring_char(i, e + 1));
                let body = String::from_str(s.substring_char(i + 1, e));
                ScanStep {
                    next: e + 1,
                    line: l2,
                    token: Some(
                        Token::new(TokenType::String, lexeme, Some(Literal::Str(body)), l2),
                    ),
                    error: None,
                }
            }
        },
        _ => {
            if is_digit_exec(c) {
                number_token(s, n, i, line)
            } else if is_alpha_exec(c) {
                let e = alnum_end_exec(s, n, i);
                proof {
                    lemma_alnum_end_bounds(s@, i as int);
                    lemma_alnum_end_bounds(s@, i + 1);
                    assert(alnum_end(s@, i as int) == alnum_end(s@, i + 1));
                }
                let word = s.substring_char(i, e);
                let kind = match get_keyword_token(word) {
                    Some(k) => k,
                    None => TokenType::Identifier,
                };
                ScanStep {
                    next: e,
                    line,
                    token: Some(Token::new(kind, String::from_str(word), None, line)),
                    error: None,
                }
            } else {
                ScanStep {
                    next: i + 1,
                    line,
                    token: None,
                    error: Some(
                        StrixError::ScannerError(line, String::from_str("Unexpected character.")),
                    ),
                }
            }
        },
    }
}

/// Builds the token of a single-character lexeme at `i`.
fn one_char_token(s: &str, n: usize, i: usize, line: usize, kind: TokenType) -> (r: ScanStep)
    requires
        n == s@.len(),
        i < n,
    ensures
        r.next == i + 1,
        r.line == line,
        opt_tok_v(r.token) == Some(mk_tok(kind, s@.subrange(i as int, i + 1), line as nat)),
        r.error is None,
{
    let lexeme = String::from_str(s.substring_char(i, i + 1));
    ScanStep {
        next: i + 1,
        line,
        token: Some(Token::new(kind, lexeme, None, line)),
        error: None,
    }
}

/// Builds the token of a two-character lexeme at `i`.
fn two_char_token(s: &str, n: usize, i: usize, line: usize, kind: TokenType) -> (r: ScanStep)
    requires
        n == s@.len(),
        i + 1 < n,
    ensures
        r.next == i + 2,
        r.line == line,
        opt_tok_v(r.token) == Some(mk_tok(kind, s@.subrange(i as int, i + 2), line as nat)),
        r.error is None,
{
    let lexeme = String::from_str(s.substring_char(i, i + 2));
    ScanStep {
        next: i + 2,
        line,
        token: Some(Token::new(kind, lexeme, None, line)),
        error: None,
    }
}

/// Scans the numeric literal starting at the digit at `i`.
fn number_token(s: &str, n: usize, i: usize, line: usize) -> (r: ScanStep)
    requires
        n == s@.len(),
        i < n,
        is_digit(s@[i as int]),
    ensures
        ({
            let st = scan_step(s@, i as int, line as nat);
            &&& r.next == st.next
            &&& r.line as nat == st.line
            &&& opt_tok_v(r.token) == st.token
            &&& opt_err_v(r.error) == st.error
        }),
        i < r.next <= n,
        r.line == line,
{
    let d1 = digits_end_exec(s, n, i);
    proof {
        lemma_digits_end_bounds(s@, i as int);
        lemma_digits_end_bounds(s@, i + 1);
        assert(digits_end(s@, i as int) == digits_end(s@, i + 1));
    }
    let ext: usize = if d1 < n && s.get_char(d1) == '.' && d1 + 1 < n && is_digit_exec(
        s.get_char(d1 + 1),
    ) {
        let e2 = digits_end_exec(s, n, d1 + 1);
        proof {
            lemma_digits_end_bounds(s@, d1 + 1);
        }
        e2
    } else {
        d1
    };
    let whole_opt = digits_value_exec(s, n, i, d1);
    let frac6: u64 = if ext > d1 {
        let flen = ext - (d1 + 1);
        let k: usize = if flen > 6 {
            6
        } else {
            flen
        };
        proof {
            lemma_digits_end_bounds(s@, d1 + 1);
        }
        let fv = match digits_value_exec(s, n, d1 + 1, d1 + 1 + k) {
            Some(v) => v,
            None => {
                proof {
                    lemma_digits_val_bounds(s@, d1 + 1, d1 + 1 + k as int);
                    reveal_with_fuel(pow10, 8);
                    lemma_pow10_le(k as nat, 6);
                }
                0
            },
        };
        proof {
            lemma_digits_val_bounds(s@, d1 + 1, d1 + 1 + k as int);
            reveal_with_fuel(pow10, 8);
            lemma_pow10_le(k as nat, 6);
        }
        let p = pow10_exec(6 - k as u64);
        proof {
            assert(fv * p <= 1000000 * 1000000) by (nonlinear_arith)
                requires
                    0 <= fv <= 1000000,
                    0 <= p <= 1000000,
            ;
        }
        fv * p
    } else {
        0
    };
    let num = match whole_opt {
        None => {
            proof {
                lemma_digits_val_bounds(s@, i as int, d1 as int);
                let w = digits_val(s@, i as int, d1 as int);
                assert(w * 1000000 == w + w * 999999) by (nonlinear_arith);
                assert(w * 999999 >= 0) by (nonlinear_arith)
                    requires
                        w > u64::MAX,
                ;
            }
            Number::Infinite { neg: false }
        },
        Some(w) => {
            match w.checked_mul(crate::num::SCALE) {
                None => Number::Infinite { neg: false },
                Some(x) => match x.checked_add(frac6) {
                    None => Number::Infinite { neg: false },
                    Some(m) => Number::Finite { neg: false, mag: m },
                },
            }
        },
    };
    let lexeme = String::from_str(s.substring_char(i, ext));
    ScanStep {
        next: ext,
        line,
        token: Some(Token::new(TokenType::Number, lexeme, Some(Literal::Num(num)), line)),
        error: None,
    }
}

/// Scans the whole source: every token of `spec_scan` in order, closed by the
/// one end-of-input token, and the side channel of scanner errors. The token
/// sequence always ends with exactly one `Eof`, at the final line reached.
pub fn scan(source: &str) -> (r: (Vec<Token>, Vec<StrixError>))
    ensures
        crate::tokenizer::toks_v(r.0@) == spec_scan(source@, 0, 0).tokens + seq![
            mk_tok(TokenType::Eof, Seq::empty(), spec_scan(source@, 0, 0).line),
        ],
        crate::err::errs_v(r.1@) == spec_scan(source@, 0, 0).errors,
        r.0@.len() >= 1,
        r.0@[r.0@.len() - 1].token_type == TokenType::Eof,
        forall|j: int| 0 <= j < r.0@.len() - 1 ==> r.0@[j].token_type != TokenType::Eof,
{
    let ghost full = spec_scan(source@, 0, 0);
    let n = source.unicode_len();
    let mut tokens: Vec<Token> = Vec::new();
    let mut errors: Vec<StrixError> = Vec::new();
    let mut current: usize = 0;
    let mut line: usize = 0;
    proof {
        assert(crate::tokenizer::toks_v(tokens@) =~= Seq::<TokenV>::empty());
        assert(crate::err::errs_v(errors@) =~= Seq::<StrixErrorV>::empty());
        assert(Seq::<TokenV>::empty() + full.tokens =~= full.tokens);
        assert(Seq::<StrixErrorV>::empty() + full.errors =~= full.errors);
    }
    while current < n
        invariant
            n == source@.len(),
            current <= n,
            line <= current,
            crate::tokenizer::toks_v(tokens@) + spec_scan(
                source@,
                current as int,
                line as nat,
            ).tokens == full.tokens,
            crate::err::errs_v(errors@) + spec_scan(source@, current as int, line as nat).errors
                == full.errors,
            spec_scan(source@, current as int, line as nat).line == full.line,
        decreases n - current,
    {
        let ghost pre_toks = crate::tokenizer::toks_v(tokens@);
        let ghost pre_errs = crate::err::errs_v(errors@);
        let ghost pre = spec_scan(source@, current as int, line as nat);
        let st = scan_token(source, n, current, line);
        let ghost stv = scan_step(source@, current as int, line as nat);
        let ghost rest = spec_scan(source@, st.next as int, st.line as nat);
        proof {
            assert(pre.tokens == (match stv.token {
                Some(t) => seq![t] + rest.tokens,
                None => rest.tokens,
            }));
            assert(pre.errors == (match stv.error {
                Some(e) => seq![e] + rest.errors,
                None => rest.errors,
            }));
        }
        match st.token {
            Some(t) => {
                proof {
                    assert(crate::tokenizer::toks_v(tokens@.push(t)) =~= pre_toks.push(t@));
                    assert(pre_toks.push(t@) + rest.tokens =~= pre_toks + (seq![t@] + rest.tokens));
                }
                tokens.push(t);
            },
            None => {},
        }
        match st.error {
            Some(e) => {
                proof {
                    assert(crate::err::errs_v(errors@.push(e)) =~= pre_errs.push(e@));
                    assert(pre_errs.push(e@) + rest.errors =~= pre_errs + (seq![e@] + rest.errors));
                }
                errors.push(e);
            },
            None => {},
        }
        current = st.next;
        line = st.line;
    }
    proof {
        assert(spec_scan(source@, current as int, line as nat).tokens =~= Seq::<TokenV>::empty());
        assert(spec_scan(source@, current as int, line as nat).errors =~= Seq::<
            StrixErrorV,
        >::empty());
        assert(crate::tokenizer::toks_v(tokens@) + Seq::<TokenV>::empty() =~= crate::tokenizer::toks_v(tokens@));
        assert(crate::err::errs_v(errors@) + Seq::<StrixErrorV>::empty() =~= crate::err::errs_v(
            errors@,
        ));
    }
    let ghost pre_toks = crate::tokenizer::toks_v(tokens@);
    let eof = Token::new(TokenType::Eof, String::new(), None, line);
    tokens.push(eof);
    proof {
        assert(eof@ == mk_tok(TokenType::Eof, Seq::empty(), full.line));
        assert(crate::tokenizer::toks_v(tokens@) =~= pre_toks.push(eof@));
        assert(pre_toks.push(eof@) =~= full.tokens + seq![
            mk_tok(TokenType::Eof, Seq::empty(), full.line),
        ]);
        lemma_scan_no_eof(source@, 0, 0);
        assert(forall|j: int|
            0 <= j < tokens@.len() ==> crate::tokenizer::toks_v(tokens@)[j].token_type
                == #[trigger] tokens@[j].token_type);
    }
    (tokens, errors)
}

/// The scanner: holds the source text of one pass.
pub struct Scanner {
    source: String,
}

impl Scanner {
    /// The characters this scanner will read.
    pub closed spec fn src(&self) -> Seq<char> {
        self.source@
    }

    pub fn from(source: String) -> (r: Self)
        ensures
            r.src() == source@,
    {
        Scanner { source }
    }

    /// Runs the whole pass; same contract as `scan`.
    pub fn scan_tokens(&self) -> (r: (Vec<Token>, Vec<StrixError>))
        ensures
            crate::tokenizer::toks_v(r.0@) == spec_scan(self.src(), 0, 0).tokens + seq![
                mk_tok(TokenType::Eof, Seq::empty(), spec_scan(self.src(), 0, 0).line),
            ],
            crate::err::errs_v(r.1@) == spec_scan(self.src(), 0, 0).errors,
            r.0@.len() >= 1,
            r.0@[r.0@.len() - 1].token_type == TokenType::Eof,
            forall|j: int| 0 <= j < r.0@.len() - 1 ==> r.0@[j].token_type != TokenType::Eof,
    {
        scan(self.source.as_str())
    }
}

/// Ten to the `a` is at most ten to the `b` when `a <= b`.
proof fn lemma_pow10_le(a: nat, b: nat)
    requires
        a <= b,
    ensures
        pow10(a) <= pow10(b),
        pow10(a) >= 1,
    decreases b,
{
    if a == b {
        lemma_pow10_pos(a);
    } else {
        lemma_pow10_le(a, (b - 1) as nat);
    }
}

/// Ten to anything is positive.
proof fn lemma_pow10_pos(a: nat)
    ensures
        pow10(a) >= 1,
    decreases a,
{
    if a > 0 {
        lemma_pow10_pos((a - 1) as nat);
    }
}

} // verus!
