//! The driver: one pass of the pipeline — scan, parse, evaluate — over one
//! source text, and the flag that remembers whether the last input had a
//! static (scan or parse) error. Reading input, printing, and the prompt
//! loop stay with the host.

use vstd::prelude::*;

use crate::ast::lit_text;
use crate::ast::literal_text;
use crate::err::errs_v;
use crate::err::StrixError;
use crate::interpreter::lemma_parse_wf;
use crate::interpreter::spec_eval;
use crate::interpreter::Interpreter;
use crate::parser::spec_expression;
use crate::parser::Parser;
use crate::scanner::mk_tok;
use crate::scanner::spec_scan;
use crate::scanner::Scanner;
use crate::tokenizer::TokenType;

verus! {

/// The pipeline of the full scan of `src` followed by one expression parse:
/// the parse outcome over the scanned tokens closed by the end-of-input
/// sentinel.
pub open spec fn spec_run(src: Seq<char>) -> crate::parser::PRes {
    let full = spec_scan(src, 0, 0);
    spec_expression(full.tokens + seq![mk_tok(TokenType::Eof, Seq::empty(), full.line)], 0)
}

/// Renders of one decimal numeral hold digits only, and at least one.
proof fn lemma_dec_str_digits(n: nat)
    ensures
        crate::num::dec_str(n).len() >= 1,
        forall|j: int|
            0 <= j < crate::num::dec_str(n).len() ==> crate::scanner::is_digit(
                #[trigger] crate::num::dec_str(n)[j],
            ),
    decreases n,
{
    if n >= 10 {
        lemma_dec_str_digits(n / 10);
    }
}

/// Reading a numeral depends only on the characters of the range read.
proof fn lemma_digits_val_shift(s: Seq<char>, t: Seq<char>, off: int, lo: int, hi: int)
    requires
        forall|j: int| lo <= j < hi ==> s[j + off] == #[trigger] t[j],
    ensures
        crate::scanner::digits_val(s, lo + off, hi + off) == crate::scanner::digits_val(t, lo, hi),
    decreases hi - lo,
{
    if lo < hi {
        lemma_digits_val_shift(s, t, off, lo, hi - 1);
        assert(s[(hi - 1) + off] == t[hi - 1]);
    }
}

/// Reading back the render of a numeral gives the numeral.
proof fn lemma_dec_str_val(n: nat)
    ensures
        crate::scanner::digits_val(
            crate::num::dec_str(n),
            0,
            crate::num::dec_str(n).len() as int,
        ) == n,
    decreases n,
{
    if n < 10 {
        let s = crate::num::dec_str(n);
        assert(crate::scanner::digits_val(s, 0, 1) == crate::scanner::digits_val(s, 0, 0) * 10
            + crate::scanner::digit_val(s[0]));
    } else {
        lemma_dec_str_val(n / 10);
        let a = crate::num::dec_str(n / 10);
        let s = crate::num::dec_str(n);
        assert(s =~= a + seq![crate::num::digit_char(n % 10)]);
        lemma_digits_val_shift(s, a, 0, 0, a.len() as int);
        assert(s[s.len() - 1] == crate::num::digit_char(n % 10));
        assert(crate::scanner::digit_val(crate::num::digit_char(n % 10)) == n % 10);
        assert(crate::scanner::digits_val(s, 0, s.len() as int) == crate::scanner::digits_val(
            s,
            0,
            s.len() - 1,
        ) * 10 + crate::scanner::digit_val(s[s.len() - 1]));
    }
}

/// A `k`-digit render holds exactly `k` digit characters and reads back to
/// its value.
proof fn lemma_dec_fixed_val(n: nat, k: nat)
    requires
        n < crate::scanner::pow10(k),
    ensures
        crate::num::dec_fixed(n, k).len() == k,
        forall|j: int|
            0 <= j < k ==> crate::scanner::is_digit(#[trigger] crate::num::dec_fixed(n, k)[j]),
        crate::scanner::digits_val(crate::num::dec_fixed(n, k), 0, k as int) == n,
    decreases k,
{
    if k == 0 {
    } else {
        assert(n / 10 < crate::scanner::pow10((k - 1) as nat)) by (nonlinear_arith)
            requires
                n < crate::scanner::pow10(k),
                crate::scanner::pow10(k) == 10 * crate::scanner::pow10((k - 1) as nat),
        ;
        lemma_dec_fixed_val(n / 10, (k - 1) as nat);
        let a = crate::num::dec_fixed(n / 10, (k - 1) as nat);
        let s = crate::num::dec_fixed(n, k);
        lemma_digits_val_shift(s, a, 0, 0, a.len() as int);
    }
}

/// Removing the trailing zeros of a fraction and padding them back restores
/// the fraction; what is left is shorter than its digit count allows and is
/// not empty unless the fraction is zero.
proof fn lemma_strip_inverse(r: nat, k: nat)
    requires
        r < crate::scanner::pow10(k),
    ensures
        crate::num::strip_len(r, k) <= k,
        crate::num::strip_mag(r, k) < crate::scanner::pow10(crate::num::strip_len(r, k)),
        crate::num::strip_mag(r, k) * crate::scanner::pow10(
            (k - crate::num::strip_len(r, k)) as nat,
        ) == r,
        r != 0 ==> crate::num::strip_len(r, k) >= 1,
    decreases k,
{
    if k == 0 || r % 10 != 0 {
        assert(crate::scanner::pow10((k - k) as nat) == 1);
        assert(r * crate::scanner::pow10((k - k) as nat) == r) by (nonlinear_arith)
            requires
                crate::scanner::pow10((k - k) as nat) == 1,
        ;
    } else {
        assert(r / 10 < crate::scanner::pow10((k - 1) as nat)) by (nonlinear_arith)
            requires
                r < crate::scanner::pow10(k),
                crate::scanner::pow10(k) == 10 * crate::scanner::pow10((k - 1) as nat),
        ;
        lemma_strip_inverse(r / 10, (k - 1) as nat);
        let m = crate::num::strip_mag(r, k);
        let l = crate::num::strip_len(r, k);
        assert(m == crate::num::strip_mag(r / 10, (k - 1) as nat));
        assert(l == crate::num::strip_len(r / 10, (k - 1) as nat));
        let p = crate::scanner::pow10(((k - 1) - l) as nat);
        assert(m * p == r / 10);
        assert(crate::scanner::pow10((k - l) as nat) == 10 * p);
        assert(m * (10 * p) == (m * p) * 10) by (nonlinear_arith);
        assert(r == (r / 10) * 10);
        assert(m * crate::scanner::pow10((k - l) as nat) == m * (10 * p));
        assert(m * crate::scanner::pow10((k - l) as nat) == r);
    }
}

/// A digit run ends exactly where the digits stop.
proof fn lemma_digits_end_exact(s: Seq<char>, i: int, m: int)
    requires
        0 <= i <= m <= s.len(),
        forall|j: int| i <= j < m ==> crate::scanner::is_digit(#[trigger] s[j]),
        m < s.len() ==> !crate::scanner::is_digit(s[m]),
    ensures
        crate::scanner::digits_end(s, i) == m,
    decreases m - i,
{
    if i < m {
        lemma_digits_end_exact(s, i + 1, m);
    }
}

/// A two-token sequence whose primary production yields `e` parses to `e`
/// through the whole descent: with only the end-of-input sentinel left, no
/// binary or unary level has anything to add.
proof fn lemma_parse_single_literal(ts: Seq<crate::tokenizer::TokenV>, e: crate::expr::ExprV)
    requires
        ts.len() == 2,
        ts[1].token_type == TokenType::Eof,
        crate::parser::spec_primary(ts, 0).res == Result::<
            crate::expr::ExprV,
            crate::err::StrixErrorV,
        >::Ok(e),
        crate::parser::spec_primary(ts, 0).next == 1,
    ensures
        crate::parser::spec_expression(ts, 0).res == Result::<
            crate::expr::ExprV,
            crate::err::StrixErrorV,
        >::Ok(e),
{
    assert(crate::parser::peek_kind(ts, 1) == TokenType::Eof);
    assert(crate::parser::spec_unary(ts, 0).next == 1);
    assert(crate::parser::spec_factor(ts, 0).next == 1);
    assert(crate::parser::spec_term(ts, 0).next == 1);
    assert(crate::parser::spec_comparision(ts, 0).next == 1);
    assert(crate::parser::spec_expression(ts, 0).res == crate::parser::spec_equality(ts, 0).res);
}

/// The round trip on a number literal: printing a tree that is a bare
/// nonnegative finite number literal gives a text that scans without error
/// to exactly one token and re-parses to the same tree — so it evaluates
/// identically. (Printing an operator node yields prefix form, which the
/// infix grammar does not re-parse, and a string literal prints without its
/// quotes; the round trip holds of the other literals.)
#[verifier::rlimit(100)]
pub proof fn lemma_number_literal_round_trip(mag: u64)
    ensures
        ({
            let e = crate::expr::ExprV::Literal {
                value: crate::tokenizer::LitV::Num(
                    crate::num::Number::Finite { neg: false, mag },
                ),
            };
            let text = crate::ast::spec_print(e);
            &&& spec_scan(text, 0, 0).errors.len() == 0
            &&& spec_run(text).res == Result::<
                crate::expr::ExprV,
                crate::err::StrixErrorV,
            >::Ok(e)
        }),
{
    let num = crate::num::Number::Finite { neg: false, mag };
    let e = crate::expr::ExprV::Literal { value: crate::tokenizer::LitV::Num(num) };
    let text = crate::ast::spec_print(e);
    let q = (mag / crate::num::SCALE) as nat;
    let r = (mag % crate::num::SCALE) as nat;
    let whole = crate::num::dec_str(q);
    lemma_dec_str_digits(q);
    lemma_dec_str_val(q);
    reveal_with_fuel(crate::scanner::pow10, 8);
    let n = text.len() as int;
    if r == 0 {
        assert(text =~= whole);
        lemma_digits_end_exact(text, 0, n);
        lemma_digits_val_shift(text, whole, 0, 0, whole.len() as int);
    } else {
        lemma_strip_inverse(r, 6);
        let sm = crate::num::strip_mag(r, 6);
        let sl = crate::num::strip_len(r, 6);
        let frac = crate::num::dec_fixed(sm, sl);
        lemma_dec_fixed_val(sm, sl);
        assert(text =~= whole + seq!['.'] + frac);
        let d1 = whole.len() as int;
        assert(forall|j: int| 0 <= j < d1 ==> text[j] == #[trigger] whole[j]);
        assert(text[d1] == '.');
        assert(!crate::scanner::is_digit('.'));
        lemma_digits_end_exact(text, 0, d1);
        assert(forall|j: int| 0 <= j < sl ==> text[j + (d1 + 1)] == #[trigger] frac[j]);
        lemma_digits_end_exact(text, d1 + 1, n);
        lemma_digits_val_shift(text, whole, 0, 0, d1);
        lemma_digits_val_shift(text, frac, d1 + 1, 0, sl as int);
        assert(crate::scanner::number_value(text, 0, n) == num);
    }
    let st = crate::scanner::scan_step(text, 0, 0);
    assert(st.next == n && st.error is None);
    let sc = spec_scan(text, 0, 0);
    assert(spec_scan(text, n, 0).tokens =~= Seq::<crate::tokenizer::TokenV>::empty());
    assert(sc.tokens =~= seq![st.token->Some_0]);
    assert(sc.errors =~= Seq::<crate::err::StrixErrorV>::empty());
    let ts = sc.tokens + seq![mk_tok(TokenType::Eof, Seq::empty(), sc.line)];
    assert(crate::parser::peek_kind(ts, 0) == TokenType::Number);
    assert(crate::parser::spec_primary(ts, 0).res == Result::<
        crate::expr::ExprV,
        crate::err::StrixErrorV,
    >::Ok(e));
    lemma_parse_single_literal(ts, e);
}

/// A word run ends exactly where the letters and digits stop.
proof fn lemma_alnum_end_exact(s: Seq<char>, i: int, m: int)
    requires
        0 <= i <= m <= s.len(),
        forall|j: int| i <= j < m ==> crate::scanner::is_alnum(#[trigger] s[j]),
        m < s.len() ==> !crate::scanner::is_alnum(s[m]),
    ensures
        crate::scanner::alnum_end(s, i) == m,
    decreases m - i,
{
    if i < m {
        lemma_alnum_end_exact(s, i + 1, m);
    }
}

/// The scan of a source that is one keyword: no error, and exactly the
/// keyword's token.
proof fn lemma_keyword_scan(text: Seq<char>, kind: TokenType)
    requires
        text.len() >= 1,
        forall|j: int| 0 <= j < text.len() ==> crate::scanner::is_alpha(#[trigger] text[j]),
        crate::tokenizer::spec_keyword(text) == Some(kind),
    ensures
        spec_scan(text, 0, 0).errors.len() == 0,
        spec_scan(text, 0, 0).tokens =~= seq![mk_tok(kind, text, 0)],
{
    let n = text.len() as int;
    lemma_alnum_end_exact(text, 0, n);
    assert(text.subrange(0, n) =~= text);
    let st = crate::scanner::scan_step(text, 0, 0);
    assert(st.next == n && st.error is None && st.token == Some(mk_tok(kind, text, 0)));
    assert(spec_scan(text, n, 0).tokens =~= Seq::<crate::tokenizer::TokenV>::empty());
    assert(spec_scan(text, n, 0).errors =~= Seq::<crate::err::StrixErrorV>::empty());
}

/// The round trip on the keyword literals: the printed texts of the trees
/// for `true`, `false` and `nil` scan without error and re-parse to the same
/// trees.
#[verifier::rlimit(100)]
pub proof fn lemma_keyword_literal_round_trip()
    ensures
        ({
            let e = crate::expr::ExprV::Literal { value: crate::tokenizer::LitV::Bool(true) };
            &&& spec_scan(crate::ast::spec_print(e), 0, 0).errors.len() == 0
            &&& spec_run(crate::ast::spec_print(e)).res == Result::<
                crate::expr::ExprV,
                crate::err::StrixErrorV,
            >::Ok(e)
        }),
        ({
            let e = crate::expr::ExprV::Literal { value: crate::tokenizer::LitV::Bool(false) };
            &&& spec_scan(crate::ast::spec_print(e), 0, 0).errors.len() == 0
            &&& spec_run(crate::ast::spec_print(e)).res == Result::<
                crate::expr::ExprV,
                crate::err::StrixErrorV,
            >::Ok(e)
        }),
        ({
            let e = crate::expr::ExprV::Literal { value: crate::tokenizer::LitV::Nil };
            &&& spec_scan(crate::ast::spec_print(e), 0, 0).errors.len() == 0
            &&& spec_run(crate::ast::spec_print(e)).res == Result::<
                crate::expr::ExprV,
                crate::err::StrixErrorV,
            >::Ok(e)
        }),
{
    reveal_strlit("and");
    reveal_strlit("class");
    reveal_strlit("else");
    reveal_strlit("false");
    reveal_strlit("for");
    reveal_strlit("fun");
    reveal_strlit("if");
    reveal_strlit("nil");
    reveal_strlit("or");
    reveal_strlit("print");
    reveal_strlit("return");
    reveal_strlit("super");
    reveal_strlit("this");
    reveal_strlit("true");
    reveal_strlit("var");
    reveal_strlit("while");
    let et = crate::expr::ExprV::Literal { value: crate::tokenizer::LitV::Bool(true) };
    let tt = crate::ast::spec_print(et);
    lemma_keyword_scan(tt, TokenType::True);
    let ts_t = spec_scan(tt, 0, 0).tokens + seq![
        mk_tok(TokenType::Eof, Seq::empty(), spec_scan(tt, 0, 0).line),
    ];
    assert(crate::parser::peek_kind(ts_t, 0) == TokenType::True);
    lemma_parse_single_literal(ts_t, et);
    let ef = crate::expr::ExprV::Literal { value: crate::tokenizer::LitV::Bool(false) };
    let tf = crate::ast::spec_print(ef);
    lemma_keyword_scan(tf, TokenType::False);
    let ts_f = spec_scan(tf, 0, 0).tokens + seq![
        mk_tok(TokenType::Eof, Seq::empty(), spec_scan(tf, 0, 0).line),
    ];
    assert(crate::parser::peek_kind(ts_f, 0) == TokenType::False);
    lemma_parse_single_literal(ts_f, ef);
    let en = crate::expr::ExprV::Literal { value: crate::tokenizer::LitV::Nil };
    let tn = crate::ast::spec_print(en);
    lemma_keyword_scan(tn, TokenType::Nil);
    let ts_n = spec_scan(tn, 0, 0).tokens + seq![
        mk_tok(TokenType::Eof, Seq::empty(), spec_scan(tn, 0, 0).line),
    ];
    assert(crate::parser::peek_kind(ts_n, 0) == TokenType::Nil);
    lemma_parse_single_literal(ts_n, en);
}

/// The driver state: whether the last input processed had a static error.
pub struct Strix {
    had_error: bool,
}

impl Strix {
    /// Whether a static error was recorded.
    pub closed spec fn had_err(&self) -> bool {
        self.had_error
    }

    pub fn new() -> (r: Self)
        ensures
            !r.had_err(),
    {
        Strix { had_error: false }
    }

    /// Runs scanner, parser and evaluator over one source text: the display
    /// text of the evaluated value on success, the parser's or evaluator's
    /// error otherwise, and the scanner's errors either way. Scanner and
    /// parser failures are recorded in the flag; a runtime failure is not,
    /// since it is no static error.
    pub fn run(&mut self, source: String) -> (r: (Result<String, StrixError>, Vec<StrixError>))
        ensures
            errs_v(r.1@) == spec_scan(source@, 0, 0).errors,
            (match spec_run(source@).res {
                Result::Err(pe) => r.0 matches Result::Err(e) && e@ == pe,
                Result::Ok(ev) => match spec_eval(ev) {
                    Result::Ok(v) => r.0 matches Result::Ok(s) && s@ == lit_text(v),
                    Result::Err(ee) => r.0 matches Result::Err(e) && e@ == ee,
                },
            }),
            final(self).had_err() == (old(self).had_err() || spec_scan(source@, 0, 0).errors.len()
                > 0 || spec_run(source@).res is Err),
    {
        let scanner = Scanner::from(source);
        let (tokens, errors) = scanner.scan_tokens();
        if errors.len() > 0 {
            self.had_error = true;
        }
        proof {
            assert(crate::tokenizer::toks_v(tokens@)[tokens@.len() - 1].token_type
                == TokenType::Eof);
        }
        let mut parser = Parser::from(tokens);
        match parser.parse() {
            Result::Ok(expr) => {
                proof {
                    lemma_parse_wf(crate::tokenizer::toks_v(tokens@), 0);
                }
                let mut interpreter = Interpreter::new();
                match interpreter.interpret(&expr) {
                    Result::Ok(value) => (Result::Ok(literal_text(&value)), errors),
                    Result::Err(err) => (Result::Err(err), errors),
                }
            },
            Result::Err(err) => {
                self.had_error = true;
                (Result::Err(err), errors)
            },
        }
    }

    /// Whether the last input processed had a static error.
    pub fn had_error(&self) -> (r: bool)
        ensures
            r == self.had_err(),
    {
        self.had_error
    }

    /// Clears the error flag, as the prompt loop does between inputs.
    pub fn reset(&mut self)
        ensures
            !final(self).had_err(),
    {
        self.had_error = false;
    }
}

} // verus!
