//! The parser: recursive descent over the token sequence, producing one
//! expression tree. Precedence is encoded by one procedure per level, each
//! binary level folding to the left; the whole descent is specified by the
//! `spec_*` functions, which the executable methods are proved to follow.

use vstd::prelude::*;

use crate::err::StrixError;
use crate::err::StrixErrorV;
use crate::expr::Expr;
use crate::expr::ExprV;
use crate::tokenizer::toks_v;
use crate::tokenizer::LitV;
use crate::tokenizer::Literal;
use crate::tokenizer::Token;
use crate::tokenizer::TokenType;
use crate::tokenizer::TokenV;

verus! {

/// The token category at `i`; looking past the end reads as end-of-input.
pub open spec fn peek_kind(ts: Seq<TokenV>, i: int) -> TokenType {
    if 0 <= i < ts.len() {
        ts[i].token_type
    } else {
        TokenType::Eof
    }
}

/// The token at `i` (an end-of-input placeholder past the end).
pub open spec fn peek_tok(ts: Seq<TokenV>, i: int) -> TokenV {
    if 0 <= i < ts.len() {
        ts[i]
    } else {
        TokenV { token_type: TokenType::Eof, lexeme: Seq::empty(), literal: None, line: 0 }
    }
}

/// Whether the token at `i` is a real token of category `t`.
pub open spec fn spec_check(ts: Seq<TokenV>, i: int, t: TokenType) -> bool {
    peek_kind(ts, i) == t && t != TokenType::Eof
}

/// `x` clamped into `[lo, hi]`. Every production in fact leaves the cursor
/// inside this range; the clamp only makes the descent's termination plain.
pub open spec fn clampi(x: int, lo: int, hi: int) -> int {
    if x < lo {
        lo
    } else if x > hi {
        hi
    } else {
        x
    }
}

/// The outcome of one production: the parse result and the cursor after it.
pub struct PRes {
    pub res: Result<ExprV, StrixErrorV>,
    pub next: int,
}

/// `expression → equality`.
pub open spec fn spec_expression(ts: Seq<TokenV>, i: int) -> PRes
    decreases ts.len() - i, 10int,
{
    spec_equality(ts, i)
}

/// `equality → comparison (("!=" | "==") comparison)*`.
pub open spec fn spec_equality(ts: Seq<TokenV>, i: int) -> PRes
    decreases ts.len() - i, 9int,
{
    if i < 0 || i > ts.len() {
        PRes {
            res: Result::Err(StrixErrorV::ParserError(peek_tok(ts, i), "Expected expression."@)),
            next: i,
        }
    } else {
        let first = spec_comparision(ts, i);
        spec_equality_rest(ts, clampi(first.next, i, ts.len() as int), first.res)
    }
}

/// The left fold of the equality level: while an equality operator is next,
/// consume it, parse the next comparison, and fold the accumulated tree as
/// the new left operand. An error from the right operand wins; an
/// accumulated error is reported once a fold completes.
pub open spec fn spec_equality_rest(ts: Seq<TokenV>, i: int, acc: Result<ExprV, StrixErrorV>) -> PRes
    decreases ts.len() - i, 8int,
{
    if peek_kind(ts, i) == TokenType::BangEqual || peek_kind(ts, i) == TokenType::EqualEqual {
        let op = peek_tok(ts, i);
        let r = spec_comparision(ts, i + 1);
        match r.res {
            Result::Err(e) => PRes { res: Result::Err(e), next: r.next },
            Result::Ok(right) => match acc {
                Result::Err(e) => PRes { res: Result::Err(e), next: r.next },
                Result::Ok(left) => spec_equality_rest(
                    ts,
                    clampi(r.next, i + 1, ts.len() as int),
                    Result::Ok(
                        ExprV::Binary {
                            left: Box::new(left),
                            operator: op,
                            right: Box::new(right),
                        },
                    ),
                ),
            },
        }
    } else {
        PRes { res: acc, next: i }
    }
}

/// `comparison → term ((">" | ">=" | "<" | "<=") term)*`.
pub open spec fn spec_comparision(ts: Seq<TokenV>, i: int) -> PRes
    decreases ts.len() - i, 7int,
{
    if i < 0 || i > ts.len() {
        PRes {
            res: Result::Err(StrixErrorV::ParserError(peek_tok(ts, i), "Expected expression."@)),
            next: i,
        }
    } else {
        let first = spec_term(ts, i);
        spec_comparision_rest(ts, clampi(first.next, i, ts.len() as int), first.res)
    }
}

/// The left fold of the comparison level.
pub open spec fn spec_comparision_rest(
    ts: Seq<TokenV>,
    i: int,
    acc: Result<ExprV, StrixErrorV>,
) -> PRes
    decreases ts.len() - i, 6int,
{
    if peek_kind(ts, i) == TokenType::Greater || peek_kind(ts, i) == TokenType::GreaterEqual
        || peek_kind(ts, i) == TokenType::Less || peek_kind(ts, i) == TokenType::LessEqual {
        let op = peek_tok(ts, i);
        let r = spec_term(ts, i + 1);
        match r.res {
            Result::Err(e) => PRes { res: Result::Err(e), next: r.next },
            Result::Ok(right) => match acc {
                Result::Err(e) => PRes { res: Result::Err(e), next: r.next },
                Result::Ok(left) => spec_comparision_rest(
                    ts,
                    clampi(r.next, i + 1, ts.len() as int),
                    Result::Ok(
                        ExprV::Binary {
                            left: Box::new(left),
                            operator: op,
                            right: Box::new(right),
                        },
                    ),
                ),
            },
        }
    } else {
        PRes { res: acc, next: i }
    }
}

/// `term → factor (("-" | "+") factor)*`.
pub open spec fn spec_term(ts: Seq<TokenV>, i: int) -> PRes
    decreases ts.len() - i, 5int,
{
    if i < 0 || i > ts.len() {
        PRes {
            res: Result::Err(StrixErrorV::ParserError(peek_tok(ts, i), "Expected expression."@)),
            next: i,
        }
    } else {
        let first = spec_factor(ts, i);
        spec_term_rest(ts, clampi(first.next, i, ts.len() as int), first.res)
    }
}

/// The left fold of the term level.
pub open spec fn spec_term_rest(ts: Seq<TokenV>, i: int, acc: Result<ExprV, StrixErrorV>) -> PRes
    decreases ts.len() - i, 4int,
{
    if peek_kind(ts, i) == TokenType::Minus || peek_kind(ts, i) == TokenType::Plus {
        let op = peek_tok(ts, i);
        let r = spec_factor(ts, i + 1);
        match r.res {
            Result::Err(e) => PRes { res: Result::Err(e), next: r.next },
            Result::Ok(right) => match acc {
                Result::Err(e) => PRes { res: Result::Err(e), next: r.next },
                Result::Ok(left) => spec_term_rest(
                    ts,
                    clampi(r.next, i + 1, ts.len() as int),
                    Result::Ok(
                        ExprV::Binary {
                            left: Box::new(left),
                            operator: op,
                            right: Box::new(right),
                        },
                    ),
                ),
            },
        }
    } else {
        PRes { res: acc, next: i }
    }
}

/// `factor → unary (("/" | "*") unary)*`.
pub open spec fn spec_factor(ts: Seq<TokenV>, i: int) -> PRes
    decreases ts.len() - i, 3int,
{
    if i < 0 || i > ts.len() {
        PRes {
            res: Result::Err(StrixErrorV::ParserError(peek_tok(ts, i), "Expected expression."@)),
            next: i,
        }
    } else {
        let first = spec_unary(ts, i);
        spec_factor_rest(ts, clampi(first.next, i, ts.len() as int), first.res)
    }
}

/// The left fold of the factor level.
pub open spec fn spec_factor_rest(ts: Seq<TokenV>, i: int, acc: Result<ExprV, StrixErrorV>) -> PRes
    decreases ts.len() - i, 2int,
{
    if peek_kind(ts, i) == TokenType::Slash || peek_kind(ts, i) == TokenType::Star {
        let op = peek_tok(ts, i);
        let r = spec_unary(ts, i + 1);
        match r.res {
            Result::Err(e) => PRes { res: Result::Err(e), next: r.next },
            Result::Ok(right) => match acc {
                Result::Err(e) => PRes { res: Result::Err(e), next: r.next },
                Result::Ok(left) => spec_factor_rest(
                    ts,
                    clampi(r.next, i + 1, ts.len() as int),
                    Result::Ok(
                        ExprV::Binary {
                            left: Box::new(left),
                            operator: op,
                            right: Box::new(right),
                        },
                    ),
                ),
            },
        }
    } else {
        PRes { res: acc, next: i }
    }
}

/// `unary → ("!" | "-") unary | primary`; right-recursive.
pub open spec fn spec_unary(ts: Seq<TokenV>, i: int) -> PRes
    decreases ts.len() - i, 1int,
{
    if peek_kind(ts, i) == TokenType::Bang || peek_kind(ts, i) == TokenType::Minus {
        let op = peek_tok(ts, i);
        let r = spec_unary(ts, i + 1);
        match r.res {
            Result::Err(e) => PRes { res: Result::Err(e), next: r.next },
            Result::Ok(right) => PRes {
                res: Result::Ok(ExprV::Unary { operator: op, right: Box::new(right) }),
                next: r.next,
            },
        }
    } else {
        spec_primary(ts, i)
    }
}

/// `primary → NUMBER | STRING | "true" | "false" | "nil" | "(" expression ")"`.
/// A literal token missing its payload reads as nil; any other token is a
/// parser error carrying that token.
pub open spec fn spec_primary(ts: Seq<TokenV>, i: int) -> PRes
    decreases ts.len() - i, 0int,
{
    let k = peek_kind(ts, i);
    if k == TokenType::False {
        PRes { res: Result::Ok(ExprV::Literal { value: LitV::Bool(false) }), next: i + 1 }
    } else if k == TokenType::True {
        PRes { res: Result::Ok(ExprV::Literal { value: LitV::Bool(true) }), next: i + 1 }
    } else if k == TokenType::Nil {
        PRes { res: Result::Ok(ExprV::Literal { value: LitV::Nil }), next: i + 1 }
    } else if k == TokenType::Number || k == TokenType::String {
        let lit = match peek_tok(ts, i).literal {
            Some(l) => l,
            None => LitV::Nil,
        };
        PRes { res: Result::Ok(ExprV::Literal { value: lit }), next: i + 1 }
    } else if k == TokenType::LeftParen {
        let r = spec_expression(ts, i + 1);
        match r.res {
            Result::Err(e) => PRes { res: Result::Err(e), next: r.next },
            Result::Ok(inner) => {
                let j = clampi(r.next, i + 1, ts.len() as int);
                if spec_check(ts, j, TokenType::RightParen) {
                    PRes {
                        res: Result::Ok(ExprV::Grouping { expression: Box::new(inner) }),
                        next: j + 1,
                    }
                } else {
                    PRes {
                        res: Result::Err(
                            StrixErrorV::ParserError(
                                peek_tok(ts, j),
                                "Expect ')' after expression."@,
                            ),
                        ),
                        next: j,
                    }
                }
            },
        }
    } else {
        PRes {
            res: Result::Err(StrixErrorV::ParserError(peek_tok(ts, i), "Expected expression."@)),
            next: i,
        }
    }
}

/// Where a statement-boundary skip from `i` lands: one token is consumed,
/// then the cursor moves until a semicolon was just passed, a
/// statement-starting keyword is next, or the input ends.
pub open spec fn spec_sync(ts: Seq<TokenV>, i: int) -> int {
    let j = if peek_kind(ts, i) != TokenType::Eof {
        i + 1
    } else {
        i
    };
    spec_sync_loop(ts, j)
}

/// The advancing phase of the statement-boundary skip.
pub open spec fn spec_sync_loop(ts: Seq<TokenV>, j: int) -> int
    decreases ts.len() - j,
{
    if peek_kind(ts, j) == TokenType::Eof {
        j
    } else if peek_tok(ts, j - 1).token_type == TokenType::Semicolon {
        j
    } else if peek_kind(ts, j) == TokenType::Class || peek_kind(ts, j) == TokenType::Fun
        || peek_kind(ts, j) == TokenType::Var || peek_kind(ts, j) == TokenType::For || peek_kind(
        ts,
        j,
    ) == TokenType::If || peek_kind(ts, j) == TokenType::While || peek_kind(ts, j)
        == TokenType::Print || peek_kind(ts, j) == TokenType::Return {
        j
    } else {
        spec_sync_loop(ts, j + 1)
    }
}

/// The model of a parse result.
pub open spec fn parse_res_v(r: Result<Expr, StrixError>) -> Result<ExprV, StrixErrorV> {
    match r {
        Result::Ok(e) => Result::Ok(e@),
        Result::Err(x) => Result::Err(x@),
    }
}

/// The parser: the token sequence of one expression and a forward cursor.
pub struct Parser {
    tokens: Vec<Token>,
    current: usize,
}

impl Parser {
    /// The models of the tokens held.
    pub closed spec fn toks(&self) -> Seq<TokenV> {
        toks_v(self.tokens@)
    }

    /// The cursor.
    pub closed spec fn cur(&self) -> int {
        self.current as int
    }

    /// Well-formed: at least one token, the last one the end-of-input
    /// sentinel, and the cursor inside the sequence.
    pub closed spec fn wf(&self) -> bool {
        &&& self.toks().len() > 0
        &&& self.toks()[self.toks().len() - 1].token_type == TokenType::Eof
        &&& 0 <= self.cur() < self.toks().len()
    }

    pub fn from(tokens: Vec<Token>) -> (r: Self)
        ensures
            r.toks() == toks_v(tokens@),
            r.cur() == 0,
            tokens@.len() > 0 && toks_v(tokens@)[tokens@.len() - 1].token_type == TokenType::Eof
                ==> r.wf(),
    {
        Parser { tokens, current: 0 }
    }

    /// Parses one expression from the cursor on; same contract as
    /// `expression`.
    pub fn parse(&mut self) -> (r: Result<Expr, StrixError>)
        requires
            old(self).wf(),
        ensures
            final(self).wf(),
            final(self).toks() == old(self).toks(),
            parse_res_v(r) == spec_expression(old(self).toks(), old(self).cur()).res,
            final(self).cur() == spec_expression(old(self).toks(), old(self).cur()).next,
    {
        self.expression()
    }

    fn expression(&mut self) -> (r: Result<Expr, StrixError>)
        requires
            old(self).wf(),
        ensures
            final(self).wf(),
            final(self).toks() == old(self).toks(),
            old(self).cur() <= final(self).cur(),
            parse_res_v(r) == spec_expression(old(self).toks(), old(self).cur()).res,
            final(self).cur() == spec_expression(old(self).toks(), old(self).cur()).next,
        decreases self.toks().len() - self.cur(), 10int,
    {
        self.equality()
    }

    fn equality(&mut self) -> (r: Result<Expr, StrixError>)
        requires
            old(self).wf(),
        ensures
            final(self).wf(),
            final(self).toks() == old(self).toks(),
            old(self).cur() <= final(self).cur(),
            parse_res_v(r) == spec_equality(old(self).toks(), old(self).cur()).res,
            final(self).cur() == spec_equality(old(self).toks(), old(self).cur()).next,
        decreases self.toks().len() - self.cur(), 9int,
    {
        let ghost ts = self.toks();
        let ghost i0 = self.cur();
        let mut res = self.comparision();
        proof {
            assert(spec_equality(ts, i0) == spec_equality_rest(
                ts,
                self.cur(),
                parse_res_v(res),
            ));
        }
        loop
            invariant
                ts == old(self).toks(),
                i0 == old(self).cur(),
                self.wf(),
                self.toks() == ts,
                i0 <= self.cur(),
                spec_equality(ts, i0) == spec_equality_rest(ts, self.cur(), parse_res_v(res)),
            ensures
                self.wf(),
                self.toks() == ts,
                i0 <= self.cur(),
                parse_res_v(res) == spec_equality(ts, i0).res,
                self.cur() == spec_equality(ts, i0).next,
            decreases ts.len() - self.cur(),
        {
            if !self.expect_two(TokenType::BangEqual, TokenType::EqualEqual) {
                break ;
            }
            let operator = self.previous();
            let right = match self.comparision() {
                Result::Ok(x) => x,
                Result::Err(e) => {
                    return Result::Err(e);
                },
            };
            let left = match res {
                Result::Ok(x) => x,
                Result::Err(e) => {
                    return Result::Err(e);
                },
            };
            res = Result::Ok(Expr::new_binary(Box::new(left), operator, Box::new(right)));
        }
        res
    }

    fn comparision(&mut self) -> (r: Result<Expr, StrixError>)
        requires
            old(self).wf(),
        ensures
            final(self).wf(),
            final(self).toks() == old(self).toks(),
            old(self).cur() <= final(self).cur(),
            parse_res_v(r) == spec_comparision(old(self).toks(), old(self).cur()).res,
            final(self).cur() == spec_comparision(old(self).toks(), old(self).cur()).next,
        decreases self.toks().len() - self.cur(), 7int,
    {
        let ghost ts = self.toks();
        let ghost i0 = self.cur();
        let mut res = self.term();
        proof {
            assert(spec_comparision(ts, i0) == spec_comparision_rest(
                ts,
                self.cur(),
                parse_res_v(res),
            ));
        }
        loop
            invariant
                ts == old(self).toks(),
                i0 == old(self).cur(),
                self.wf(),
                self.toks() == ts,
                i0 <= self.cur(),
                spec_comparision(ts, i0) == spec_comparision_rest(ts, self.cur(), parse_res_v(res)),
            ensures
                self.wf(),
                self.toks() == ts,
                i0 <= self.cur(),
                parse_res_v(res) == spec_comparision(ts, i0).res,
                self.cur() == spec_comparision(ts, i0).next,
            decreases ts.len() - self.cur(),
        {
            if !self.expect_four(
                TokenType::Greater,
                TokenType::GreaterEqual,
                TokenType::Less,
                TokenType::LessEqual,
            ) {
                break ;
            }
            let operator = self.previous();
            let right = match self.term() {
                Result::Ok(x) => x,
                Result::Err(e) => {
                    return Result::Err(e);
                },
            };
            let left = match res {
                Result::Ok(x) => x,
                Result::Err(e) => {
                    return Result::Err(e);
                },
            };
            res = Result::Ok(Expr::new_binary(Box::new(left), operator, Box::new(right)));
        }
        res
    }

    fn term(&mut self) -> (r: Result<Expr, StrixError>)
        requires
            old(self).wf(),
        ensures
            final(self).wf(),
            final(self).toks() == old(self).toks(),
            old(self).cur() <= final(self).cur(),
            parse_res_v(r) == spec_term(old(self).toks(), old(self).cur()).res,
            final(self).cur() == spec_term(old(self).toks(), old(self).cur()).next,
        decreases self.toks().len() - self.cur(), 5int,
    {
        let ghost ts = self.toks();
        let ghost i0 = self.cur();
        let mut res = self.factor();
        proof {
            assert(spec_term(ts, i0) == spec_term_rest(ts, self.cur(), parse_res_v(res)));
        }
        loop
            invariant
                ts == old(self).toks(),
                i0 == old(self).cur(),
                self.wf(),
                self.toks() == ts,
                i0 <= self.cur(),
                spec_term(ts, i0) == spec_term_rest(ts, self.cur(), parse_res_v(res)),
            ensures
                self.wf(),
                self.toks() == ts,
                i0 <= self.cur(),
                parse_res_v(res) == spec_term(ts, i0).res,
                self.cur() == spec_term(ts, i0).next,
            decreases ts.len() - self.cur(),
        {
            if !self.expect_two(TokenType::Minus, TokenType::Plus) {
                break ;
            }
            let operator = self.previous();
            let right = match self.factor() {
                Result::Ok(x) => x,
                Result::Err(e) => {
                    return Result::Err(e);
                },
            };
            let left = match res {
                Result::Ok(x) => x,
                Result::Err(e) => {
                    return Result::Err(e);
                },
            };
            res = Result::Ok(Expr::new_binary(Box::new(left), operator, Box::new(right)));
        }
        res
    }

    fn factor(&mut self) -> (r: Result<Expr, StrixError>)
        requires
            old(self).wf(),
        ensures
            final(self).wf(),
            final(self).toks() == old(self).toks(),
            old(self).cur() <= final(self).cur(),
            parse_res_v(r) == spec_factor(old(self).toks(), old(self).cur()).res,
            final(self).cur() == spec_factor(old(self).toks(), old(self).cur()).next,
        decreases self.toks().len() - self.cur(), 3int,
    {
        let ghost ts = self.toks();
        let ghost i0 = self.cur();
        let mut res = self.unary();
        proof {
            assert(spec_factor(ts, i0) == spec_factor_rest(ts, self.cur(), parse_res_v(res)));
        }
        loop
            invariant
                ts == old(self).toks(),
                i0 == old(self).cur(),
                self.wf(),
                self.toks() == ts,
                i0 <= self.cur(),
                spec_factor(ts, i0) == spec_factor_rest(ts, self.cur(), parse_res_v(res)),
            ensures
                self.wf(),
                self.toks() == ts,
                i0 <= self.cur(),
                parse_res_v(res) == spec_factor(ts, i0).res,
                self.cur() == spec_factor(ts, i0).next,
            decreases ts.len() - self.cur(),
        {
            if !self.expect_two(TokenType::Slash, TokenType::Star) {
                break ;
            }
            let operator = self.previous();
            let right = match self.unary() {
                Result::Ok(x) => x,
                Result::Err(e) => {
                    return Result::Err(e);
                },
            };
            let left = match res {
                Result::Ok(x) => x,
                Result::Err(e) => {
                    return Result::Err(e);
                },
            };
            res = Result::Ok(Expr::new_binary(Box::new(left), operator, Box::new(right)));
        }
        res
    }

    fn unary(&mut self) -> (r: Result<Expr, StrixError>)
        requires
            old(self).wf(),
        ensures
            final(self).wf(),
            final(self).toks() == old(self).toks(),
            old(self).cur() <= final(self).cur(),
            parse_res_v(r) == spec_unary(old(self).toks(), old(self).cur()).res,
            final(self).cur() == spec_unary(old(self).toks(), old(self).cur()).next,
        decreases self.toks().len() - self.cur(), 1int,
    {
        if self.expect_two(TokenType::Bang, TokenType::Minus) {
            let operator = self.previous();
            let right = match self.unary() {
                Result::Ok(x) => x,
                Result::Err(e) => {
                    return Result::Err(e);
                },
            };
            return Result::Ok(Expr::new_unary(operator, Box::new(right)));
        }
        self.primary()
    }

    fn primary(&mut self) -> (r: Result<Expr, StrixError>)
        requires
            old(self).wf(),
        ensures
            final(self).wf(),
            final(self).toks() == old(self).toks(),
            old(self).cur() <= final(self).cur(),
            parse_res_v(r) == spec_primary(old(self).toks(), old(self).cur()).res,
            final(self).cur() == spec_primary(old(self).toks(), old(self).cur()).next,
        decreases self.toks().len() - self.cur(), 0int,
    {
        if self.expect_one(TokenType::False) {
            return Result::Ok(Expr::new_literal(Literal::Bool(false)));
        }
        if self.expect_one(TokenType::True) {
            return Result::Ok(Expr::new_literal(Literal::Bool(true)));
        }
        if self.expect_one(TokenType::Nil) {
            return Result::Ok(Expr::new_literal(Literal::Nil));
        }
        if self.expect_two(TokenType::Number, TokenType::String) {
            let prev = self.previous();
            let lit = match prev.literal {
                Some(l) => l,
                None => Literal::Nil,
            };
            return Result::Ok(Expr::new_literal(lit));
        }
        if self.expect_one(TokenType::LeftParen) {
            let inner = match self.expression() {
                Result::Ok(x) => x,
                Result::Err(e) => {
                    return Result::Err(e);
                },
            };
            return match self.consume(
                TokenType::RightParen,
                String::from_str("Expect ')' after expression."),
            ) {
                Result::Ok(_) => Result::Ok(Expr::new_grouping(Box::new(inner))),
                Result::Err(e) => Result::Err(e),
            };
        }
        Result::Err(
            StrixError::ParserError(self.peek(), String::from_str("Expected expression.")),
        )
    }

    /// Consumes the next token when it has the wanted category, else reports
    /// a parser error carrying the token found.
    fn consume(&mut self, token_type: TokenType, message: String) -> (r: Result<Token, StrixError>)
        requires
            old(self).wf(),
        ensures
            final(self).wf(),
            final(self).toks() == old(self).toks(),
            if spec_check(old(self).toks(), old(self).cur(), token_type) {
                &&& final(self).cur() == old(self).cur() + 1
                &&& r is Ok
            } else {
                &&& final(self).cur() == old(self).cur()
                &&& parse_res_v(match r {
                    Result::Ok(_) => Result::Ok(Expr::Literal { value: Literal::Nil }),
                    Result::Err(e) => Result::Err(e),
                }) == Result::<ExprV, StrixErrorV>::Err(
                    StrixErrorV::ParserError(
                        peek_tok(old(self).toks(), old(self).cur()),
                        message@,
                    ),
                )
            },
    {
        if self.check(token_type) {
            Result::Ok(self.advance())
        } else {
            Result::Err(StrixError::ParserError(self.peek(), message))
        }
    }

    /// Whether the next token is a real token of category `t`.
    fn check(&self, t: TokenType) -> (r: bool)
        requires
            self.wf(),
        ensures
            r == spec_check(self.toks(), self.cur(), t),
    {
        if self.is_at_end() {
            return false;
        }
        self.peek().token_type == t
    }

    /// Consumes and returns the next token when its category is `a`.
    fn expect_one(&mut self, a: TokenType) -> (r: bool)
        requires
            old(self).wf(),
        ensures
            final(self).wf(),
            final(self).toks() == old(self).toks(),
            r == spec_check(old(self).toks(), old(self).cur(), a),
            r ==> final(self).cur() == old(self).cur() + 1,
            !r ==> *final(self) == *old(self),
    {
        if self.check(a) {
            let _ = self.advance();
            true
        } else {
            false
        }
    }

    /// Consumes the next token when its category is `a` or `b`.
    fn expect_two(&mut self, a: TokenType, b: TokenType) -> (r: bool)
        requires
            old(self).wf(),
        ensures
            final(self).wf(),
            final(self).toks() == old(self).toks(),
            r == (spec_check(old(self).toks(), old(self).cur(), a) || spec_check(
                old(self).toks(),
                old(self).cur(),
                b,
            )),
            r ==> final(self).cur() == old(self).cur() + 1,
            !r ==> *final(self) == *old(self),
    {
        if self.check(a) || self.check(b) {
            let _ = self.advance();
            true
        } else {
            false
        }
    }

    /// Consumes the next token when its category is one of the four given.
    fn expect_four(&mut self, a: TokenType, b: TokenType, c: TokenType, d: TokenType) -> (r: bool)
        requires
            old(self).wf(),
        ensures
            final(self).wf(),
            final(self).toks() == old(self).toks(),
            r == (spec_check(old(self).toks(), old(self).cur(), a) || spec_check(
                old(self).toks(),
                old(self).cur(),
                b,
            ) || spec_check(old(self).toks(), old(self).cur(), c) || spec_check(
                old(self).toks(),
                old(self).cur(),
                d,
            )),
            r ==> final(self).cur() == old(self).cur() + 1,
            !r ==> *final(self) == *old(self),
    {
        if self.check(a) || self.check(b) || self.check(c) || self.check(d) {
            let _ = self.advance();
            true
        } else {
            false
        }
    }

    /// Moves the cursor past the next token unless it is the end-of-input
    /// sentinel, and returns the token just consumed.
    fn advance(&mut self) -> (r: Token)
        requires
            old(self).wf(),
            old(self).cur() >= 1 || peek_kind(old(self).toks(), old(self).cur())
                != TokenType::Eof,
        ensures
            final(self).wf(),
            final(self).toks() == old(self).toks(),
            final(self).cur() == if peek_kind(old(self).toks(), old(self).cur())
                != TokenType::Eof {
                old(self).cur() + 1
            } else {
                old(self).cur()
            },
            r@ == final(self).toks()[final(self).cur() - 1],
    {
        if !self.is_at_end() {
            let n = self.tokens.len();
            proof {
                assert(self.toks()[self.toks().len() - 1].token_type == TokenType::Eof);
                assert(self.cur() < n - 1);
            }
            self.current = self.current + 1;
        }
        self.previous()
    }

    /// Skips to the next statement boundary: consumes at least one token,
    /// then advances until a semicolon was just consumed or a
    /// statement-starting keyword is next. Unused by the expression-only
    /// entry point; kept for statement-level error recovery.
    #[allow(dead_code)]
    fn synchronize(&mut self)
        requires
            old(self).wf(),
            old(self).cur() >= 1 || peek_kind(old(self).toks(), old(self).cur())
                != TokenType::Eof,
        ensures
            final(self).wf(),
            final(self).toks() == old(self).toks(),
            final(self).cur() == spec_sync(old(self).toks(), old(self).cur()),
    {
        let ghost ts = self.toks();
        let _ = self.advance();
        loop
            invariant
                ts == old(self).toks(),
                self.wf(),
                self.toks() == ts,
                1 <= self.cur(),
                spec_sync(ts, old(self).cur()) == spec_sync_loop(ts, self.cur()),
            ensures
                self.wf(),
                self.toks() == ts,
                self.cur() == spec_sync(ts, old(self).cur()),
            decreases ts.len() - self.cur(),
        {
            if self.is_at_end() {
                break ;
            }
            if self.previous().token_type == TokenType::Semicolon {
                break ;
            }
            let k = self.peek().token_type;
            if k == TokenType::Class || k == TokenType::Fun || k == TokenType::Var || k
                == TokenType::For || k == TokenType::If || k == TokenType::While || k
                == TokenType::Print || k == TokenType::Return {
                break ;
            }
            let _ = self.advance();
        }
    }

    fn is_at_end(&self) -> (r: bool)
        requires
            self.wf(),
        ensures
            r == (peek_kind(self.toks(), self.cur()) == TokenType::Eof),
    {
        self.peek().token_type == TokenType::Eof
    }

    fn peek(&self) -> (r: Token)
        requires
            self.wf(),
        ensures
            r@ == self.toks()[self.cur()],
    {
        self.tokens[self.current].clone()
    }

    fn previous(&self) -> (r: Token)
        requires
            self.wf(),
            self.cur() >= 1,
        ensures
            r@ == self.toks()[self.cur() - 1],
    {
        self.tokens[self.current - 1].clone()
    }
}

} // verus!
