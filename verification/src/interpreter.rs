//! The evaluator: a tree walk over the expression, producing one runtime
//! value or a typed failure. The whole walk is specified by `spec_eval`.

use vstd::prelude::*;

use crate::err::StrixError;
use crate::err::StrixErrorV;
use crate::expr::Expr;
use crate::expr::ExprV;
use crate::tokenizer::LitV;
use crate::tokenizer::Literal;
use crate::tokenizer::TokenType;
use crate::tokenizer::TokenV;

verus! {

/// Truthiness: nil and false are falsy; every other value, including zero
/// and the empty string, is truthy.
pub open spec fn is_truthy_v(v: LitV) -> bool {
    match v {
        LitV::Nil => false,
        LitV::Bool(b) => b,
        _ => true,
    }
}

/// Structural equality of runtime values: nil equals only nil, text and
/// booleans compare by value, numbers by numeric equality (so NaN equals
/// nothing), and values of different shapes are never equal.
pub open spec fn lit_eq_v(a: LitV, b: LitV) -> bool {
    match (a, b) {
        (LitV::Nil, LitV::Nil) => true,
        (LitV::Str(x), LitV::Str(y)) => x == y,
        (LitV::Num(x), LitV::Num(y)) => x.spec_eq_num(y),
        (LitV::Bool(x), LitV::Bool(y)) => x == y,
        _ => false,
    }
}

/// Every operator token in the tree is valid for its position: a binary node
/// carries an arithmetic, comparison or equality operator, a unary node a
/// bang or minus.
pub open spec fn wf_ops(e: ExprV) -> bool
    decreases e,
{
    match e {
        ExprV::Binary { left, operator, right } => {
            &&& (operator.token_type == TokenType::Minus || operator.token_type == TokenType::Slash
                || operator.token_type == TokenType::Star || operator.token_type == TokenType::Plus
                || operator.token_type == TokenType::Greater || operator.token_type
                == TokenType::GreaterEqual || operator.token_type == TokenType::Less
                || operator.token_type == TokenType::LessEqual || operator.token_type
                == TokenType::BangEqual || operator.token_type == TokenType::EqualEqual)
            &&& wf_ops(*left)
            &&& wf_ops(*right)
        },
        ExprV::Grouping { expression } => wf_ops(*expression),
        ExprV::Literal { .. } => true,
        ExprV::Unary { operator, right } => {
            &&& (operator.token_type == TokenType::Bang || operator.token_type == TokenType::Minus)
            &&& wf_ops(*right)
        },
    }
}

/// What one binary operator yields on two already-evaluated operands.
pub open spec fn spec_binary_op(op: TokenV, l: LitV, r: LitV) -> Result<LitV, StrixErrorV> {
    if op.token_type == TokenType::Minus {
        match (l, r) {
            (LitV::Num(x), LitV::Num(y)) => Result::Ok(LitV::Num(x.spec_sub(y))),
            _ => Result::Err(StrixErrorV::InterpreterError(op, "Operands must be numbers."@)),
        }
    } else if op.token_type == TokenType::Slash {
        match (l, r) {
            (LitV::Num(x), LitV::Num(y)) => Result::Ok(LitV::Num(x.spec_div(y))),
            _ => Result::Err(StrixErrorV::InterpreterError(op, "Operands must be numbers."@)),
        }
    } else if op.token_type == TokenType::Star {
        match (l, r) {
            (LitV::Num(x), LitV::Num(y)) => Result::Ok(LitV::Num(x.spec_mul(y))),
            _ => Result::Err(StrixErrorV::InterpreterError(op, "Operands must be numbers."@)),
        }
    } else if op.token_type == TokenType::Plus {
        match (l, r) {
            (LitV::Num(x), LitV::Num(y)) => Result::Ok(LitV::Num(x.spec_add(y))),
            (LitV::Str(x), LitV::Str(y)) => Result::Ok(LitV::Str(x + y)),
            _ => Result::Err(
                StrixErrorV::InterpreterError(
                    op,
                    "The operands must be two numbers or two strings."@,
                ),
            ),
        }
    } else if op.token_type == TokenType::Greater {
        match (l, r) {
            (LitV::Num(x), LitV::Num(y)) => Result::Ok(LitV::Bool(y.spec_lt(x))),
            _ => Result::Err(StrixErrorV::InterpreterError(op, "Operands must be numbers."@)),
        }
    } else if op.token_type == TokenType::GreaterEqual {
        match (l, r) {
            (LitV::Num(x), LitV::Num(y)) => Result::Ok(LitV::Bool(y.spec_le(x))),
            _ => Result::Err(StrixErrorV::InterpreterError(op, "Operands must be numbers."@)),
        }
    } else if op.token_type == TokenType::Less {
        match (l, r) {
            (LitV::Num(x), LitV::Num(y)) => Result::Ok(LitV::Bool(x.spec_lt(y))),
            _ => Result::Err(StrixErrorV::InterpreterError(op, "Operands must be numbers."@)),
        }
    } else if op.token_type == TokenType::LessEqual {
        match (l, r) {
            (LitV::Num(x), LitV::Num(y)) => Result::Ok(LitV::Bool(x.spec_le(y))),
            _ => Result::Err(StrixErrorV::InterpreterError(op, "Operands must be numbers."@)),
        }
    } else if op.token_type == TokenType::BangEqual {
        Result::Ok(LitV::Bool(!lit_eq_v(l, r)))
    } else if op.token_type == TokenType::EqualEqual {
        Result::Ok(LitV::Bool(lit_eq_v(l, r)))
    } else {
        Result::Err(StrixErrorV::InterpreterError(op, Seq::empty()))
    }
}

/// The value of a tree: a literal is itself, a grouping is its inner value,
/// a unary bang negates truthiness and a unary minus negates a number, and a
/// binary node evaluates left before right and then applies its operator.
/// Failures propagate leftmost-innermost first.
pub open spec fn spec_eval(e: ExprV) -> Result<LitV, StrixErrorV>
    decreases e,
{
    match e {
        ExprV::Literal { value } => Result::Ok(value),
        ExprV::Grouping { expression } => spec_eval(*expression),
        ExprV::Unary { operator, right } => match spec_eval(*right) {
            Result::Err(er) => Result::Err(er),
            Result::Ok(v) => {
                if operator.token_type == TokenType::Bang {
                    Result::Ok(LitV::Bool(!is_truthy_v(v)))
                } else if operator.token_type == TokenType::Minus {
                    match v {
                        LitV::Num(n) => Result::Ok(LitV::Num(n.spec_neg())),
                        _ => Result::Err(
                            StrixErrorV::InterpreterError(
                                operator,
                                "The operator must be a number"@,
                            ),
                        ),
                    }
                } else {
                    Result::Err(StrixErrorV::InterpreterError(operator, Seq::empty()))
                }
            },
        },
        ExprV::Binary { left, operator, right } => match spec_eval(*left) {
            Result::Err(er) => Result::Err(er),
            Result::Ok(lv) => match spec_eval(*right) {
                Result::Err(er) => Result::Err(er),
                Result::Ok(rv) => spec_binary_op(operator, lv, rv),
            },
        },
    }
}

/// The model of an evaluation result.
pub open spec fn lit_res_v(r: Result<Literal, StrixError>) -> Result<LitV, StrixErrorV> {
    match r {
        Result::Ok(l) => Result::Ok(l@),
        Result::Err(e) => Result::Err(e@),
    }
}

/// Evaluation is deterministic: the outcome of `interpret` is a function of
/// the tree's model alone, so two evaluations of the same tree agree.
pub proof fn lemma_evaluate_deterministic(
    e: ExprV,
    r1: Result<LitV, StrixErrorV>,
    r2: Result<LitV, StrixErrorV>,
)
    requires
        r1 == spec_eval(e),
        r2 == spec_eval(e),
    ensures
        r1 == r2,
{
}

/// Every tree the parser yields carries valid operator tokens: binary nodes
/// only arithmetic, comparison or equality operators, unary nodes only bang
/// or minus. So `interpret`'s precondition holds of every parsed tree.
pub proof fn lemma_parse_wf(ts: Seq<crate::tokenizer::TokenV>, i: int)
    ensures
        crate::parser::spec_expression(ts, i).res matches Result::Ok(e) ==> wf_ops(e),
    decreases ts.len() - i, 10int,
{
    lemma_equality_wf(ts, i);
}

proof fn lemma_equality_wf(ts: Seq<crate::tokenizer::TokenV>, i: int)
    ensures
        crate::parser::spec_equality(ts, i).res matches Result::Ok(e) ==> wf_ops(e),
    decreases ts.len() - i, 9int,
{
    if !(i < 0 || i > ts.len()) {
        lemma_comparision_wf(ts, i);
        let first = crate::parser::spec_comparision(ts, i);
        lemma_equality_rest_wf(
            ts,
            crate::parser::clampi(first.next, i, ts.len() as int),
            first.res,
        );
    }
}

proof fn lemma_equality_rest_wf(
    ts: Seq<crate::tokenizer::TokenV>,
    i: int,
    acc: Result<ExprV, StrixErrorV>,
)
    requires
        acc matches Result::Ok(a) ==> wf_ops(a),
    ensures
        crate::parser::spec_equality_rest(ts, i, acc).res matches Result::Ok(e) ==> wf_ops(e),
    decreases ts.len() - i, 8int,
{
    if crate::parser::peek_kind(ts, i) == TokenType::BangEqual || crate::parser::peek_kind(ts, i)
        == TokenType::EqualEqual {
        let op = crate::parser::peek_tok(ts, i);
        lemma_comparision_wf(ts, i + 1);
        let r = crate::parser::spec_comparision(ts, i + 1);
        match r.res {
            Result::Err(_) => {},
            Result::Ok(right) => match acc {
                Result::Err(_) => {},
                Result::Ok(left) => {
                    lemma_equality_rest_wf(
                        ts,
                        crate::parser::clampi(r.next, i + 1, ts.len() as int),
                        Result::Ok(
                            ExprV::Binary {
                                left: Box::new(left),
                                operator: op,
                                right: Box::new(right),
                            },
                        ),
                    );
                },
            },
        }
    }
}

proof fn lemma_comparision_wf(ts: Seq<crate::tokenizer::TokenV>, i: int)
    ensures
        crate::parser::spec_comparision(ts, i).res matches Result::Ok(e) ==> wf_ops(e),
    decreases ts.len() - i, 7int,
{
    if !(i < 0 || i > ts.len()) {
        lemma_term_wf(ts, i);
        let first = crate::parser::spec_term(ts, i);
        lemma_comparision_rest_wf(
            ts,
            crate::parser::clampi(first.next, i, ts.len() as int),
            first.res,
        );
    }
}

proof fn lemma_comparision_rest_wf(
    ts: Seq<crate::tokenizer::TokenV>,
    i: int,
    acc: Result<ExprV, StrixErrorV>,
)
    requires
        acc matches Result::Ok(a) ==> wf_ops(a),
    ensures
        crate::parser::spec_comparision_rest(ts, i, acc).res matches Result::Ok(e) ==> wf_ops(e),
    decreases ts.len() - i, 6int,
{
    if crate::parser::peek_kind(ts, i) == TokenType::Greater || crate::parser::peek_kind(ts, i)
        == TokenType::GreaterEqual || crate::parser::peek_kind(ts, i) == TokenType::Less
        || crate::parser::peek_kind(ts, i) == TokenType::LessEqual {
        let op = crate::parser::peek_tok(ts, i);
        lemma_term_wf(ts, i + 1);
        let r = crate::parser::spec_term(ts, i + 1);
        match r.res {
            Result::Err(_) => {},
            Result::Ok(right) => match acc {
                Result::Err(_) => {},
                Result::Ok(left) => {
                    lemma_comparision_rest_wf(
                        ts,
                        crate::parser::clampi(r.next, i + 1, ts.len() as int),
                        Result::Ok(
                            ExprV::Binary {
                                left: Box::new(left),
                                operator: op,
                                right: Box::new(right),
                            },
                        ),
                    );
                },
            },
        }
    }
}

proof fn lemma_term_wf(ts: Seq<crate::tokenizer::TokenV>, i: int)
    ensures
        crate::parser::spec_term(ts, i).res matches Result::Ok(e) ==> wf_ops(e),
    decreases ts.len() - i, 5int,
{
    if !(i < 0 || i > ts.len()) {
        lemma_factor_wf(ts, i);
        let first = crate::parser::spec_factor(ts, i);
        lemma_term_rest_wf(ts, crate::parser::clampi(first.next, i, ts.len() as int), first.res);
    }
}

proof fn lemma_term_rest_wf(
    ts: Seq<crate::tokenizer::TokenV>,
    i: int,
    acc: Result<ExprV, StrixErrorV>,
)
    requires
        acc matches Result::Ok(a) ==> wf_ops(a),
    ensures
        crate::parser::spec_term_rest(ts, i, acc).res matches Result::Ok(e) ==> wf_ops(e),
    decreases ts.len() - i, 4int,
{
    if crate::parser::peek_kind(ts, i) == TokenType::Minus || crate::parser::peek_kind(ts, i)
        == TokenType::Plus {
        let op = crate::parser::peek_tok(ts, i);
        lemma_factor_wf(ts, i + 1);
        let r = crate::parser::spec_factor(ts, i + 1);
        match r.res {
            Result::Err(_) => {},
            Result::Ok(right) => match acc {
                Result::Err(_) => {},
                Result::Ok(left) => {
                    lemma_term_rest_wf(
                        ts,
                        crate::parser::clampi(r.next, i + 1, ts.len() as int),
                        Result::Ok(
                            ExprV::Binary {
                                left: Box::new(left),
                                operator: op,
                                right: Box::new(right),
                            },
                        ),
                    );
                },
            },
        }
    }
}

proof fn lemma_factor_wf(ts: Seq<crate::tokenizer::TokenV>, i: int)
    ensures
        crate::parser::spec_factor(ts, i).res matches Result::Ok(e) ==> wf_ops(e),
    decreases ts.len() - i, 3int,
{
    if !(i < 0 || i > ts.len()) {
        lemma_unary_wf(ts, i);
        let first = crate::parser::spec_unary(ts, i);
        lemma_factor_rest_wf(ts, crate::parser::clampi(first.next, i, ts.len() as int), first.res);
    }
}

proof fn lemma_factor_rest_wf(
    ts: Seq<crate::tokenizer::TokenV>,
    i: int,
    acc: Result<ExprV, StrixErrorV>,
)
    requires
        acc matches Result::Ok(a) ==> wf_ops(a),
    ensures
        crate::parser::spec_factor_rest(ts, i, acc).res matches Result::Ok(e) ==> wf_ops(e),
    decreases ts.len() - i, 2int,
{
    if crate::parser::peek_kind(ts, i) == TokenType::Slash || crate::parser::peek_kind(ts, i)
        == TokenType::Star {
        let op = crate::parser::peek_tok(ts, i);
        lemma_unary_wf(ts, i + 1);
        let r = crate::parser::spec_unary(ts, i + 1);
        match r.res {
            Result::Err(_) => {},
            Result::Ok(right) => match acc {
                Result::Err(_) => {},
                Result::Ok(left) => {
                    lemma_factor_rest_wf(
                        ts,
                        crate::parser::clampi(r.next, i + 1, ts.len() as int),
                        Result::Ok(
                            ExprV::Binary {
                                left: Box::new(left),
                                operator: op,
                                right: Box::new(right),
                            },
                        ),
                    );
                },
            },
        }
    }
}

proof fn lemma_unary_wf(ts: Seq<crate::tokenizer::TokenV>, i: int)
    ensures
        crate::parser::spec_unary(ts, i).res matches Result::Ok(e) ==> wf_ops(e),
    decreases ts.len() - i, 1int,
{
    if crate::parser::peek_kind(ts, i) == TokenType::Bang || crate::parser::peek_kind(ts, i)
        == TokenType::Minus {
        lemma_unary_wf(ts, i + 1);
    } else {
        lemma_primary_wf(ts, i);
    }
}

proof fn lemma_primary_wf(ts: Seq<crate::tokenizer::TokenV>, i: int)
    ensures
        crate::parser::spec_primary(ts, i).res matches Result::Ok(e) ==> wf_ops(e),
    decreases ts.len() - i, 0int,
{
    if crate::parser::peek_kind(ts, i) == TokenType::LeftParen {
        lemma_parse_wf(ts, i + 1);
    }
}

/// The interpreter. It holds no state: evaluation is a pure function of the
/// tree, which is what makes it deterministic.
pub struct Interpreter;

impl Interpreter {
    pub fn new() -> (r: Self) {
        Interpreter
    }

    /// Evaluates the expression; the result is exactly `spec_eval` of the
    /// tree's model.
    pub fn interpret(&mut self, expression: &Expr) -> (r: Result<Literal, StrixError>)
        requires
            wf_ops(expression@),
        ensures
            lit_res_v(r) == spec_eval(expression@),
    {
        self.evaluate(expression)
    }

    fn evaluate(&mut self, expr: &Expr) -> (r: Result<Literal, StrixError>)
        requires
            wf_ops(expr@),
        ensures
            lit_res_v(r) == spec_eval(expr@),
        decreases *expr,
    {
        match expr {
            Expr::Literal { value } => Result::Ok(value.clone()),
            Expr::Grouping { expression } => self.evaluate(expression),
            Expr::Unary { operator, right } => {
                let right_val = match self.evaluate(right) {
                    Result::Ok(v) => v,
                    Result::Err(e) => {
                        return Result::Err(e);
                    },
                };
                if operator.token_type == TokenType::Bang {
                    Result::Ok(Literal::Bool(!self.is_truthy(&right_val)))
                } else {
                    match right_val {
                        Literal::Num(n) => Result::Ok(Literal::Num(n.neg())),
                        _ => Result::Err(
                            StrixError::InterpreterError(
                                operator.clone(),
                                String::from_str("The operator must be a number"),
                            ),
                        ),
                    }
                }
            },
            Expr::Binary { left, operator, right } => {
                let left_val = match self.evaluate(left) {
                    Result::Ok(v) => v,
                    Result::Err(e) => {
                        return Result::Err(e);
                    },
                };
                let right_val = match self.evaluate(right) {
                    Result::Ok(v) => v,
                    Result::Err(e) => {
                        return Result::Err(e);
                    },
                };
                binary_op(operator, left_val, right_val)
            },
        }
    }

    /// Whether a value counts as true.
    fn is_truthy(&self, value: &Literal) -> (r: bool)
        ensures
            r == is_truthy_v(value@),
    {
        match value {
            Literal::Nil => false,
            Literal::Bool(b) => *b,
            _ => true,
        }
    }
}

/// Applies one binary operator to two evaluated operands.
fn binary_op(operator: &crate::tokenizer::Token, l: Literal, r: Literal) -> (res: Result<
    Literal,
    StrixError,
>)
    requires
        operator@.token_type == TokenType::Minus || operator@.token_type == TokenType::Slash
            || operator@.token_type == TokenType::Star || operator@.token_type == TokenType::Plus
            || operator@.token_type == TokenType::Greater || operator@.token_type
            == TokenType::GreaterEqual || operator@.token_type == TokenType::Less
            || operator@.token_type == TokenType::LessEqual || operator@.token_type
            == TokenType::BangEqual || operator@.token_type == TokenType::EqualEqual,
    ensures
        lit_res_v(res) == spec_binary_op(operator@, l@, r@),
{
    match operator.token_type {
        TokenType::Minus => match (l, r) {
            (Literal::Num(x), Literal::Num(y)) => Result::Ok(Literal::Num(x.sub(y))),
            _ => Result::Err(
                StrixError::InterpreterError(
                    operator.clone(),
                    String::from_str("Operands must be numbers."),
                ),
            ),
        },
        TokenType::Slash => match (l, r) {
            (Literal::Num(x), Literal::Num(y)) => Result::Ok(Literal::Num(x.div(y))),
            _ => Result::Err(
                StrixError::InterpreterError(
                    operator.clone(),
                    String::from_str("Operands must be numbers."),
                ),
            ),
        },
        TokenType::Star => match (l, r) {
            (Literal::Num(x), Literal::Num(y)) => Result::Ok(Literal::Num(x.mul(y))),
            _ => Result::Err(
                StrixError::InterpreterError(
                    operator.clone(),
                    String::from_str("Operands must be numbers."),
                ),
            ),
        },
        TokenType::Plus => match (l, r) {
            (Literal::Num(x), Literal::Num(y)) => Result::Ok(Literal::Num(x.add(y))),
            (Literal::Str(x), Literal::Str(y)) => Result::Ok(Literal::Str(x.concat(y.as_str()))),
            _ => Result::Err(
                StrixError::InterpreterError(
                    operator.clone(),
                    String::from_str("The operands must be two numbers or two strings."),
                ),
            ),
        },
        TokenType::Greater => match (l, r) {
            (Literal::Num(x), Literal::Num(y)) => Result::Ok(Literal::Bool(x.gt(y))),
            _ => Result::Err(
                StrixError::InterpreterError(
                    operator.clone(),
                    String::from_str("Operands must be numbers."),
                ),
            ),
        },
        TokenType::GreaterEqual => match (l, r) {
            (Literal::Num(x), Literal::Num(y)) => Result::Ok(Literal::Bool(x.ge(y))),
            _ => Result::Err(
                StrixError::InterpreterError(
                    operator.clone(),
                    String::from_str("Operands must be numbers."),
                ),
            ),
        },
        TokenType::Less => match (l, r) {
            (Literal::Num(x), Literal::Num(y)) => Result::Ok(Literal::Bool(x.lt(y))),
            _ => Result::Err(
                StrixError::InterpreterError(
                    operator.clone(),
                    String::from_str("Operands must be numbers."),
                ),
            ),
        },
        TokenType::LessEqual => match (l, r) {
            (Literal::Num(x), Literal::Num(y)) => Result::Ok(Literal::Bool(x.le(y))),
            _ => Result::Err(
                StrixError::InterpreterError(
                    operator.clone(),
                    String::from_str("Operands must be numbers."),
                ),
            ),
        },
        TokenType::BangEqual => Result::Ok(Literal::Bool(!is_equal(l, r))),
        TokenType::EqualEqual => Result::Ok(Literal::Bool(is_equal(l, r))),
        _ => {
            proof {
                assert(false);
            }
            Result::Ok(Literal::Nil)
        },
    }
}

/// Structural equality of two runtime values.
fn is_equal(a: Literal, b: Literal) -> (r: bool)
    ensures
        r == lit_eq_v(a@, b@),
{
    match (a, b) {
        (Literal::Nil, Literal::Nil) => true,
        (Literal::Str(x), Literal::Str(y)) => crate::tokenizer::str_eq(x.as_str(), y.as_str()),
        (Literal::Num(x), Literal::Num(y)) => x.eq_num(y),
        (Literal::Bool(x), Literal::Bool(y)) => x == y,
        _ => false,
    }
}

} // verus!
