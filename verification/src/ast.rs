//! The printer: renders an expression tree as a fully parenthesized prefix
//! string, for diagnostics. Total and pure; specified by `spec_print`.

use vstd::prelude::*;

use crate::expr::Expr;
use crate::expr::ExprV;
use crate::tokenizer::LitV;
use crate::tokenizer::Literal;

verus! {

/// The display text of a runtime value: `nil`, the number's text, the string's
/// own text, or `true` / `false`.
pub open spec fn lit_text(v: LitV) -> Seq<char> {
    match v {
        LitV::Nil => "nil"@,
        LitV::Num(n) => n.spec_text(),
        LitV::Str(s) => s,
        LitV::Bool(b) => if b {
            "true"@
        } else {
            "false"@
        },
    }
}

/// The parenthesized prefix text of a tree: `(<lexeme> <left> <right>)` for a
/// binary node, `(<lexeme> <right>)` for a unary node, `(group <inner>)` for
/// a grouping, and the display text of a literal.
pub open spec fn spec_print(e: ExprV) -> Seq<char>
    decreases e,
{
    match e {
        ExprV::Literal { value } => lit_text(value),
        ExprV::Binary { left, operator, right } => "("@ + operator.lexeme + " "@ + spec_print(
            *left,
        ) + " "@ + spec_print(*right) + ")"@,
        ExprV::Grouping { expression } => "("@ + "group"@ + " "@ + spec_print(*expression) + ")"@,
        ExprV::Unary { operator, right } => "("@ + operator.lexeme + " "@ + spec_print(*right)
            + ")"@,
    }
}

/// Renders the display text of one runtime value.
pub fn literal_text(value: &Literal) -> (s: String)
    ensures
        s@ == lit_text(value@),
{
    match value {
        Literal::Nil => String::from_str("nil"),
        Literal::Num(n) => n.to_text(),
        Literal::Str(s) => s.clone(),
        Literal::Bool(b) => if *b {
            String::from_str("true")
        } else {
            String::from_str("false")
        },
    }
}

/// The printer; it holds no state.
pub struct AstPrinter;

impl AstPrinter {
    pub fn new() -> (r: Self) {
        AstPrinter
    }

    /// Renders the tree; the result is exactly `spec_print` of its model.
    pub fn print(&mut self, expr: Expr) -> (s: String)
        ensures
            s@ == spec_print(expr@),
    {
        self.print_expr(&expr)
    }

    fn print_expr(&mut self, e: &Expr) -> (s: String)
        ensures
            s@ == spec_print(e@),
        decreases *e,
    {
        match e {
            Expr::Literal { value } => literal_text(value),
            Expr::Binary { left, operator, right } => {
                let mut s = String::from_str("(");
                s.append(operator.lexeme.as_str());
                s.append(" ");
                let ls = self.print_expr(left);
                s.append(ls.as_str());
                s.append(" ");
                let rs = self.print_expr(right);
                s.append(rs.as_str());
                s.append(")");
                s
            },
            Expr::Grouping { expression } => {
                let mut s = String::from_str("(");
                s.append("group");
                s.append(" ");
                let is = self.print_expr(expression);
                s.append(is.as_str());
                s.append(")");
                s
            },
            Expr::Unary { operator, right } => {
                let mut s = String::from_str("(");
                s.append(operator.lexeme.as_str());
                s.append(" ");
                let rs = self.print_expr(right);
                s.append(rs.as_str());
                s.append(")");
                s
            },
        }
    }
}

} // verus!
