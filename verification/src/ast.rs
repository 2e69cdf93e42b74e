//! Printing expression trees in prefix form, fully parenthesized.

use vstd::prelude::*;
use vstd::string::*;
use crate::expr::Expr;

verus! {

/// The expression in prefix form: an operator in front of its operands, all
/// within one pair of parentheses; a grouping under the word `group`; a
/// literal as its text.
pub open spec fn printed(e: Expr) -> Seq<char>
    decreases e,
{
    match e {
        Expr::Binary { left, operator, right } => "("@ + operator.lexeme@ + " "@ + printed(*left)
            + " "@ + printed(*right) + ")"@,
        Expr::Unary { operator, right } => "("@ + operator.lexeme@ + " "@ + printed(*right) + ")"@,
        Expr::Grouping { expr } => "(group "@ + printed(*expr) + ")"@,
        Expr::Literal { value } => value@.text(),
    }
}

pub struct AstPrinter {}

impl AstPrinter {
    pub fn print(e: Expr) -> (text: String)
        ensures
            text@ == printed(e),
        decreases e,
    {
        match e {
            Expr::Binary { left, operator, right } => {
                let formatted_left = AstPrinter::print(*left);
                let formatted_right = AstPrinter::print(*right);
                let mut text = "(".to_owned();
                text.append(operator.lexeme.as_str());
                text.append(" ");
                text.append(formatted_left.as_str());
                text.append(" ");
                text.append(formatted_right.as_str());
                text.append(")");
                text
            },
            Expr::Unary { operator, right } => {
                let formatted_expr = AstPrinter::print(*right);
                let mut text = "(".to_owned();
                text.append(operator.lexeme.as_str());
                text.append(" ");
                text.append(formatted_expr.as_str());
                text.append(")");
                text
            },
            Expr::Grouping { expr } => {
                let formatted_expr = AstPrinter::print(*expr);
                let mut text = "(group ".to_owned();
                text.append(formatted_expr.as_str());
                text.append(")");
                text
            },
            Expr::Literal { value } => value.to_str(),
        }
    }
}

} // verus!
