//! Expression trees.

use vstd::prelude::*;
use crate::tokens::{Literal, Token};

verus! {

/// An expression; every node owns its operands.
#[derive(Debug, PartialEq)]
pub enum Expr {
    Binary { left: Box<Expr>, operator: Token, right: Box<Expr> },
    Unary { operator: Token, right: Box<Expr> },
    Grouping { expr: Box<Expr> },
    Literal { value: Literal },
}

} // verus!
