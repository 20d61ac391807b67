//! The syntax tree as a mathematical value.
//!
//! The executable tree holds `String`s and `Vec`s; its view, defined here,
//! holds sequences of characters and sequences of nodes. The grammar and the
//! meaning of a program are stated over these types.

use vstd::prelude::*;
use crate::expr::Op;

verus! {

/// The view of an [`Expr`](crate::expr::Expr).
pub enum SpecExpr {
    /// A number literal.
    Number(i32),
    /// One operator between two number literals.
    Operation { lhs: i32, rhs: i32, op: Op },
    /// A reference to a binding, by name.
    BindingUsage(Seq<char>),
    /// A call of the function `callee` with the given argument expressions.
    FuncCall { callee: Seq<char>, params: Seq<SpecExpr> },
    /// A block of statements.
    Block(Seq<SpecStmt>),
}

/// The view of a [`Stmt`](crate::stmt::Stmt).
pub enum SpecStmt {
    /// `let name = val`.
    BindingDef { name: Seq<char>, val: SpecExpr },
    /// A bare expression.
    Expr(SpecExpr),
}

} // verus!
