//! Statements: a binding definition or a bare expression.

use vstd::prelude::*;
use crate::binding_def::BindingDef;
use crate::env::Env;
use crate::expr::Expr;
use crate::grammar;
use crate::semantics::{eval_stmt, evaluated, stored_by};
use crate::syntax::SpecStmt;
use crate::utils::parsed;
use crate::val::Val;

verus! {

/// A statement.
#[derive(Debug, PartialEq)]
pub enum Stmt {
    BindingDef(BindingDef),
    Expr(Expr),
}

impl View for Stmt {
    type V = SpecStmt;

    open spec fn view(&self) -> SpecStmt
        decreases self,
    {
        match self {
            Stmt::BindingDef(def) => SpecStmt::BindingDef { name: def.name@, val: def.val.view() },
            Stmt::Expr(expr) => SpecStmt::Expr(expr.view()),
        }
    }
}

impl Stmt {
    /// Parses a statement: a binding definition, or else an expression.
    pub fn new(s: &str) -> (r: Result<(&str, Self), String>)
        ensures
            parsed(r, grammar::stmt(s@)),
            r matches Ok((rest, _)) ==> rest@.len() < s@.len(),
        decreases s@.len(), 3nat,
    {
        if let Ok((rest, def)) = BindingDef::new(s) {
            return Ok((rest, Stmt::BindingDef(def)));
        }
        match Expr::new(s) {
            Ok((rest, expr)) => Ok((rest, Stmt::Expr(expr))),
            Err(msg) => Err(msg),
        }
    }

    /// Evaluates the statement in `env`. A binding definition stores its
    /// value in `env` itself and yields `Unit`; an expression yields its
    /// value and stores nothing.
    pub fn eval(&self, env: &mut Env) -> (r: Result<Val, String>)
        ensures
            evaluated(r, eval_stmt(self@, old(env)@)),
            final(env).follows(old(env), stored_by(self@, old(env)@)),
        decreases old(env)@.calls_left(), self, 0nat,
    {
        match self {
            Stmt::BindingDef(def) => {
                def.eval(env)?;
                Ok(Val::Unit)
            },
            Stmt::Expr(expr) => expr.eval(env),
        }
    }
}

} // verus!
