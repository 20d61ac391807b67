//! Binding definitions: `let name = expression`.

use vstd::prelude::*;
use vstd::string::*;
use crate::env::Env;
use crate::expr::Expr;
use crate::grammar;
use crate::semantics::{eval_expr, stored_by};
use crate::syntax::{SpecExpr, SpecStmt};
use crate::utils;
use crate::utils::parsed;

verus! {

/// The definition of a binding.
#[derive(Debug, PartialEq)]
pub struct BindingDef {
    pub name: String,
    pub val: Expr,
}

impl View for BindingDef {
    type V = (Seq<char>, SpecExpr);

    open spec fn view(&self) -> (Seq<char>, SpecExpr) {
        (self.name@, self.val@)
    }
}

impl BindingDef {
    /// Parses a binding definition: `let`, whitespace, an identifier, `=`
    /// with optional whitespace around it, and an expression.
    pub fn new(s: &str) -> (r: Result<(&str, Self), String>)
        ensures
            parsed(r, grammar::binding_def(s@)),
            r matches Ok((rest, _)) ==> rest@.len() < s@.len(),
        decreases s@.len(), 1nat,
    {
        let after_let = utils::tag("let", s)?;
        let (before_name, _) = utils::extract_whitespace_error(after_let)?;
        let (after_name, name) = utils::extract_identifier(before_name)?;
        let (before_equals, _) = utils::extract_whitespace(after_name);
        let after_equals = utils::tag("=", before_equals)?;
        let (before_val, _) = utils::extract_whitespace(after_equals);
        proof {
            let space = |c: char| grammar::is_whitespace(c);
            grammar::lemmas::lemma_literal_consumes("let", s@);
            grammar::lemmas::lemma_run_not_longer(space, after_let@);
            grammar::lemmas::lemma_identifier_consumes(before_name@);
            grammar::lemmas::lemma_run_not_longer(space, after_name@);
            grammar::lemmas::lemma_literal_consumes("=", before_equals@);
            grammar::lemmas::lemma_run_not_longer(space, after_equals@);
        }
        let (rest, val) = Expr::new(before_val)?;
        Ok((rest, BindingDef { name: String::from_str(name), val }))
    }

    /// The definition as a statement.
    pub open spec fn as_stmt(&self) -> SpecStmt {
        SpecStmt::BindingDef { name: self.name@, val: self.val@ }
    }

    /// Evaluates the expression in `env` and binds the name to its value in
    /// `env` itself. Where the expression fails, `env` stays as it is.
    pub fn eval(&self, env: &mut Env) -> (r: Result<(), String>)
        ensures
            match eval_expr(self.val@, old(env)@) {
                Ok(_) => r is Ok,
                Err(msg) => r matches Err(e) && e@ == msg,
            },
            final(env).follows(old(env), stored_by(self.as_stmt(), old(env)@)),
        decreases old(env)@.calls_left(), self, 0nat,
    {
        let val = self.val.eval(env)?;
        env.store_binding(self.name.clone(), val);
        Ok(())
    }
}

} // verus!
