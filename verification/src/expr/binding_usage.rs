//! A reference to a binding.

use vstd::prelude::*;
use vstd::string::*;
use crate::env::Env;
use crate::grammar;
use crate::semantics::{eval_expr, evaluated};
use crate::syntax::SpecExpr;
use crate::utils;
use crate::utils::parsed;
use crate::val::Val;

verus! {

/// The use of a binding's name as an expression.
#[derive(Debug, PartialEq)]
pub struct BindingUsage {
    pub name: String,
}

impl View for BindingUsage {
    type V = Seq<char>;

    open spec fn view(&self) -> Seq<char> {
        self.name@
    }
}

impl BindingUsage {
    /// Parses a reference to a binding: an identifier.
    pub fn new(s: &str) -> (r: Result<(&str, Self), String>)
        ensures
            parsed(r, grammar::binding_usage(s@)),
            r matches Ok((rest, _)) ==> rest@.len() < s@.len(),
    {
        let (s, ident) = utils::extract_identifier(s)?;
        Ok((s, BindingUsage { name: String::from_str(ident) }))
    }

    /// The value that the nearest scope of `env`'s chain binds the name to.
    pub fn eval(&self, env: &Env) -> (r: Result<Val, String>)
        ensures
            evaluated(r, eval_expr(SpecExpr::BindingUsage(self@), env@)),
    {
        env.get_binding(self.name.as_str())
    }
}

} // verus!
