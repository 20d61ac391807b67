//! A small expression language: integer arithmetic, `let` bindings, blocks
//! with their own scope, and calls of functions held by the environment.
//!
//! Text is turned into a syntax tree by hand-written scanners and a
//! recursive-descent parser, and the tree is evaluated against a chain of
//! scopes. Every function states what it returns over a mathematical model:
//! the grammar and the meaning of a tree are specification functions, and the
//! executable code is proved to agree with them.

pub mod binding_def;
pub mod env;
pub mod expr;
pub mod grammar;
pub mod message;
pub mod semantics;
pub mod stmt;
pub mod syntax;
pub mod utils;
pub mod val;

use vstd::prelude::*;
use vstd::string::*;
use crate::env::Env;
use crate::semantics::{eval_stmt, evaluated, stored_by};
use crate::stmt::Stmt;
use crate::syntax::SpecStmt;
use crate::val::Val;

verus! {

/// A statement that was parsed from a whole input.
#[derive(Debug, PartialEq)]
pub struct Parse(Stmt);

impl View for Parse {
    type V = SpecStmt;

    closed spec fn view(&self) -> SpecStmt {
        self.0@
    }
}

impl Parse {
    /// Evaluates the statement in `env`. A binding definition stores its
    /// value in `env` itself, so that later statements evaluated in `env` see
    /// it; nothing else in `env` changes.
    pub fn eval(&self, env: &mut Env) -> (r: Result<Val, String>)
        ensures
            evaluated(r, eval_stmt(self@, old(env)@)),
            final(env).follows(old(env), stored_by(self@, old(env)@)),
    {
        self.0.eval(env)
    }
}

/// Parses `s` as one statement. Fails where no statement stands at the start
/// of `s`, and where anything but whitespace follows it.
pub fn parse(s: &str) -> (r: Result<Parse, String>)
    ensures
        match r {
            Ok(parse) => grammar::program(s@) == Ok::<SpecStmt, Seq<char>>(parse@),
            Err(msg) => grammar::program(s@) == Err::<SpecStmt, Seq<char>>(msg@),
        },
{
    let (s, stmt) = Stmt::new(s)?;
    let (s, _) = utils::extract_whitespace(s);
    if s.is_empty() {
        Ok(Parse(stmt))
    } else {
        Err(String::from_str("input was not consumed fully"))
    }
}

} // verus!
