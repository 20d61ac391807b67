//! Blocks: statements between braces, evaluated in a scope of their own.

use vstd::prelude::*;
use vstd::string::*;
use crate::env::Env;
use crate::grammar;
use crate::semantics::{eval_block, eval_expr, evaluated};
use crate::stmt::Stmt;
use crate::syntax::{SpecExpr, SpecStmt};
use crate::utils;
use crate::utils::parsed;
use crate::val::Val;

verus! {

/// A sequence of statements.
#[derive(Debug, PartialEq)]
pub struct Block {
    pub stmts: Vec<Stmt>,
}

impl View for Block {
    type V = Seq<SpecStmt>;

    open spec fn view(&self) -> Seq<SpecStmt>
        decreases self,
    {
        Seq::new(
            self.stmts@.len(),
            |i: int|
                if 0 <= i < self.stmts@.len() {
                    self.stmts@[i].view()
                } else {
                    arbitrary()
                },
        )
    }
}

impl Block {
    /// Parses a block: `{`, optional whitespace, statements with optional
    /// whitespace after each, and `}`.
    pub fn new(s: &str) -> (r: Result<(&str, Self), String>)
        ensures
            parsed(r, grammar::block(s@)),
            r matches Ok((rest, _)) ==> rest@.len() < s@.len(),
        decreases s@.len(), 1nat,
    {
        proof {
            grammar::lemmas::lemma_block_consumes(s@);
        }
        let after_brace = utils::tag("{", s)?;
        let (start, _) = utils::extract_whitespace(after_brace);
        proof {
            reveal_strlit("{");
            grammar::lemmas::lemma_run_not_longer(|c: char| grammar::is_whitespace(c), after_brace@);
        }
        let parser = utils::item_parser(
            |input: &str| -> (r: Result<(&str, Stmt), String>)
                requires
                    input@.len() < s@.len(),
                ensures
                    parsed(r, grammar::stmt(input@)) && (r matches Ok((rest, _)) ==> rest@.len()
                        < input@.len())
                {
                    Stmt::new(input)
                },
        );
        let ghost item = parser;
        let (end, stmts) = utils::sequence(parser, utils::extract_whitespace, start)?;
        let block = Block { stmts };
        proof {
            assert forall|t: Seq<char>|
                match grammar::stmt(t) {
                    Ok((after, first)) => #[trigger] grammar::stmts(t) == (
                        grammar::stmts(grammar::whitespace(after).0).0,
                        seq![first] + grammar::stmts(grammar::whitespace(after).0).1,
                    ),
                    Err(_) => grammar::stmts(t) == (t, Seq::<SpecStmt>::empty()),
                } by {
                grammar::lemmas::lemma_stmts_unfold(t);
            }
            utils::lemma_sequence_repeats(
                item,
                utils::extract_whitespace,
                start,
                block.stmts@,
                end,
                |t: Seq<char>| grammar::stmt(t),
                |t: Seq<char>| grammar::whitespace(t).0,
                |t: Seq<char>| grammar::stmts(t),
            );
            assert(block@ =~= block.stmts@.map_values(|t: Stmt| t@));
        }
        let rest = utils::tag("}", end)?;
        Ok((rest, block))
    }

    /// Evaluates the statements in order in a new child scope of `env` and
    /// returns the value of the last, or `Unit` for an empty block.
    pub fn eval(&self, env: &Env) -> (r: Result<Val, String>)
        ensures
            evaluated(r, eval_expr(SpecExpr::Block(self@), env@)),
        decreases env@.calls_left(), self, 0nat,
    {
        let mut child = env.create_child();
        let mut last = Val::Unit;
        let mut i: usize = 0;
        while i < self.stmts.len()
            invariant
                i <= self.stmts@.len(),
                child@.funcs == env@.funcs,
                child@.calls == env@.calls,
                eval_block(self@, 0, env@) == if i == self.stmts@.len() {
                    Ok::<Val, Seq<char>>(last)
                } else {
                    eval_block(self@, i as int, child@)
                },
            decreases self.stmts@.len() - i,
        {
            match self.stmts[i].eval(&mut child) {
                Ok(val) => {
                    last = val;
                },
                Err(msg) => {
                    return Err(msg);
                },
            }
            i += 1;
        }
        Ok(last)
    }
}

} // verus!
