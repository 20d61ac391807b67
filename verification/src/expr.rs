//! Expressions: their syntax tree, parser and evaluator.

pub mod binding_usage;
pub mod block;
pub mod func_call;

use vstd::prelude::*;
use vstd::string::*;
use crate::env::Env;
use crate::expr::binding_usage::BindingUsage;
use crate::expr::block::Block;
use crate::expr::func_call::FuncCall;
use crate::grammar;
use crate::semantics::{eval_expr, evaluated};
use crate::syntax::SpecExpr;
use crate::utils;
use crate::utils::parsed;
use crate::val::Val;

verus! {

/// A number literal.
#[derive(Debug, Clone, Copy, PartialEq, Eq, Structural)]
pub struct Number(pub i32);

impl View for Number {
    type V = i32;

    open spec fn view(&self) -> i32 {
        self.0
    }
}

impl Number {
    /// Parses a number literal: the digits at the start of `s`. Fails where
    /// there is none, and where their value is larger than `i32::MAX`.
    pub fn new(s: &str) -> (r: Result<(&str, Self), String>)
        ensures
            parsed(r, grammar::number(s@)),
            r matches Ok((rest, _)) ==> rest@.len() < s@.len(),
    {
        broadcast use vstd::string::group_string_axioms;

        let (rest, digits) = utils::extract_digits(s)?;
        proof {
            grammar::lemmas::lemma_run_splits(|c: char| grammar::is_digit(c), s@);
        }
        let mut value: i32 = 0;
        for c in chars: digits.chars()
            invariant
                chars.seq() == digits@,
                grammar::digits(s@) == Ok::<(Seq<char>, Seq<char>), Seq<char>>((rest@, digits@)),
                forall|j: int| 0 <= j < digits@.len() ==> grammar::is_digit(#[trigger] digits@[j]),
                value == grammar::digits_value(digits@.take(chars.index())),
        {
            let digit = (c as u32 - '0' as u32) as i32;
            proof {
                grammar::lemmas::lemma_digits_value_step(digits@, chars.index());
                grammar::lemmas::lemma_digits_value_prefix(digits@, chars.index() + 1);
            }
            let next = match value.checked_mul(10) {
                Some(tens) => tens.checked_add(digit),
                None => None,
            };
            match next {
                Some(n) => {
                    value = n;
                },
                None => {
                    return Err(String::from_str("number too large"));
                },
            }
        }
        assert(digits@.take(digits@.len() as int) =~= digits@);
        Ok((rest, Number(value)))
    }
}

/// An arithmetic operator.
#[derive(Debug, Clone, Copy, PartialEq, Eq, Structural)]
pub enum Op {
    Add,
    Sub,
    Mul,
    Div,
}

impl View for Op {
    type V = Op;

    open spec fn view(&self) -> Op {
        *self
    }
}

impl Op {
    /// Parses an operator: one of `+`, `-`, `*` and `/`.
    pub fn new(s: &str) -> (r: Result<(&str, Self), String>)
        ensures
            parsed(r, grammar::operator(s@)),
            r matches Ok((rest, _)) ==> rest@.len() < s@.len(),
    {
        proof {
            grammar::lemmas::lemma_operator_consumes(s@);
        }
        if let Ok(rest) = utils::tag("+", s) {
            Ok((rest, Op::Add))
        } else if let Ok(rest) = utils::tag("-", s) {
            Ok((rest, Op::Sub))
        } else if let Ok(rest) = utils::tag("*", s) {
            Ok((rest, Op::Mul))
        } else {
            match utils::tag("/", s) {
                Ok(rest) => Ok((rest, Op::Div)),
                Err(msg) => Err(msg),
            }
        }
    }
}

/// An expression.
#[derive(Debug, PartialEq)]
pub enum Expr {
    Number(Number),
    Operation { lhs: Number, rhs: Number, op: Op },
    BindingUsage(BindingUsage),
    FuncCall(FuncCall),
    Block(Block),
}

impl View for Expr {
    type V = SpecExpr;

    open spec fn view(&self) -> SpecExpr
        decreases self,
    {
        match self {
            Expr::Number(n) => SpecExpr::Number(n.0),
            Expr::Operation { lhs, rhs, op } => SpecExpr::Operation {
                lhs: lhs.0,
                rhs: rhs.0,
                op: *op,
            },
            Expr::BindingUsage(usage) => SpecExpr::BindingUsage(usage.name@),
            Expr::FuncCall(call) => SpecExpr::FuncCall {
                callee: call.callee@,
                params: call.params_view(),
            },
            Expr::Block(block) => SpecExpr::Block(block.view()),
        }
    }
}

impl Expr {
    /// Parses an expression: the first of an operation, a number, a call, a
    /// reference to a binding and a block that `s` starts with. Where it
    /// starts with none, the error is that of the block.
    pub fn new(s: &str) -> (r: Result<(&str, Self), String>)
        ensures
            parsed(r, grammar::expr(s@)),
            r matches Ok((rest, _)) ==> rest@.len() < s@.len(),
        decreases s@.len(), 2nat,
    {
        if let Ok(found) = Self::new_operation(s) {
            return Ok(found);
        }
        if let Ok(found) = Self::new_number(s) {
            return Ok(found);
        }
        if let Ok((rest, call)) = FuncCall::new(s) {
            return Ok((rest, Expr::FuncCall(call)));
        }
        if let Ok((rest, usage)) = BindingUsage::new(s) {
            return Ok((rest, Expr::BindingUsage(usage)));
        }
        match Block::new(s) {
            Ok((rest, block)) => Ok((rest, Expr::Block(block))),
            Err(msg) => Err(msg),
        }
    }

    /// Parses an operation: a number, an operator and a number, with
    /// optional whitespace around the operator.
    pub fn new_operation(s: &str) -> (r: Result<(&str, Self), String>)
        ensures
            parsed(r, grammar::operation(s@)),
            r matches Ok((rest, _)) ==> rest@.len() < s@.len(),
    {
        let (s, lhs) = Number::new(s)?;
        let (s, _) = utils::extract_whitespace(s);
        let (s, op) = Op::new(s)?;
        let (s, _) = utils::extract_whitespace(s);
        let (s, rhs) = Number::new(s)?;
        Ok((s, Expr::Operation { lhs, rhs, op }))
    }

    /// Parses a number literal as an expression.
    pub fn new_number(s: &str) -> (r: Result<(&str, Self), String>)
        ensures
            parsed(r, grammar::number_expr(s@)),
            r matches Ok((rest, _)) ==> rest@.len() < s@.len(),
    {
        match Number::new(s) {
            Ok((rest, n)) => Ok((rest, Expr::Number(n))),
            Err(msg) => Err(msg),
        }
    }

    /// Evaluates the expression in `env`, which it leaves as it is.
    pub fn eval(&self, env: &Env) -> (r: Result<Val, String>)
        ensures
            evaluated(r, eval_expr(self@, env@)),
        decreases env@.calls_left(), self, 0nat,
    {
        match self {
            Expr::Number(n) => Ok(Val::Number(n.0)),
            Expr::Operation { lhs, rhs, op } => {
                let result = match op {
                    Op::Add => lhs.0.checked_add(rhs.0),
                    Op::Sub => lhs.0.checked_sub(rhs.0),
                    Op::Mul => lhs.0.checked_mul(rhs.0),
                    Op::Div => {
                        if rhs.0 == 0 {
                            return Err(String::from_str("division by zero"));
                        }
                        lhs.0.checked_div(rhs.0)
                    },
                };
                match result {
                    Some(n) => Ok(Val::Number(n)),
                    None => Err(String::from_str("integer overflow")),
                }
            },
            Expr::BindingUsage(usage) => usage.eval(env),
            Expr::FuncCall(call) => call.eval(env),
            Expr::Block(block) => block.eval(env),
        }
    }
}

} // verus!
