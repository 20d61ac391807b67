//! The grammar, as specification functions on sequences of characters.
//!
//! Each function takes the input and gives what is left of it together with
//! what was recognised, or the text of an error. The executable scanners and
//! parsers are proved to return exactly these results.

pub mod lemmas;

use vstd::prelude::*;
use vstd::string::*;
use crate::expr::Op;
use crate::grammar::lemmas::{
    lemma_identifier_consumes, lemma_literal_consumes, lemma_run_not_longer,
};
use crate::message;
use crate::syntax::{SpecExpr, SpecStmt};

verus! {

/// What is left of the input and what was recognised, or an error.
pub type Parsed<T> = Result<(Seq<char>, T), Seq<char>>;

/// `c` is one of `0` to `9`.
pub open spec fn is_digit(c: char) -> bool {
    '0' <= c <= '9'
}

/// `c` is an ASCII letter.
pub open spec fn is_alphabetic(c: char) -> bool {
    'a' <= c <= 'z' || 'A' <= c <= 'Z'
}

/// `c` is an ASCII letter or digit.
pub open spec fn is_alphanumeric(c: char) -> bool {
    is_alphabetic(c) || is_digit(c)
}

/// `c` is a space, a newline or a tab.
pub open spec fn is_whitespace(c: char) -> bool {
    c == ' ' || c == '\n' || c == '\t'
}

/// `c` is a space.
pub open spec fn is_space(c: char) -> bool {
    c == ' '
}

/// The length of the longest prefix of `s` whose characters all satisfy
/// `accept`.
pub open spec fn run_len(accept: spec_fn(char) -> bool, s: Seq<char>) -> nat
    decreases s.len(),
{
    if s.len() > 0 && accept(s[0]) {
        1 + run_len(accept, s.drop_first())
    } else {
        0
    }
}

/// `s` split after its longest prefix of characters that satisfy `accept`:
/// what is left, then the prefix.
pub open spec fn run(accept: spec_fn(char) -> bool, s: Seq<char>) -> (Seq<char>, Seq<char>) {
    (s.skip(run_len(accept, s) as int), s.take(run_len(accept, s) as int))
}

/// As [`run`], but an empty prefix is the error `msg`.
pub open spec fn required_run(
    accept: spec_fn(char) -> bool,
    s: Seq<char>,
    msg: Seq<char>,
) -> Parsed<Seq<char>> {
    if run_len(accept, s) == 0 {
        Err(msg)
    } else {
        Ok(run(accept, s))
    }
}

/// `s` without the prefix `text`, where it starts with `text`.
pub open spec fn literal(text: Seq<char>, s: Seq<char>) -> Result<Seq<char>, Seq<char>> {
    if text.is_prefix_of(s) {
        Ok(s.skip(text.len() as int))
    } else {
        Err(message::expected(text))
    }
}

/// The digits at the start of `s`; at least one.
pub open spec fn digits(s: Seq<char>) -> Parsed<Seq<char>> {
    required_run(|c: char| is_digit(c), s, message::expected_digits())
}

/// The whitespace at the start of `s`; possibly none.
pub open spec fn whitespace(s: Seq<char>) -> (Seq<char>, Seq<char>) {
    run(|c: char| is_whitespace(c), s)
}

/// The whitespace at the start of `s`; at least one character.
pub open spec fn required_whitespace(s: Seq<char>) -> Parsed<Seq<char>> {
    required_run(|c: char| is_whitespace(c), s, message::expected_whitespace())
}

/// The spaces at the start of `s`; possibly none.
pub open spec fn spaces(s: Seq<char>) -> (Seq<char>, Seq<char>) {
    run(|c: char| is_space(c), s)
}

/// The identifier at the start of `s`: a letter, then letters and digits.
pub open spec fn identifier(s: Seq<char>) -> Parsed<Seq<char>> {
    if s.len() > 0 && is_alphabetic(s[0]) {
        Ok(run(|c: char| is_alphanumeric(c), s))
    } else {
        Err(message::expected_identifier())
    }
}

/// The number that the decimal digit `c` stands for.
pub open spec fn digit_value(c: char) -> nat
    recommends
        is_digit(c),
{
    (c as nat - '0' as nat) as nat
}

/// The number that the decimal digits `d` stand for; 0 for none.
pub open spec fn digits_value(d: Seq<char>) -> nat
    decreases d.len(),
{
    if d.len() == 0 {
        0
    } else {
        digits_value(d.drop_last()) * 10 + digit_value(d.last())
    }
}

/// A number literal: digits whose value is at most `i32::MAX`.
pub open spec fn number(s: Seq<char>) -> Parsed<i32> {
    match digits(s) {
        Ok((rest, d)) => if digits_value(d) <= i32::MAX {
            Ok((rest, digits_value(d) as i32))
        } else {
            Err(message::number_too_large())
        },
        Err(msg) => Err(msg),
    }
}

/// An operator: one of `+`, `-`, `*` and `/`.
pub open spec fn operator(s: Seq<char>) -> Parsed<Op> {
    if let Ok(rest) = literal("+"@, s) {
        Ok((rest, Op::Add))
    } else if let Ok(rest) = literal("-"@, s) {
        Ok((rest, Op::Sub))
    } else if let Ok(rest) = literal("*"@, s) {
        Ok((rest, Op::Mul))
    } else {
        match literal("/"@, s) {
            Ok(rest) => Ok((rest, Op::Div)),
            Err(msg) => Err(msg),
        }
    }
}

/// An operation: a number, an operator and a number, with optional
/// whitespace around the operator.
pub open spec fn operation(s: Seq<char>) -> Parsed<SpecExpr> {
    match number(s) {
        Ok((after_lhs, lhs)) => match operator(whitespace(after_lhs).0) {
            Ok((after_op, op)) => match number(whitespace(after_op).0) {
                Ok((rest, rhs)) => Ok((rest, SpecExpr::Operation { lhs, rhs, op })),
                Err(msg) => Err(msg),
            },
            Err(msg) => Err(msg),
        },
        Err(msg) => Err(msg),
    }
}

/// A number literal as an expression.
pub open spec fn number_expr(s: Seq<char>) -> Parsed<SpecExpr> {
    match number(s) {
        Ok((rest, n)) => Ok((rest, SpecExpr::Number(n))),
        Err(msg) => Err(msg),
    }
}

/// A reference to a binding: an identifier.
pub open spec fn binding_usage(s: Seq<char>) -> Parsed<Seq<char>> {
    identifier(s)
}

/// An expression: the first of an operation, a number, a call, a reference to
/// a binding and a block that the input starts with. Where it starts with
/// none, the error is that of the block.
pub open spec fn expr(s: Seq<char>) -> Parsed<SpecExpr>
    decreases s.len(), 2nat,
{
    if operation(s) is Ok {
        operation(s)
    } else if number_expr(s) is Ok {
        number_expr(s)
    } else if let Ok((rest, (callee, params))) = func_call(s) {
        Ok((rest, SpecExpr::FuncCall { callee, params }))
    } else if let Ok((rest, name)) = binding_usage(s) {
        Ok((rest, SpecExpr::BindingUsage(name)))
    } else {
        match block(s) {
            Ok((rest, stmts)) => Ok((rest, SpecExpr::Block(stmts))),
            Err(msg) => Err(msg),
        }
    }
}

/// A call: the callee's identifier, optional spaces, and one argument
/// expression or more, with optional spaces after each.
pub open spec fn func_call(s: Seq<char>) -> Parsed<(Seq<char>, Seq<SpecExpr>)>
    decreases s.len(), 1nat,
{
    match identifier(s) {
        Ok((after_callee, callee)) => {
            proof {
                lemma_identifier_consumes(s);
                lemma_run_not_longer(|c: char| is_space(c), after_callee);
            }
            let (rest, params) = args(spaces(after_callee).0);
            if params.len() == 0 {
                Err(message::expected_sequence())
            } else {
                Ok((rest, (callee, params)))
            }
        },
        Err(msg) => Err(msg),
    }
}

/// The argument expressions at the start of `s`, with the optional spaces
/// after each, up to where no expression starts: what is left, and the
/// expressions.
pub open spec fn args(s: Seq<char>) -> (Seq<char>, Seq<SpecExpr>)
    decreases s.len(), 3nat,
{
    match expr(s) {
        Ok((after, first)) => {
            let next = spaces(after).0;
            if next.len() < s.len() {
                (args(next).0, seq![first] + args(next).1)
            } else {
                // Never taken: an expression has at least one character.
                (next, seq![first])
            }
        },
        Err(_) => (s, Seq::empty()),
    }
}

/// A block: `{`, optional whitespace, statements with optional whitespace
/// after each, and `}`.
pub open spec fn block(s: Seq<char>) -> Parsed<Seq<SpecStmt>>
    decreases s.len(), 1nat,
{
    match literal("{"@, s) {
        Ok(after_brace) => {
            proof {
                reveal_strlit("{");
                lemma_literal_consumes("{", s);
                lemma_run_not_longer(|c: char| is_whitespace(c), after_brace);
            }
            let (after_stmts, stmts) = stmts(whitespace(after_brace).0);
            match literal("}"@, after_stmts) {
                Ok(rest) => Ok((rest, stmts)),
                Err(msg) => Err(msg),
            }
        },
        Err(msg) => Err(msg),
    }
}

/// The statements at the start of `s`, with the optional whitespace after
/// each, up to where no statement starts: what is left, and the statements.
pub open spec fn stmts(s: Seq<char>) -> (Seq<char>, Seq<SpecStmt>)
    decreases s.len(), 4nat,
{
    match stmt(s) {
        Ok((after, first)) => {
            let next = whitespace(after).0;
            if next.len() < s.len() {
                (stmts(next).0, seq![first] + stmts(next).1)
            } else {
                // Never taken: a statement has at least one character.
                (next, seq![first])
            }
        },
        Err(_) => (s, Seq::empty()),
    }
}

/// A statement: a binding definition, or else an expression.
pub open spec fn stmt(s: Seq<char>) -> Parsed<SpecStmt>
    decreases s.len(), 3nat,
{
    if let Ok((rest, (name, val))) = binding_def(s) {
        Ok((rest, SpecStmt::BindingDef { name, val }))
    } else {
        match expr(s) {
            Ok((rest, e)) => Ok((rest, SpecStmt::Expr(e))),
            Err(msg) => Err(msg),
        }
    }
}

/// A binding definition: `let`, whitespace, an identifier, `=` with optional
/// whitespace around it, and an expression.
pub open spec fn binding_def(s: Seq<char>) -> Parsed<(Seq<char>, SpecExpr)>
    decreases s.len(), 1nat,
{
    match literal("let"@, s) {
        Ok(after_let) => match required_whitespace(after_let) {
            Ok((before_name, _)) => match identifier(before_name) {
                Ok((after_name, name)) => match literal("="@, whitespace(after_name).0) {
                    Ok(after_equals) => {
                        proof {
                            lemma_literal_consumes("let", s);
                            lemma_run_not_longer(|c: char| is_whitespace(c), after_let);
                            lemma_identifier_consumes(before_name);
                            lemma_run_not_longer(|c: char| is_whitespace(c), after_name);
                            lemma_literal_consumes("=", whitespace(after_name).0);
                            lemma_run_not_longer(|c: char| is_whitespace(c), after_equals);
                        }
                        match expr(whitespace(after_equals).0) {
                            Ok((rest, val)) => Ok((rest, (name, val))),
                            Err(msg) => Err(msg),
                        }
                    },
                    Err(msg) => Err(msg),
                },
                Err(msg) => Err(msg),
            },
            Err(msg) => Err(msg),
        },
        Err(msg) => Err(msg),
    }
}

/// A whole input: one statement, after which only whitespace may be left.
pub open spec fn program(s: Seq<char>) -> Result<SpecStmt, Seq<char>> {
    match stmt(s) {
        Ok((rest, parsed)) => if whitespace(rest).0.len() == 0 {
            Ok(parsed)
        } else {
            Err(message::not_consumed())
        },
        Err(msg) => Err(msg),
    }
}

} // verus!
