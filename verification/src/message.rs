//! The text of every error that the library reports.
//!
//! Each message is a specification function, so that contracts can say which
//! error comes back. A message that names something has an executable
//! function that builds it; the others are written out where they arise.

use vstd::prelude::*;
use vstd::string::*;

verus! {

/// A literal was expected at the start of the input.
pub open spec fn expected(literal: Seq<char>) -> Seq<char> {
    "expected "@ + literal
}

/// No digit stands at the start of the input.
pub open spec fn expected_digits() -> Seq<char> {
    "expected digits"@
}

/// No space, tab or newline stands at the start of the input.
pub open spec fn expected_whitespace() -> Seq<char> {
    "expected a whitespace"@
}

/// No ASCII letter stands at the start of the input.
pub open spec fn expected_identifier() -> Seq<char> {
    "expected identifier"@
}

/// A sequence that needs an item has none.
pub open spec fn expected_sequence() -> Seq<char> {
    "expected a sequence with more than one item"@
}

/// A number literal is larger than `i32::MAX`.
pub open spec fn number_too_large() -> Seq<char> {
    "number too large"@
}

/// Text is left after the statement.
pub open spec fn not_consumed() -> Seq<char> {
    "input was not consumed fully"@
}

/// No scope of the chain binds `name`.
pub open spec fn missing_binding(name: Seq<char>) -> Seq<char> {
    "binding with name '"@ + name + "' does not exist"@
}

/// No scope of the chain holds a function `name`.
pub open spec fn missing_func(name: Seq<char>) -> Seq<char> {
    "function with name '"@ + name + "' does not exist"@
}

/// A call supplies `got` arguments to a function of `wanted` parameters.
pub open spec fn wrong_arity(wanted: nat, got: nat) -> Seq<char> {
    "expected "@ + decimal(wanted) + " parameters, got "@ + decimal(got)
}

/// The divisor of a division is zero.
pub open spec fn division_by_zero() -> Seq<char> {
    "division by zero"@
}

/// The result of an operation does not fit in an `i32`.
pub open spec fn overflow() -> Seq<char> {
    "integer overflow"@
}

/// Calls are nested deeper than the library allows.
pub open spec fn too_many_calls() -> Seq<char> {
    "call depth limit exceeded"@
}

/// The character of the decimal digit `d`.
pub open spec fn digit_char(d: nat) -> char
    recommends
        d < 10,
{
    ('0' as nat + d) as char
}

/// `n` written in base ten, without leading zeros.
pub open spec fn decimal(n: nat) -> Seq<char>
    decreases n,
{
    if n < 10 {
        seq![digit_char(n)]
    } else {
        decimal(n / 10).push(digit_char(n % 10))
    }
}

/// The text of one decimal digit.
fn digit_text(d: usize) -> (text: &'static str)
    requires
        d < 10,
    ensures
        text@ == seq![digit_char(d as nat)],
{
    proof {
        reveal_strlit("0");
        reveal_strlit("1");
        reveal_strlit("2");
        reveal_strlit("3");
        reveal_strlit("4");
        reveal_strlit("5");
        reveal_strlit("6");
        reveal_strlit("7");
        reveal_strlit("8");
        reveal_strlit("9");
    }
    match d {
        0 => "0",
        1 => "1",
        2 => "2",
        3 => "3",
        4 => "4",
        5 => "5",
        6 => "6",
        7 => "7",
        8 => "8",
        _ => "9",
    }
}

/// Appends `n`, in base ten, to `out`.
fn push_decimal(out: &mut String, n: usize)
    ensures
        final(out)@ == old(out)@ + decimal(n as nat),
    decreases n,
{
    if n >= 10 {
        push_decimal(out, n / 10);
    }
    out.append(digit_text(n % 10));
}

/// Builds [`expected`] for `literal`.
pub fn expected_message(literal: &str) -> (msg: String)
    ensures
        msg@ == expected(literal@),
{
    String::from_str("expected ").concat(literal)
}

/// Builds [`missing_binding`] for `name`.
pub fn missing_binding_message(name: &str) -> (msg: String)
    ensures
        msg@ == missing_binding(name@),
{
    String::from_str("binding with name '").concat(name).concat("' does not exist")
}

/// Builds [`missing_func`] for `name`.
pub fn missing_func_message(name: &str) -> (msg: String)
    ensures
        msg@ == missing_func(name@),
{
    String::from_str("function with name '").concat(name).concat("' does not exist")
}

/// Builds [`wrong_arity`] for a call with `got` arguments of a function with
/// `wanted` parameters.
pub fn wrong_arity_message(wanted: usize, got: usize) -> (msg: String)
    ensures
        msg@ == wrong_arity(wanted as nat, got as nat),
{
    let mut msg = String::from_str("expected ");
    push_decimal(&mut msg, wanted);
    msg.append(" parameters, got ");
    push_decimal(&mut msg, got);
    msg
}

} // verus!
