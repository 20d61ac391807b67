//! What holds of the grammar: that every parser moves forward, and what
//! the scanners do with text that is put together from known parts.

use vstd::prelude::*;
use vstd::string::*;
use crate::grammar::{
    args, binding_def, block, digits, digits_value, digit_value, expr, func_call, identifier,
    is_alphabetic, is_alphanumeric, is_digit, is_space, is_whitespace, literal, number, operation,
    operator, program, required_whitespace, run, run_len, spaces, stmt, stmts, whitespace,
};
use crate::message;
use crate::syntax::{SpecExpr, SpecStmt};

verus! {

/// The length of a run is within the input.
pub proof fn lemma_run_len_bound(accept: spec_fn(char) -> bool, s: Seq<char>)
    ensures
        run_len(accept, s) <= s.len(),
    decreases s.len(),
{
    if s.len() > 0 && accept(s[0]) {
        lemma_run_len_bound(accept, s.drop_first());
    }
}

/// A run leaves no more than it was given.
pub proof fn lemma_run_not_longer(accept: spec_fn(char) -> bool, s: Seq<char>)
    ensures
        run(accept, s).0.len() + run(accept, s).1.len() == s.len(),
        run(accept, s).0.len() <= s.len(),
{
    lemma_run_len_bound(accept, s);
}

/// A run is the one split of the input into a prefix whose characters all
/// satisfy `accept` and a rest that is empty or starts with a character that
/// does not.
pub proof fn lemma_run_unique(
    accept: spec_fn(char) -> bool,
    s: Seq<char>,
    rest: Seq<char>,
    taken: Seq<char>,
)
    requires
        taken + rest == s,
        forall|i: int| 0 <= i < taken.len() ==> accept(#[trigger] taken[i]),
        rest.len() > 0 ==> !accept(rest[0]),
    ensures
        run_len(accept, s) == taken.len(),
        run(accept, s) == (rest, taken),
    decreases s.len(),
{
    if taken.len() > 0 {
        assert(taken.drop_first() + rest =~= s.drop_first());
        lemma_run_unique(accept, s.drop_first(), rest, taken.drop_first());
    }
}

/// What a run takes and what it leaves make up the input; every character
/// taken satisfies `accept`, and the first one left does not.
pub proof fn lemma_run_splits(accept: spec_fn(char) -> bool, s: Seq<char>)
    ensures
        run(accept, s).1 + run(accept, s).0 == s,
        forall|i: int| 0 <= i < run(accept, s).1.len() ==> accept(#[trigger] run(accept, s).1[i]),
        run(accept, s).0.len() > 0 ==> !accept(run(accept, s).0[0]),
    decreases s.len(),
{
    lemma_run_len_bound(accept, s);
    if s.len() > 0 && accept(s[0]) {
        let t = s.drop_first();
        lemma_run_splits(accept, t);
        lemma_run_len_bound(accept, t);
        assert forall|i: int| 0 <= i < run(accept, s).1.len() implies accept(
            #[trigger] run(accept, s).1[i],
        ) by {
            if i > 0 {
                assert(run(accept, s).1[i] == run(accept, t).1[i - 1]);
            }
        }
    }
}

/// A literal that is found leaves less than the input by its own length.
pub proof fn lemma_literal_consumes(text: &str, s: Seq<char>)
    ensures
        literal(text@, s) matches Ok(rest) ==> rest.len() + text@.len() == s.len(),
{
}

/// An identifier that is found has at least one character.
pub proof fn lemma_identifier_consumes(s: Seq<char>)
    ensures
        identifier(s) matches Ok((rest, name)) ==> name.len() > 0 && rest.len() + name.len()
            == s.len(),
{
    lemma_run_len_bound(|c: char| is_alphanumeric(c), s);
}

/// The value of digits grows by one decimal place with each digit.
pub proof fn lemma_digits_value_step(d: Seq<char>, i: int)
    requires
        0 <= i < d.len(),
    ensures
        digits_value(d.take(i + 1)) == digits_value(d.take(i)) * 10 + digit_value(d[i]),
{
    assert(d.take(i + 1).drop_last() =~= d.take(i));
}

/// The value of a prefix of digits is at most the value of them all.
pub proof fn lemma_digits_value_prefix(d: Seq<char>, i: int)
    requires
        0 <= i <= d.len(),
    ensures
        digits_value(d.take(i)) <= digits_value(d),
    decreases d.len() - i,
{
    if i < d.len() {
        lemma_digits_value_step(d, i);
        lemma_digits_value_prefix(d, i + 1);
    } else {
        assert(d.take(i) =~= d);
    }
}

/// A number that is found takes at least one character.
pub proof fn lemma_number_consumes(s: Seq<char>)
    ensures
        number(s) matches Ok((rest, _)) ==> rest.len() < s.len(),
{
    lemma_run_len_bound(|c: char| is_digit(c), s);
}

/// An operator that is found takes one character.
pub proof fn lemma_operator_consumes(s: Seq<char>)
    ensures
        operator(s) matches Ok((rest, _)) ==> rest.len() + 1 == s.len(),
{
    reveal_strlit("+");
    reveal_strlit("-");
    reveal_strlit("*");
    reveal_strlit("/");
}

/// An operation that is found takes at least one character.
pub proof fn lemma_operation_consumes(s: Seq<char>)
    ensures
        operation(s) matches Ok((rest, _)) ==> rest.len() < s.len(),
{
    lemma_number_consumes(s);
    if let Ok((after_lhs, _)) = number(s) {
        lemma_run_not_longer(|c: char| is_whitespace(c), after_lhs);
        lemma_operator_consumes(whitespace(after_lhs).0);
        if let Ok((after_op, _)) = operator(whitespace(after_lhs).0) {
            lemma_run_not_longer(|c: char| is_whitespace(c), after_op);
            lemma_number_consumes(whitespace(after_op).0);
        }
    }
}

/// An expression that is found takes at least one character.
pub proof fn lemma_expr_consumes(s: Seq<char>)
    ensures
        expr(s) matches Ok((rest, _)) ==> rest.len() < s.len(),
    decreases s.len(), 2nat,
{
    lemma_operation_consumes(s);
    lemma_number_consumes(s);
    lemma_func_call_consumes(s);
    lemma_identifier_consumes(s);
    lemma_block_consumes(s);
}

/// A call that is found takes at least one character.
pub proof fn lemma_func_call_consumes(s: Seq<char>)
    ensures
        func_call(s) matches Ok((rest, _)) ==> rest.len() < s.len(),
    decreases s.len(), 1nat,
{
    lemma_identifier_consumes(s);
    if let Ok((after_callee, _)) = identifier(s) {
        lemma_run_not_longer(|c: char| is_space(c), after_callee);
        lemma_args_not_longer(spaces(after_callee).0);
    }
}

/// The arguments leave no more than the input.
pub proof fn lemma_args_not_longer(s: Seq<char>)
    ensures
        args(s).0.len() <= s.len(),
    decreases s.len(), 3nat,
{
    lemma_expr_consumes(s);
    if let Ok((after, _)) = expr(s) {
        lemma_run_not_longer(|c: char| is_space(c), after);
        lemma_args_not_longer(spaces(after).0);
    }
}

/// A block that is found takes at least two characters.
pub proof fn lemma_block_consumes(s: Seq<char>)
    ensures
        block(s) matches Ok((rest, _)) ==> rest.len() + 2 <= s.len(),
    decreases s.len(), 1nat,
{
    reveal_strlit("{");
    reveal_strlit("}");
    if let Ok(after_brace) = literal("{"@, s) {
        lemma_run_not_longer(|c: char| is_whitespace(c), after_brace);
        lemma_stmts_not_longer(whitespace(after_brace).0);
    }
}

/// The statements leave no more than the input.
pub proof fn lemma_stmts_not_longer(s: Seq<char>)
    ensures
        stmts(s).0.len() <= s.len(),
    decreases s.len(), 4nat,
{
    lemma_stmt_consumes(s);
    if let Ok((after, _)) = stmt(s) {
        lemma_run_not_longer(|c: char| is_whitespace(c), after);
        lemma_stmts_not_longer(whitespace(after).0);
    }
}

/// A statement that is found takes at least one character.
pub proof fn lemma_stmt_consumes(s: Seq<char>)
    ensures
        stmt(s) matches Ok((rest, _)) ==> rest.len() < s.len(),
    decreases s.len(), 3nat,
{
    lemma_binding_def_consumes(s);
    lemma_expr_consumes(s);
}

/// A binding definition that is found takes at least one character.
pub proof fn lemma_binding_def_consumes(s: Seq<char>)
    ensures
        binding_def(s) matches Ok((rest, _)) ==> rest.len() < s.len(),
    decreases s.len(), 1nat,
{
    if let Ok(after_let) = literal("let"@, s) {
        lemma_run_not_longer(|c: char| is_whitespace(c), after_let);
        if let Ok((before_name, _)) = required_whitespace(after_let) {
            lemma_identifier_consumes(before_name);
            if let Ok((after_name, _)) = identifier(before_name) {
                lemma_run_not_longer(|c: char| is_whitespace(c), after_name);
                if let Ok(after_equals) = literal("="@, whitespace(after_name).0) {
                    lemma_run_not_longer(|c: char| is_whitespace(c), after_equals);
                    lemma_expr_consumes(whitespace(after_equals).0);
                }
            }
        }
    }
}

/// The guard in [`args`] never fails: the arguments are the first expression,
/// where there is one, and the arguments after it and its spaces.
pub proof fn lemma_args_unfold(s: Seq<char>)
    ensures
        match expr(s) {
            Ok((after, first)) => args(s) == (
                args(spaces(after).0).0,
                seq![first] + args(spaces(after).0).1,
            ),
            Err(_) => args(s) == (s, Seq::<SpecExpr>::empty()),
        },
{
    lemma_expr_consumes(s);
    if let Ok((after, _)) = expr(s) {
        lemma_run_not_longer(|c: char| is_space(c), after);
    }
}

/// The guard in [`stmts`] never fails: the statements are the first
/// statement, where there is one, and the statements after it and its
/// whitespace.
pub proof fn lemma_stmts_unfold(s: Seq<char>)
    ensures
        match stmt(s) {
            Ok((after, first)) => stmts(s) == (
                stmts(whitespace(after).0).0,
                seq![first] + stmts(whitespace(after).0).1,
            ),
            Err(_) => stmts(s) == (s, Seq::<SpecStmt>::empty()),
        },
{
    lemma_stmt_consumes(s);
    if let Ok((after, _)) = stmt(s) {
        lemma_run_not_longer(|c: char| is_whitespace(c), after);
    }
}

/// Digits followed by text that does not start with a digit are taken whole:
/// scanning `d` followed by `rest` for digits leaves `rest` and gives `d`.
pub proof fn lemma_digits_before_rest(d: Seq<char>, rest: Seq<char>)
    requires
        d.len() > 0,
        forall|i: int| 0 <= i < d.len() ==> is_digit(#[trigger] d[i]),
        rest.len() > 0 ==> !is_digit(rest[0]),
    ensures
        digits(d + rest) == Ok::<(Seq<char>, Seq<char>), Seq<char>>((rest, d)),
{
    lemma_run_unique(|c: char| is_digit(c), d + rest, rest, d);
}

/// An input that does not start with a digit has no digits: scanning it for
/// digits fails with [`message::expected_digits`].
pub proof fn lemma_digits_missing(s: Seq<char>)
    requires
        s.len() > 0 ==> !is_digit(s[0]),
    ensures
        digits(s) == Err::<(Seq<char>, Seq<char>), Seq<char>>(message::expected_digits()),
{
}

/// An identifier followed by text that does not start with a letter or a
/// digit is taken whole: scanning `name` followed by `rest` for an identifier
/// leaves `rest` and gives `name`.
pub proof fn lemma_identifier_before_rest(name: Seq<char>, rest: Seq<char>)
    requires
        name.len() > 0,
        is_alphabetic(name[0]),
        forall|i: int| 0 <= i < name.len() ==> is_alphanumeric(#[trigger] name[i]),
        rest.len() > 0 ==> !is_alphanumeric(rest[0]),
    ensures
        identifier(name + rest) == Ok::<(Seq<char>, Seq<char>), Seq<char>>((rest, name)),
{
    lemma_run_unique(|c: char| is_alphanumeric(c), name + rest, rest, name);
}

/// The identifier that is found is the longest one: every character of it is
/// a letter or a digit, the first is a letter, and what is left does not
/// start with a letter or a digit.
pub proof fn lemma_identifier_maximal(s: Seq<char>)
    ensures
        identifier(s) matches Ok((rest, name)) ==> {
            &&& name + rest == s
            &&& name.len() > 0
            &&& is_alphabetic(name[0])
            &&& forall|i: int| 0 <= i < name.len() ==> is_alphanumeric(#[trigger] name[i])
            &&& rest.len() > 0 ==> !is_alphanumeric(rest[0])
        },
{
    lemma_run_splits(|c: char| is_alphanumeric(c), s);
    lemma_identifier_consumes(s);
}

/// A literal is found in front of anything: looking for `text` in `text`
/// followed by `rest` leaves `rest`.
pub proof fn lemma_literal_found(text: Seq<char>, rest: Seq<char>)
    ensures
        literal(text, text + rest) == Ok::<Seq<char>, Seq<char>>(rest),
{
    assert((text + rest).skip(text.len() as int) =~= rest);
}

/// A literal is found nowhere else: looking for `text` in an input that
/// does not start with it fails with [`message::expected`].
pub proof fn lemma_literal_missing(text: Seq<char>, s: Seq<char>)
    requires
        !text.is_prefix_of(s),
    ensures
        literal(text, s) == Err::<Seq<char>, Seq<char>>(message::expected(text)),
{
}

/// A whole input is a statement and nothing but whitespace after it:
/// [`program`] succeeds exactly where [`stmt`] does and every character that
/// it leaves is whitespace, and then gives the same statement.
pub proof fn lemma_program_takes_all(s: Seq<char>)
    ensures
        program(s) is Ok <==> (stmt(s) matches Ok((rest, _)) && forall|i: int|
            0 <= i < rest.len() ==> is_whitespace(#[trigger] rest[i])),
        program(s) matches Ok(found) ==> stmt(s) matches Ok((_, first)) && first == found,
        stmt(s) matches Err(msg) ==> program(s) == Err::<SpecStmt, Seq<char>>(msg),
{
    if let Ok((rest, _)) = stmt(s) {
        let space = |c: char| is_whitespace(c);
        lemma_run_splits(space, rest);
        lemma_run_len_bound(space, rest);
    }
}

} // verus!
