//! What a syntax tree means.
//!
//! The meaning of an expression is a specification function from the tree and
//! the names in sight to a value or an error. The executable evaluators are
//! proved to compute it.

use vstd::prelude::*;
use crate::expr::Op;
use crate::message;
use crate::syntax::{SpecExpr, SpecStmt};
use crate::val::Val;

verus! {

/// How deeply calls may nest. A call made at this depth fails.
pub const MAX_CALL_DEPTH: usize = 256;

/// A function definition: parameter names and body.
pub struct SpecFunc {
    pub params: Seq<Seq<char>>,
    pub body: SpecExpr,
}

/// The names that a scope sees, itself and its ancestors taken together, and
/// the number of calls that enclose it.
pub struct SpecEnv {
    pub bindings: Map<Seq<char>, Val>,
    pub funcs: Map<Seq<char>, SpecFunc>,
    pub calls: nat,
}

impl SpecEnv {
    /// The same names with `name` bound to `val`.
    pub open spec fn bind(self, name: Seq<char>, val: Val) -> SpecEnv {
        SpecEnv { bindings: self.bindings.insert(name, val), funcs: self.funcs, calls: self.calls }
    }

    /// The same names, seen from inside one more call.
    pub open spec fn enter_call(self) -> SpecEnv {
        SpecEnv { bindings: self.bindings, funcs: self.funcs, calls: self.calls + 1 }
    }

    /// How many more calls may nest below this scope.
    pub open spec fn calls_left(self) -> nat {
        if self.calls < MAX_CALL_DEPTH {
            (MAX_CALL_DEPTH - self.calls) as nat
        } else {
            0
        }
    }

    /// The same scope after a statement has stored `stored`, if anything.
    pub open spec fn after(self, stored: Option<(Seq<char>, Val)>) -> SpecEnv {
        match stored {
            Some((name, val)) => self.bind(name, val),
            None => self,
        }
    }
}

/// The quotient of `lhs` by `rhs`, rounded toward zero.
pub open spec fn quotient(lhs: int, rhs: int) -> int
    recommends
        rhs != 0,
{
    if lhs >= 0 && rhs > 0 {
        lhs / rhs
    } else if lhs < 0 && rhs < 0 {
        (-lhs) / (-rhs)
    } else if lhs < 0 {
        -((-lhs) / rhs)
    } else {
        -(lhs / (-rhs))
    }
}

/// The result of `lhs op rhs` in unbounded integers. Division needs
/// `rhs != 0`.
pub open spec fn exact_result(op: Op, lhs: int, rhs: int) -> int {
    match op {
        Op::Add => lhs + rhs,
        Op::Sub => lhs - rhs,
        Op::Mul => lhs * rhs,
        Op::Div => quotient(lhs, rhs),
    }
}

/// The value of `lhs op rhs`: the exact result where it fits in an `i32`;
/// an error for a division by zero and for a result that does not fit.
pub open spec fn apply_op(op: Op, lhs: i32, rhs: i32) -> Result<Val, Seq<char>> {
    if op == Op::Div && rhs == 0 {
        Err(message::division_by_zero())
    } else if i32::MIN <= exact_result(op, lhs as int, rhs as int) <= i32::MAX {
        Ok(Val::Number(exact_result(op, lhs as int, rhs as int) as i32))
    } else {
        Err(message::overflow())
    }
}

/// The value of an expression in a scope that sees `env`.
///
/// A block is evaluated in a child scope, so nothing it binds is seen
/// after it. A call looks the callee up, compares the number of arguments
/// with the number of parameters, evaluates the arguments one after the other
/// in the scope of the call, where each is bound to its parameter before the
/// next is evaluated, and then evaluates the body there.
pub open spec fn eval_expr(expr: SpecExpr, env: SpecEnv) -> Result<Val, Seq<char>>
    decreases env.calls_left(), expr, 0nat,
{
    match expr {
        SpecExpr::Number(n) => Ok(Val::Number(n)),
        SpecExpr::Operation { lhs, rhs, op } => apply_op(op, lhs, rhs),
        SpecExpr::BindingUsage(name) => if env.bindings.contains_key(name) {
            Ok(env.bindings[name])
        } else {
            Err(message::missing_binding(name))
        },
        SpecExpr::Block(stmts) => eval_block(stmts, 0, env),
        SpecExpr::FuncCall { callee, params } => if !env.funcs.contains_key(callee) {
            Err(message::missing_func(callee))
        } else if env.funcs[callee].params.len() != params.len() {
            Err(message::wrong_arity(env.funcs[callee].params.len(), params.len()))
        } else if env.calls >= MAX_CALL_DEPTH {
            Err(message::too_many_calls())
        } else {
            match bind_args(params, env.funcs[callee].params, 0, env.enter_call()) {
                Ok(scope) => eval_expr(
                    env.funcs[callee].body,
                    SpecEnv { bindings: scope, funcs: env.funcs, calls: env.calls + 1 },
                ),
                Err(msg) => Err(msg),
            }
        },
    }
}

/// The bindings of a call's scope once the arguments from index `from` on
/// have been evaluated and bound, each in the scope that holds the earlier
/// ones; or the first error.
pub open spec fn bind_args(
    args: Seq<SpecExpr>,
    names: Seq<Seq<char>>,
    from: int,
    env: SpecEnv,
) -> Result<Map<Seq<char>, Val>, Seq<char>>
    decreases env.calls_left(), args, args.len() - from,
{
    if 0 <= from < args.len() {
        match eval_expr(args[from], env) {
            Ok(val) => bind_args(args, names, from + 1, env.bind(names[from], val)),
            Err(msg) => Err(msg),
        }
    } else {
        Ok(env.bindings)
    }
}

/// The value of the statements of a block from index `from` on, evaluated in
/// order in one scope: that of the last statement, `Unit` where there is
/// none, or the first error.
pub open spec fn eval_block(stmts: Seq<SpecStmt>, from: int, env: SpecEnv) -> Result<
    Val,
    Seq<char>,
>
    decreases env.calls_left(), stmts, stmts.len() - from,
{
    if 0 <= from < stmts.len() {
        match eval_stmt(stmts[from], env) {
            Ok(val) => if from + 1 == stmts.len() {
                Ok(val)
            } else {
                eval_block(stmts, from + 1, env.after(stored_by(stmts[from], env)))
            },
            Err(msg) => Err(msg),
        }
    } else {
        Ok(Val::Unit)
    }
}

/// The value of a statement: `Unit` for a binding definition whose
/// expression has a value, the value of a bare expression, or the error of
/// the expression.
pub open spec fn eval_stmt(stmt: SpecStmt, env: SpecEnv) -> Result<Val, Seq<char>>
    decreases env.calls_left(), stmt, 0nat,
{
    match stmt {
        SpecStmt::BindingDef { name, val } => match eval_expr(val, env) {
            Ok(_) => Ok(Val::Unit),
            Err(msg) => Err(msg),
        },
        SpecStmt::Expr(expr) => eval_expr(expr, env),
    }
}

/// What a statement stores in the scope it is evaluated in: a binding
/// definition whose expression has a value stores that value under its name;
/// nothing else stores anything.
pub open spec fn stored_by(stmt: SpecStmt, env: SpecEnv) -> Option<(Seq<char>, Val)>
    decreases env.calls_left(), stmt, 0nat,
{
    match stmt {
        SpecStmt::BindingDef { name, val } => match eval_expr(val, env) {
            Ok(v) => Some((name, v)),
            Err(_) => None,
        },
        SpecStmt::Expr(_) => None,
    }
}

/// `r` is the executable form of the specified result `expected`.
pub open spec fn evaluated<T>(r: Result<T, String>, expected: Result<T, Seq<char>>) -> bool {
    match r {
        Ok(val) => expected == Ok::<T, Seq<char>>(val),
        Err(msg) => expected == Err::<T, Seq<char>>(msg@),
    }
}

/// A name that no scope of the chain binds has no value: evaluating a
/// reference to it fails with [`message::missing_binding`].
pub proof fn lemma_missing_binding(name: Seq<char>, env: SpecEnv)
    requires
        !env.bindings.contains_key(name),
    ensures
        eval_expr(SpecExpr::BindingUsage(name), env) == Err::<Val, Seq<char>>(
            message::missing_binding(name),
        ),
{
}

/// A call with another number of arguments than the function has parameters
/// fails with [`message::wrong_arity`], whatever the arguments are.
pub proof fn lemma_wrong_arity(callee: Seq<char>, args: Seq<SpecExpr>, env: SpecEnv)
    requires
        env.funcs.contains_key(callee),
        env.funcs[callee].params.len() != args.len(),
    ensures
        eval_expr((SpecExpr::FuncCall { callee, params: args }), env) == Err::<Val, Seq<char>>(
            message::wrong_arity(env.funcs[callee].params.len(), args.len()),
        ),
{
}

/// A binding made in a block shadows the one in sight: a block that binds
/// `name` to the number `n` and then refers to `name` has the value `n`,
/// whatever `name` is bound to outside.
pub proof fn lemma_block_shadows(name: Seq<char>, n: i32, env: SpecEnv)
    ensures
        eval_expr(
            SpecExpr::Block(
                seq![
                    (SpecStmt::BindingDef { name, val: SpecExpr::Number(n) }),
                    SpecStmt::Expr(SpecExpr::BindingUsage(name)),
                ],
            ),
            env,
        ) == Ok::<Val, Seq<char>>(Val::Number(n)),
{
    let stmts = seq![
        (SpecStmt::BindingDef { name, val: SpecExpr::Number(n) }),
        SpecStmt::Expr(SpecExpr::BindingUsage(name)),
    ];
    let inner = env.bind(name, Val::Number(n));
    assert(eval_stmt(stmts[0], env) == Ok::<Val, Seq<char>>(Val::Unit));
    assert(stored_by(stmts[0], env) == Some((name, Val::Number(n))));
    assert(eval_stmt(stmts[1], inner) == Ok::<Val, Seq<char>>(Val::Number(n)));
    assert(eval_block(stmts, 0, env) == eval_block(stmts, 1, inner));
}

/// Where the exact result of an operation fits in an `i32` and no division
/// by zero is asked for, the operation has that result.
pub proof fn lemma_apply_op_exact(op: Op, lhs: i32, rhs: i32)
    requires
        op == Op::Div ==> rhs != 0,
        i32::MIN <= exact_result(op, lhs as int, rhs as int) <= i32::MAX,
    ensures
        apply_op(op, lhs, rhs) matches Ok(Val::Number(n)) && n == exact_result(
            op,
            lhs as int,
            rhs as int,
        ),
{
}

/// The quotient is the one integer `q` for which `q * rhs` is no further
/// from zero than `lhs`, on the same side of zero, and less than `|rhs|`
/// away from it.
pub proof fn lemma_quotient_rounds_toward_zero(lhs: int, rhs: int)
    requires
        rhs != 0,
    ensures
        lhs >= 0 ==> 0 <= quotient(lhs, rhs) * rhs <= lhs,
        lhs <= 0 ==> lhs <= quotient(lhs, rhs) * rhs <= 0,
        rhs > 0 ==> -rhs < lhs - quotient(lhs, rhs) * rhs < rhs,
        rhs < 0 ==> rhs < lhs - quotient(lhs, rhs) * rhs < -rhs,
{
    let a = if lhs >= 0 { lhs } else { -lhs };
    let b = if rhs > 0 { rhs } else { -rhs };
    assert(0 <= a - (a / b) * b < b && (a / b) * b >= 0) by (nonlinear_arith)
        requires
            a >= 0,
            b > 0,
    ;
    let q = a / b;
    assert(q * b == (-q) * (-b) && -(q * b) == (-q) * b && -(q * b) == q * (-b))
        by (nonlinear_arith);
}

} // verus!
