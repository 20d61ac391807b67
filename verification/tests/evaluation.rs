use eldiro::binding_def::BindingDef;
use eldiro::env::Env;
use eldiro::expr::binding_usage::BindingUsage;
use eldiro::expr::block::Block;
use eldiro::expr::func_call::FuncCall;
use eldiro::expr::{Expr, Number, Op};
use eldiro::parse;
use eldiro::semantics::MAX_CALL_DEPTH;
use eldiro::stmt::Stmt;
use eldiro::val::Val;

fn number(n: i32) -> Expr {
    Expr::Number(Number(n))
}

fn usage(name: &str) -> Expr {
    Expr::BindingUsage(BindingUsage {
        name: name.to_string(),
    })
}

fn call(callee: &str, params: Vec<Expr>) -> Expr {
    Expr::FuncCall(FuncCall {
        callee: callee.to_string(),
        params,
    })
}

fn operation(lhs: i32, op: Op, rhs: i32) -> Expr {
    Expr::Operation {
        lhs: Number(lhs),
        rhs: Number(rhs),
        op,
    }
}

fn eval_source(source: &str, env: &mut Env) -> Result<Val, String> {
    parse(source)?.eval(env)
}

#[test]
fn eval_number() {
    assert_eq!(number(-3).eval(&Env::default()), Ok(Val::Number(-3)));
}

#[test]
fn binding_def_round_trip() {
    let mut env = Env::default();
    assert_eq!(eval_source("let x = 10 / 2", &mut env), Ok(Val::Unit));
    assert_eq!(env.get_binding("x"), Ok(Val::Number(5)));
}

#[test]
fn arithmetic_from_source() {
    let mut env = Env::default();
    assert_eq!(eval_source("10 + 10", &mut env), Ok(Val::Number(20)));
    assert_eq!(eval_source("10 - 10", &mut env), Ok(Val::Number(0)));
    assert_eq!(eval_source("10 * 10", &mut env), Ok(Val::Number(100)));
    assert_eq!(eval_source("10 / 10", &mut env), Ok(Val::Number(1)));
}

#[test]
fn division_truncates() {
    let env = Env::default();
    assert_eq!(operation(7, Op::Div, 2).eval(&env), Ok(Val::Number(3)));
    assert_eq!(operation(1, Op::Div, 2).eval(&env), Ok(Val::Number(0)));
}

#[test]
fn division_rounds_toward_zero() {
    let env = Env::default();
    assert_eq!(operation(-7, Op::Div, 2).eval(&env), Ok(Val::Number(-3)));
    assert_eq!(operation(7, Op::Div, -2).eval(&env), Ok(Val::Number(-3)));
    assert_eq!(operation(-7, Op::Div, -2).eval(&env), Ok(Val::Number(3)));
    assert_eq!(operation(0, Op::Div, -2).eval(&env), Ok(Val::Number(0)));
}

#[test]
fn subtraction_below_zero() {
    assert_eq!(
        operation(3, Op::Sub, 10).eval(&Env::default()),
        Ok(Val::Number(-7))
    );
}

#[test]
fn results_at_the_bounds() {
    let env = Env::default();
    assert_eq!(
        operation(i32::MAX - 1, Op::Add, 1).eval(&env),
        Ok(Val::Number(i32::MAX))
    );
    assert_eq!(
        operation(i32::MIN + 1, Op::Sub, 1).eval(&env),
        Ok(Val::Number(i32::MIN))
    );
    assert_eq!(
        operation(i32::MIN, Op::Div, 1).eval(&env),
        Ok(Val::Number(i32::MIN))
    );
    assert_eq!(
        operation(-65536, Op::Mul, 32768).eval(&env),
        Ok(Val::Number(i32::MIN))
    );
}

#[test]
fn division_by_zero_is_an_error() {
    let mut env = Env::default();
    assert_eq!(
        eval_source("1 / 0", &mut env),
        Err("division by zero".to_string())
    );
    assert_eq!(
        operation(0, Op::Div, 0).eval(&env),
        Err("division by zero".to_string())
    );
}

#[test]
fn overflow_is_an_error() {
    let env = Env::default();
    let overflow = Err("integer overflow".to_string());
    assert_eq!(operation(i32::MAX, Op::Add, 1).eval(&env), overflow);
    assert_eq!(operation(i32::MIN, Op::Sub, 1).eval(&env), overflow);
    assert_eq!(operation(65536, Op::Mul, 32768).eval(&env), overflow);
    assert_eq!(operation(i32::MIN, Op::Div, -1).eval(&env), overflow);
}

#[test]
fn overflow_from_source() {
    let mut env = Env::default();
    assert_eq!(
        eval_source("2147483647 + 1", &mut env),
        Err("integer overflow".to_string())
    );
}

#[test]
fn missing_binding_names_the_binding() {
    let mut env = Env::default();
    assert_eq!(
        eval_source("nothing", &mut env),
        Err("binding with name 'nothing' does not exist".to_string())
    );
}

#[test]
fn failed_binding_def_stores_nothing() {
    let mut env = Env::default();
    env.store_binding("x".to_string(), Val::Number(1));
    assert_eq!(
        eval_source("let x = y", &mut env),
        Err("binding with name 'y' does not exist".to_string())
    );
    assert_eq!(env.get_binding("x"), Ok(Val::Number(1)));
    assert!(env.get_binding("y").is_err());
}

#[test]
fn binding_def_overwrites_in_same_scope() {
    let mut env = Env::default();
    assert_eq!(eval_source("let x = 1", &mut env), Ok(Val::Unit));
    assert_eq!(eval_source("let x = 2", &mut env), Ok(Val::Unit));
    assert_eq!(eval_source("x", &mut env), Ok(Val::Number(2)));
}

#[test]
fn bindings_accumulate_across_statements() {
    let mut env = Env::default();
    assert_eq!(eval_source("let a = 2 * 3", &mut env), Ok(Val::Unit));
    assert_eq!(eval_source("let b = a", &mut env), Ok(Val::Unit));
    assert_eq!(eval_source("b", &mut env), Ok(Val::Number(6)));
}

#[test]
fn binding_def_statement_evaluates_to_unit() {
    let mut env = Env::default();
    let stmt = Stmt::BindingDef(BindingDef {
        name: "a".to_string(),
        val: number(4),
    });
    assert_eq!(stmt.eval(&mut env), Ok(Val::Unit));
    assert_eq!(env.get_binding("a"), Ok(Val::Number(4)));
}

#[test]
fn binding_def_eval_stores_value() {
    let mut env = Env::default();
    let def = BindingDef {
        name: "a".to_string(),
        val: operation(2, Op::Mul, 21),
    };
    assert_eq!(def.eval(&mut env), Ok(()));
    assert_eq!(env.get_binding("a"), Ok(Val::Number(42)));
}

#[test]
fn expression_statement_stores_nothing() {
    let mut env = Env::default();
    assert_eq!(Stmt::Expr(number(1)).eval(&mut env), Ok(Val::Number(1)));
    assert!(env.get_binding("a").is_err());
}

#[test]
fn eval_empty_block() {
    assert_eq!(
        Block { stmts: vec![] }.eval(&Env::default()),
        Ok(Val::Unit)
    );
}

#[test]
fn block_ending_in_binding_def_is_unit() {
    let mut env = Env::default();
    assert_eq!(eval_source("{ 1 let a = 2 }", &mut env), Ok(Val::Unit));
}

#[test]
fn block_yields_last_expression() {
    let mut env = Env::default();
    assert_eq!(
        eval_source("{ let a = 1 let b = 2 7 b }", &mut env),
        Ok(Val::Number(2))
    );
}

#[test]
fn block_stops_at_first_error() {
    let mut env = Env::default();
    assert_eq!(
        eval_source("{ missing\n1 / 0 }", &mut env),
        Err("binding with name 'missing' does not exist".to_string())
    );
    assert_eq!(
        eval_source("{ 1 / 0 missing }", &mut env),
        Err("division by zero".to_string())
    );
}

#[test]
fn block_shadows_and_does_not_leak() {
    let mut env = Env::default();
    env.store_binding("y".to_string(), Val::Number(99));
    assert_eq!(eval_source("{ let y = 1 y }", &mut env), Ok(Val::Number(1)));
    assert_eq!(env.get_binding("y"), Ok(Val::Number(99)));
}

#[test]
fn block_reads_enclosing_bindings() {
    let mut env = Env::default();
    env.store_binding("outer".to_string(), Val::Number(5));
    assert_eq!(
        eval_source("{ let inner = outer\n{ inner } }", &mut env),
        Ok(Val::Number(5))
    );
    assert!(env.get_binding("inner").is_err());
}

#[test]
fn inner_block_binding_is_gone_after_it() {
    let mut env = Env::default();
    assert_eq!(
        eval_source("{ { let a = 1 } a }", &mut env),
        Err("binding with name 'a' does not exist".to_string())
    );
}

#[test]
fn call_returns_body_value() {
    let mut env = Env::default();
    env.store_func("id".to_string(), vec!["x".to_string()], usage("x"));
    assert_eq!(eval_source("id 5", &mut env), Ok(Val::Number(5)));
}

#[test]
fn call_with_zero_parameters_and_one_argument_fails() {
    let mut env = Env::default();
    env.store_func("f".to_string(), vec![], number(1));
    assert_eq!(
        eval_source("f 1", &mut env),
        Err("expected 0 parameters, got 1".to_string())
    );
}

#[test]
fn call_with_too_few_arguments_fails() {
    let mut env = Env::default();
    let params = (0..12).map(|i| format!("p{}", i)).collect();
    env.store_func("f".to_string(), params, number(1));
    assert_eq!(
        eval_source("f 1 2 3", &mut env),
        Err("expected 12 parameters, got 3".to_string())
    );
}

#[test]
fn call_with_zero_parameters_and_no_argument() {
    let mut env = Env::default();
    env.store_func("seven".to_string(), vec![], number(7));
    assert_eq!(call("seven", vec![]).eval(&env), Ok(Val::Number(7)));
}

#[test]
fn arity_is_checked_before_arguments_are_evaluated() {
    let mut env = Env::default();
    env.store_func("f".to_string(), vec![], number(1));
    assert_eq!(
        eval_source("f missing", &mut env),
        Err("expected 0 parameters, got 1".to_string())
    );
}

#[test]
fn call_of_missing_function_fails() {
    let mut env = Env::default();
    assert_eq!(
        eval_source("nope 1", &mut env),
        Err("function with name 'nope' does not exist".to_string())
    );
}

#[test]
fn arguments_see_the_callers_bindings() {
    let mut env = Env::default();
    env.store_binding("z".to_string(), Val::Number(3));
    env.store_func("id".to_string(), vec!["x".to_string()], usage("x"));
    assert_eq!(eval_source("id z", &mut env), Ok(Val::Number(3)));
}

#[test]
fn arguments_see_earlier_parameters() {
    let mut env = Env::default();
    env.store_func(
        "second".to_string(),
        vec!["a".to_string(), "b".to_string()],
        usage("b"),
    );
    assert_eq!(eval_source("second 1 a", &mut env), Ok(Val::Number(1)));
    assert!(env.get_binding("a").is_err());
}

#[test]
fn parameters_shadow_the_callers_bindings() {
    let mut env = Env::default();
    env.store_binding("x".to_string(), Val::Number(1));
    env.store_func("id".to_string(), vec!["x".to_string()], usage("x"));
    assert_eq!(eval_source("id 2", &mut env), Ok(Val::Number(2)));
    assert_eq!(env.get_binding("x"), Ok(Val::Number(1)));
}

#[test]
fn body_sees_the_callers_bindings() {
    let mut env = Env::default();
    env.store_binding("free".to_string(), Val::Number(8));
    env.store_func("f".to_string(), vec!["x".to_string()], usage("free"));
    assert_eq!(eval_source("f 0", &mut env), Ok(Val::Number(8)));
}

#[test]
fn failing_argument_fails_the_call() {
    let mut env = Env::default();
    env.store_func("id".to_string(), vec!["x".to_string()], usage("x"));
    assert_eq!(
        eval_source("id 1/0", &mut env),
        Err("division by zero".to_string())
    );
}

#[test]
fn body_with_block_and_nested_call() {
    let mut env = Env::default();
    env.store_func("id".to_string(), vec!["x".to_string()], usage("x"));
    let (_, body) = Expr::new("{ let t = id v\nt }").unwrap();
    env.store_func("wrap".to_string(), vec!["v".to_string()], body);
    assert_eq!(eval_source("wrap 9", &mut env), Ok(Val::Number(9)));
}

#[test]
fn function_defined_in_child_scope_is_seen_there_only() {
    let mut root = Env::default();
    root.store_func("f".to_string(), vec!["x".to_string()], number(1));
    {
        let mut child = root.create_child();
        child.store_func("f".to_string(), vec!["x".to_string()], number(2));
        assert_eq!(call("f", vec![number(0)]).eval(&child), Ok(Val::Number(2)));
    }
    assert_eq!(call("f", vec![number(0)]).eval(&root), Ok(Val::Number(1)));
}

#[test]
fn endless_recursion_is_an_error() {
    let mut env = Env::default();
    env.store_func(
        "loop".to_string(),
        vec!["x".to_string()],
        call("loop", vec![usage("x")]),
    );
    assert_eq!(
        eval_source("loop 1", &mut env),
        Err("call depth limit exceeded".to_string())
    );
}

fn chain(env: &mut Env, links: usize) {
    for i in 0..links {
        let body = if i + 1 == links {
            usage("x")
        } else {
            call(&format!("f{}", i + 1), vec![usage("x")])
        };
        env.store_func(format!("f{}", i), vec!["x".to_string()], body);
    }
}

#[test]
fn calls_may_nest_up_to_the_limit() {
    let mut env = Env::default();
    chain(&mut env, MAX_CALL_DEPTH);
    assert_eq!(eval_source("f0 4", &mut env), Ok(Val::Number(4)));
}

#[test]
fn calls_may_not_nest_beyond_the_limit() {
    let mut env = Env::default();
    chain(&mut env, MAX_CALL_DEPTH + 1);
    assert_eq!(
        eval_source("f0 4", &mut env),
        Err("call depth limit exceeded".to_string())
    );
}

#[test]
fn calls_in_sequence_do_not_add_up() {
    let mut env = Env::default();
    env.store_func("id".to_string(), vec!["x".to_string()], usage("x"));
    let stmts = (0..2 * MAX_CALL_DEPTH)
        .map(|_| Stmt::Expr(call("id", vec![number(1)])))
        .collect();
    assert_eq!(Block { stmts }.eval(&env), Ok(Val::Number(1)));
}
