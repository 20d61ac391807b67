use eldiro::env::{Env, FuncDef};
use eldiro::expr::{Expr, Number};
use eldiro::message::{
    expected_message, missing_binding_message, missing_func_message, wrong_arity_message,
};
use eldiro::val::Val;

#[test]
fn default_env_is_empty() {
    let env = Env::default();
    assert_eq!(
        env.get_binding("x"),
        Err("binding with name 'x' does not exist".to_string())
    );
    assert_eq!(
        env.get_func("f"),
        Err("function with name 'f' does not exist".to_string())
    );
}

#[test]
fn store_binding_overwrites() {
    let mut env = Env::default();
    env.store_binding("x".to_string(), Val::Number(1));
    env.store_binding("x".to_string(), Val::Unit);
    assert_eq!(env.get_binding("x"), Ok(Val::Unit));
}

#[test]
fn store_binding_keeps_other_names() {
    let mut env = Env::default();
    env.store_binding("x".to_string(), Val::Number(1));
    env.store_binding("y".to_string(), Val::Number(2));
    assert_eq!(env.get_binding("x"), Ok(Val::Number(1)));
    assert_eq!(env.get_binding("y"), Ok(Val::Number(2)));
}

#[test]
fn child_reads_through_ancestors() {
    let mut root = Env::default();
    root.store_binding("x".to_string(), Val::Number(1));
    let child = root.create_child();
    let grandchild = child.create_child();
    assert_eq!(grandchild.get_binding("x"), Ok(Val::Number(1)));
}

#[test]
fn child_shadows_without_changing_parent() {
    let mut root = Env::default();
    root.store_binding("x".to_string(), Val::Number(1));
    {
        let mut child = root.create_child();
        child.store_binding("x".to_string(), Val::Number(2));
        child.store_binding("y".to_string(), Val::Number(3));
        assert_eq!(child.get_binding("x"), Ok(Val::Number(2)));
        assert_eq!(child.get_binding("y"), Ok(Val::Number(3)));
    }
    assert_eq!(root.get_binding("x"), Ok(Val::Number(1)));
    assert!(root.get_binding("y").is_err());
}

#[test]
fn store_func_and_get_func() {
    let mut env = Env::default();
    env.store_func(
        "f".to_string(),
        vec!["a".to_string(), "b".to_string()],
        Expr::Number(Number(1)),
    );
    assert_eq!(
        env.get_func("f"),
        Ok(&FuncDef {
            params: vec!["a".to_string(), "b".to_string()],
            body: Expr::Number(Number(1)),
        })
    );
}

#[test]
fn store_func_overwrites() {
    let mut env = Env::default();
    env.store_func("f".to_string(), vec![], Expr::Number(Number(1)));
    env.store_func("f".to_string(), vec![], Expr::Number(Number(2)));
    assert_eq!(
        env.get_func("f"),
        Ok(&FuncDef {
            params: vec![],
            body: Expr::Number(Number(2)),
        })
    );
}

#[test]
fn bindings_and_functions_have_separate_names() {
    let mut env = Env::default();
    env.store_binding("f".to_string(), Val::Number(1));
    assert!(env.get_func("f").is_err());
    env.store_func("g".to_string(), vec![], Expr::Number(Number(1)));
    assert!(env.get_binding("g").is_err());
}

#[test]
fn child_reads_functions_through_ancestors() {
    let mut root = Env::default();
    root.store_func("f".to_string(), vec![], Expr::Number(Number(1)));
    let child = root.create_child();
    assert!(child.get_func("f").is_ok());
}

#[test]
fn call_child_sees_what_parent_sees() {
    let mut root = Env::default();
    root.store_binding("x".to_string(), Val::Number(1));
    let child = root.create_call_child().unwrap();
    assert_eq!(child.get_binding("x"), Ok(Val::Number(1)));
}

#[test]
fn expected_message_names_literal() {
    assert_eq!(expected_message("let"), "expected let");
    assert_eq!(expected_message(""), "expected ");
}

#[test]
fn missing_messages_name_the_name() {
    assert_eq!(
        missing_binding_message("a"),
        "binding with name 'a' does not exist"
    );
    assert_eq!(
        missing_func_message("a"),
        "function with name 'a' does not exist"
    );
}

#[test]
fn wrong_arity_message_writes_numbers_in_decimal() {
    assert_eq!(wrong_arity_message(0, 1), "expected 0 parameters, got 1");
    assert_eq!(wrong_arity_message(9, 10), "expected 9 parameters, got 10");
    assert_eq!(
        wrong_arity_message(1234567890, 100),
        "expected 1234567890 parameters, got 100"
    );
}
