use eldiro::env::Env;
use eldiro::expr::binding_usage::BindingUsage;
use eldiro::val::Val;

#[test]
fn binding_usage_parse_binding_usage() {
    assert_eq!(
        BindingUsage::new("abc"),
        Ok((
            "",
            BindingUsage {
                name: "abc".to_string(),
            }
        ))
    )
}

#[test]
fn eval_existing_binding_usage() {
    let mut env = Env::default();
    env.store_binding("foo".to_string(), Val::Number(10));

    assert_eq!(
        BindingUsage {
            name: "foo".to_string(),
        }
        .eval(&env),
        Ok(Val::Number(10))
    )
}

#[test]
fn eval_non_existing_binding_usage() {
    let empty_env = Env::default();

    assert_eq!(
        BindingUsage {
            name: "missing".to_string(),
        }
        .eval(&empty_env),
        Err("binding with name \'missing\' does not exist".to_string())
    )
}
