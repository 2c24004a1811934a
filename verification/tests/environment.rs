use herang::{Builtin, CyberFunc, Function, HeEnv, HeError, LenFunc, Value};

fn v(items: Vec<u32>) -> Value {
    Value::new(items)
}

fn fresh() -> HeEnv<Builtin> {
    HeEnv::new()
}

#[test]
fn env_starts_with_one_empty_layer() {
    let env = fresh();
    assert_eq!(env.depth(), 1);
    assert!(env.get_var("a").is_none());
    assert!(env.get_func("f").is_none());
}

#[test]
fn env_set_var_then_get_var() {
    let mut env = fresh();
    let r = env.set_var("a".to_string(), v(vec![1, 2]));
    assert_eq!(r.unwrap().value, vec![1, 2]);
    assert_eq!(env.get_var("a").unwrap().value, vec![1, 2]);
    assert!(env.get_var("b").is_none());
    env.set_var("a".to_string(), v(vec![3])).unwrap();
    assert_eq!(env.get_var("a").unwrap().value, vec![3]);
}

#[test]
fn env_assignment_in_inner_scope_reaches_the_enclosing_binding() {
    let mut env = fresh();
    env.set_var("a".to_string(), v(vec![1])).unwrap();
    env.enter();
    env.set_var("a".to_string(), v(vec![2])).unwrap();
    assert_eq!(env.get_var("a").unwrap().value, vec![2]);
    env.leave();
    assert_eq!(env.get_var("a").unwrap().value, vec![2]);
}

#[test]
fn env_declaration_in_inner_scope_shadows_the_enclosing_binding() {
    let mut env = fresh();
    env.set_var("a".to_string(), v(vec![1])).unwrap();
    env.enter();
    env.set_var_last("a".to_string(), v(vec![2])).unwrap();
    assert_eq!(env.get_var("a").unwrap().value, vec![2]);
    env.set_var("a".to_string(), v(vec![3])).unwrap();
    assert_eq!(env.get_var("a").unwrap().value, vec![3]);
    env.leave();
    assert_eq!(env.get_var("a").unwrap().value, vec![1]);
}

#[test]
fn env_new_name_is_bound_in_the_innermost_scope() {
    let mut env = fresh();
    env.enter();
    env.set_var("a".to_string(), v(vec![2])).unwrap();
    assert_eq!(env.depth(), 2);
    env.leave();
    assert_eq!(env.depth(), 1);
    assert!(env.get_var("a").is_none());
}

#[test]
fn env_functions_are_found_outwards() {
    let mut env = fresh();
    let r = env.set_func("cyber".to_string(), Function::Builtin(Builtin::Cyber(CyberFunc)));
    assert_eq!(r.unwrap().value, vec![0]);
    env.enter();
    assert!(matches!(env.get_func("cyber"), Some(Function::Builtin(Builtin::Cyber(_)))));
    assert!(env.get_func("len").is_none());
}

#[test]
fn env_function_may_be_shadowed_but_not_redefined() {
    let mut env = fresh();
    env.set_func("f".to_string(), Function::Builtin(Builtin::Cyber(CyberFunc))).unwrap();
    let r = env.set_func("f".to_string(), Function::Builtin(Builtin::Len(LenFunc)));
    match r {
        Err(HeError::DuplicateFunctionDefinition(name)) => assert_eq!(name, "f"),
        _ => panic!("a second definition in one scope must fail"),
    }
    assert!(matches!(env.get_func("f"), Some(Function::Builtin(Builtin::Cyber(_)))));
    env.enter();
    env.set_func("f".to_string(), Function::Builtin(Builtin::Len(LenFunc))).unwrap();
    assert!(matches!(env.get_func("f"), Some(Function::Builtin(Builtin::Len(_)))));
    env.leave();
    assert!(matches!(env.get_func("f"), Some(Function::Builtin(Builtin::Cyber(_)))));
}
