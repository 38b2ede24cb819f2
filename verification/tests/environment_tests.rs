use r_python::interpreter::error::Error;
use r_python::interpreter::interpreter::lookup;
use r_python::interpreter::interpreter::EnvValue;
use r_python::ir::ast::Expression::{CInt, CString, CTrue};
use r_python::ir::ast::Function;
use r_python::ir::environment::Environment;

fn number(i: i32) -> EnvValue {
    EnvValue::Exp(CInt(i))
}

#[test]
fn new_environment_is_one_empty_root_frame() {
    let env = Environment::new();
    assert_eq!(env.scope_key(), 0);
    assert_eq!(env.get_frame(0).parent_key(), None);
    assert_eq!(env.search_frame("x".to_string()), None);
    assert_eq!(
        lookup("x".to_string(), &env),
        Err(Error::UndefinedName("x".to_string()))
    );
}

#[test]
fn declared_value_is_resolved() {
    let mut env = Environment::new();
    env.insert_variable("x".to_string(), number(42));
    assert_eq!(lookup("x".to_string(), &env), Ok(number(42)));
    assert_eq!(env.search_frame("x".to_string()), Some(&number(42)));
}

#[test]
fn later_declaration_replaces_earlier_one() {
    let mut env = Environment::new();
    env.insert_variable("x".to_string(), number(1));
    env.insert_variable("y".to_string(), number(2));
    env.insert_variable("x".to_string(), EnvValue::Exp(CString("new".to_string())));
    assert_eq!(
        lookup("x".to_string(), &env),
        Ok(EnvValue::Exp(CString("new".to_string())))
    );
    assert_eq!(lookup("y".to_string(), &env), Ok(number(2)));
}

#[test]
fn lookup_walks_the_chain_to_the_root() {
    let mut env = Environment::new();
    env.insert_variable("outer".to_string(), number(1));
    env.insert_frame();
    env.insert_frame();
    assert_eq!(env.scope_key(), 2);
    assert_eq!(env.get_frame(2).parent_key(), Some(1));
    assert_eq!(env.get_frame(1).parent_key(), Some(0));
    assert_eq!(lookup("outer".to_string(), &env), Ok(number(1)));
    assert_eq!(env.search_frame("outer".to_string()), Some(&number(1)));
    assert_eq!(env.search_frame("missing".to_string()), None);
    assert_eq!(
        lookup("missing".to_string(), &env),
        Err(Error::UndefinedName("missing".to_string()))
    );
}

#[test]
fn inner_declaration_shadows_until_its_frame_is_dropped() {
    let mut env = Environment::new();
    env.insert_variable("x".to_string(), number(1));
    env.insert_frame();
    env.insert_variable("x".to_string(), number(2));
    env.insert_variable("local".to_string(), EnvValue::Exp(CTrue));
    assert_eq!(lookup("x".to_string(), &env), Ok(number(2)));
    assert_eq!(env.get_frame(0).get(&"x".to_string()), Some(&number(1)));
    assert_eq!(env.get_frame(1).get(&"x".to_string()), Some(&number(2)));
    env.remove_frame();
    assert_eq!(env.scope_key(), 0);
    assert_eq!(lookup("x".to_string(), &env), Ok(number(1)));
    assert_eq!(env.search_frame("local".to_string()), None);
}

#[test]
fn root_frame_is_never_dropped() {
    let mut env = Environment::new();
    env.insert_variable("x".to_string(), number(1));
    env.remove_frame();
    assert_eq!(env.scope_key(), 0);
    assert_eq!(lookup("x".to_string(), &env), Ok(number(1)));
}

#[test]
fn copy_of_environment_is_independent() {
    let mut env = Environment::new();
    env.insert_variable("x".to_string(), number(1));
    env.insert_frame();
    env.insert_variable("y".to_string(), number(2));
    let mut copy = env.clone();
    assert_eq!(copy, env);
    copy.insert_variable("x".to_string(), number(3));
    assert_eq!(lookup("x".to_string(), &copy), Ok(number(3)));
    assert_eq!(lookup("x".to_string(), &env), Ok(number(1)));
    assert_eq!(lookup("y".to_string(), &copy), Ok(number(2)));
}

#[test]
fn functions_are_values_too() {
    let func = Function {
        name: "f".to_string(),
        kind: None,
        params: None,
        body: None,
    };
    let mut env = Environment::new();
    env.insert_variable("f".to_string(), EnvValue::Func(func.clone()));
    assert_eq!(lookup("f".to_string(), &env), Ok(EnvValue::Func(func)));
}
